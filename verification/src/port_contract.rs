//! Admission of the format that a live port advertises against its declared contract.
use vstd::prelude::*;
use vstd::string::*;
use crate::config::{ObjectRole, PortSpec, SPort};
use crate::decode;
use crate::diagnostic::{DiagnosticView, ScientificDiagnostic};
use crate::text::{concat2, concat3, decimal_u64, owned};
use crate::validate::{check_result, diag};

verus! {

broadcast use vstd::string::group_string_axioms;

/// A property value as a port advertises it.
#[derive(Debug, PartialEq, Eq)]
pub enum PropertyValue {
    /// A fixed string.
    Text(String),
    /// Any other value, by its debug rendering.
    Other(String),
}

/// The ndarray part of an advertised format, as plain values.
#[derive(Debug, PartialEq, Eq)]
pub struct ObservedNdArray {
    pub element_type: String,
    pub shape: Vec<u32>,
    pub row_major: bool,
    pub layout: String,
    pub rate: Option<(u32, u32)>,
}

/// The EnumFormat object that a live port advertises, as plain values.
#[derive(Debug, PartialEq, Eq)]
pub struct ObservedFormat {
    /// Whether the object has the Format object type and the EnumFormat id.
    pub is_enum_format: bool,
    pub object_type: u32,
    pub object_id: u32,
    pub property_count: usize,
    /// The properties read as an ndarray format, or why they cannot be.
    pub ndarray: Result<ObservedNdArray, String>,
    /// Every property under the ndarray schema key, in order.
    pub schema_properties: Vec<PropertyValue>,
}

pub enum SProperty {
    Text(Seq<char>),
    Other(Seq<char>),
}

pub struct SNdArray {
    pub element_type: Seq<char>,
    pub shape: Seq<u32>,
    pub row_major: bool,
    pub layout: Seq<char>,
    pub rate: Option<(u32, u32)>,
}

pub struct SFormat {
    pub is_enum_format: bool,
    pub object_type: u32,
    pub object_id: u32,
    pub property_count: usize,
    pub ndarray: Result<SNdArray, Seq<char>>,
    pub schema_properties: Seq<SProperty>,
}

impl View for ObservedFormat {
    type V = SFormat;

    open spec fn view(&self) -> SFormat {
        SFormat {
            is_enum_format: self.is_enum_format,
            object_type: self.object_type,
            object_id: self.object_id,
            property_count: self.property_count,
            ndarray: match self.ndarray {
                Ok(n) => Ok(
                    SNdArray {
                        element_type: n.element_type@,
                        shape: n.shape@,
                        row_major: n.row_major,
                        layout: n.layout@,
                        rate: n.rate,
                    },
                ),
                Err(e) => Err(e@),
            },
            schema_properties: Seq::new(
                self.schema_properties@.len(),
                |i: int|
                    match self.schema_properties@[i] {
                        PropertyValue::Text(s) => SProperty::Text(s@),
                        PropertyValue::Other(s) => SProperty::Other(s@),
                    },
            ),
        }
    }
}

/// The field of property `what` of port `name` of an object of `role`.
pub open spec fn live_field(role: ObjectRole, name: Seq<char>, what: Seq<char>) -> Seq<char> {
    crate::config::role_name(role) + ".ports."@ + name + "."@ + what
}

/// The rendering of a shape, `[2, 3]`.
pub open spec fn shape_items(shape: Seq<u32>) -> Seq<char>
    decreases shape.len(),
{
    if shape.len() == 0 {
        Seq::empty()
    } else if shape.len() == 1 {
        crate::text::decimal(shape[0] as nat)
    } else {
        shape_items(shape.drop_last()) + ", "@ + crate::text::decimal(shape.last() as nat)
    }
}

pub open spec fn shape_text(shape: Seq<u32>) -> Seq<char> {
    "["@ + shape_items(shape) + "]"@
}

/// The rendering of an optional frame rate.
pub open spec fn rate_text(rate: Option<(u32, u32)>) -> Seq<char> {
    match rate {
        None => "None"@,
        Some((n, d)) => "Some(Fraction { num: "@ + crate::text::decimal(n as nat) + ", denom: "@
            + crate::text::decimal(d as nat) + " })"@,
    }
}

/// The problem with the format object itself.
pub open spec fn format_object_error(role: ObjectRole, name: Seq<char>, f: SFormat) -> Option<DiagnosticView> {
    if f.is_enum_format {
        None
    } else {
        Some(
            diag(
                live_field(role, name, "format"@),
                "expected a SPA EnumFormat object, observed type "@ + crate::text::decimal(
                    f.object_type as nat,
                ) + " id "@ + crate::text::decimal(f.object_id as nat),
            ),
        )
    }
}

/// The single fixed-string schema that a format advertises.
pub open spec fn schema_property(role: ObjectRole, name: Seq<char>, f: SFormat) -> Result<Seq<char>, DiagnosticView> {
    let field = live_field(role, name, "schema"@);
    if f.schema_properties.len() == 0 {
        Err(diag(field, "required property is missing"@))
    } else if f.schema_properties.len() > 1 {
        Err(diag(field, "property is declared more than once"@))
    } else {
        match f.schema_properties[0] {
            SProperty::Text(s) => Ok(s),
            SProperty::Other(d) => Err(diag(field, "expected a fixed string, observed "@ + d)),
        }
    }
}

/// The first way in which an advertised ndarray format departs from a declared port.
pub open spec fn ndarray_port_error(role: ObjectRole, f: SFormat, port: SPort) -> Option<DiagnosticView> {
    let name = port.name;
    if format_object_error(role, name, f) is Some {
        format_object_error(role, name, f)
    } else {
        match f.ndarray {
            Err(e) => Some(
                diag(live_field(role, name, "format"@), "invalid ndarray EnumFormat: "@ + e),
            ),
            Ok(n) => if n.element_type != "F32_LE"@ {
                Some(
                    diag(
                        live_field(role, name, "element-type"@),
                        "expected F32_LE, observed "@ + n.element_type,
                    ),
                )
            } else if n.shape != port.shape {
                Some(
                    diag(
                        live_field(role, name, "shape"@),
                        "expected "@ + shape_text(port.shape) + ", observed "@ + shape_text(n.shape),
                    ),
                )
            } else if !n.row_major {
                Some(
                    diag(
                        live_field(role, name, "layout"@),
                        "expected row-major, observed "@ + n.layout,
                    ),
                )
            } else if n.rate != Some((1000u32, 1u32)) {
                Some(
                    diag(
                        live_field(role, name, "rate"@),
                        "expected 1000/1 complete frames per second, observed "@ + rate_text(n.rate),
                    ),
                )
            } else {
                match schema_property(role, name, f) {
                    Err(d) => Some(d),
                    Ok(s) => if s != port.schema {
                        Some(
                            diag(
                                live_field(role, name, "schema"@),
                                "expected "@ + decode::quoted(port.schema) + ", observed "@
                                    + decode::quoted(s),
                            ),
                        )
                    } else {
                        None
                    },
                }
            },
        }
    }
}

/// The problem with the format that the port of a runner-owned discard sink advertises,
/// which must be unconstrained.
pub open spec fn discard_port_error(role: ObjectRole, f: SFormat, name: Seq<char>) -> Option<DiagnosticView> {
    if format_object_error(role, name, f) is Some {
        format_object_error(role, name, f)
    } else if f.property_count == 0 {
        None
    } else {
        Some(
            diag(
                live_field(role, name, "format"@),
                "the discard sink must advertise an unconstrained format object"@,
            ),
        )
    }
}

/// The problem with a live port: a runner-owned sink advertises an unconstrained format,
/// every other port the ndarray contract it declares.
pub open spec fn live_port_error(role: ObjectRole, owned_sink: bool, f: SFormat, port: SPort) -> Option<
    DiagnosticView,
> {
    if role == ObjectRole::Sink && owned_sink {
        discard_port_error(role, f, port.name)
    } else {
        ndarray_port_error(role, f, port)
    }
}

fn live_field_exec(role: ObjectRole, name: &str, what: &str) -> (r: String)
    ensures
        r@ == live_field(role, name@, what@),
{
    let mut r = concat3(role.name(), ".ports.", name);
    r.append(".");
    r.append(what);
    r
}

pub fn shape_text_exec(shape: &Vec<u32>) -> (r: String)
    ensures
        r@ == shape_text(shape@),
{
    let mut items = String::new();
    let mut i: usize = 0;
    assert(shape@.take(0) =~= Seq::<u32>::empty());
    while i < shape.len()
        invariant
            i <= shape.len(),
            items@ == shape_items(shape@.take(i as int)),
        decreases shape.len() - i,
    {
        assert(shape@.take(i + 1).drop_last() =~= shape@.take(i as int));
        if i > 0 {
            items.append(", ");
        }
        let digits = decimal_u64(shape[i] as u64);
        items.append(digits.as_str());
        i = i + 1;
    }
    assert(shape@.take(shape.len() as int) =~= shape@);
    concat3("[", items.as_str(), "]")
}

fn rate_text_exec(rate: Option<(u32, u32)>) -> (r: String)
    ensures
        r@ == rate_text(rate),
{
    match rate {
        None => owned("None"),
        Some((n, d)) => {
            let num = decimal_u64(n as u64);
            let denom = decimal_u64(d as u64);
            let mut r = concat3("Some(Fraction { num: ", num.as_str(), ", denom: ");
            r.append(denom.as_str());
            r.append(" })");
            r
        },
    }
}

fn format_object_check(role: ObjectRole, name: &str, f: &ObservedFormat) -> (r: Result<(), ScientificDiagnostic>)
    ensures
        check_result(r) == format_object_error(role, name@, f@),
{
    if f.is_enum_format {
        return Ok(());
    }
    let t = decimal_u64(f.object_type as u64);
    let i = decimal_u64(f.object_id as u64);
    let mut m = concat3("expected a SPA EnumFormat object, observed type ", t.as_str(), " id ");
    m.append(i.as_str());
    Err(ScientificDiagnostic::from_parts(live_field_exec(role, name, "format"), m))
}

fn ndarray_port_check(role: ObjectRole, f: &ObservedFormat, port: &PortSpec) -> (r: Result<(), ScientificDiagnostic>)
    ensures
        check_result(r) == ndarray_port_error(role, f@, port@),
{
    let name = port.name.as_str();
    format_object_check(role, name, f)?;
    let n = match &f.ndarray {
        Err(e) => {
            return Err(ScientificDiagnostic::from_parts(live_field_exec(role, name, "format"), concat2("invalid ndarray EnumFormat: ", e.as_str())));
        },
        Ok(n) => n,
    };
    if !crate::text::is_text(&n.element_type, "F32_LE") {
        return Err(ScientificDiagnostic::from_parts(live_field_exec(role, name, "element-type"), concat2("expected F32_LE, observed ", n.element_type.as_str())));
    }
    let mut same_shape = n.shape.len() == port.shape.len();
    let mut i: usize = 0;
    while same_shape && i < n.shape.len()
        invariant
            i <= n.shape.len(),
            same_shape ==> n.shape.len() == port.shape.len(),
            same_shape ==> forall|j: int| 0 <= j < i ==> n.shape@[j] == port.shape@[j],
            !same_shape ==> n.shape@ != port.shape@,
        decreases n.shape.len() - i,
    {
        if n.shape[i] != port.shape[i] {
            same_shape = false;
        }
        i = i + 1;
    }
    if !same_shape {
        let expected = shape_text_exec(&port.shape);
        let observed = shape_text_exec(&n.shape);
        let mut m = concat3("expected ", expected.as_str(), ", observed ");
        m.append(observed.as_str());
        return Err(ScientificDiagnostic::from_parts(live_field_exec(role, name, "shape"), m));
    }
    assert(n.shape@ =~= port.shape@);
    if !n.row_major {
        return Err(ScientificDiagnostic::from_parts(live_field_exec(role, name, "layout"), concat2("expected row-major, observed ", n.layout.as_str())));
    }
    let expected_rate = match n.rate {
        Some((num, denom)) => num == 1000 && denom == 1,
        None => false,
    };
    if !expected_rate {
        let observed = rate_text_exec(n.rate);
        return Err(ScientificDiagnostic::from_parts(live_field_exec(role, name, "rate"), concat2("expected 1000/1 complete frames per second, observed ", observed.as_str())));
    }
    let field = live_field_exec(role, name, "schema");
    if f.schema_properties.len() == 0 {
        return Err(ScientificDiagnostic::from_parts(field, owned("required property is missing")));
    }
    if f.schema_properties.len() > 1 {
        return Err(ScientificDiagnostic::from_parts(field, owned("property is declared more than once")));
    }
    match &f.schema_properties[0] {
        PropertyValue::Other(d) => Err(ScientificDiagnostic::from_parts(field, concat2("expected a fixed string, observed ", d.as_str()))),
        PropertyValue::Text(s) => {
            if crate::text::same_text(s, &port.schema) {
                Ok(())
            } else {
                let qe = decode::quoted_text(port.schema.as_str());
                let qs = decode::quoted_text(s.as_str());
                let mut m = concat3("expected ", qe.as_str(), ", observed ");
                m.append(qs.as_str());
                Err(ScientificDiagnostic::from_parts(field, m))
            }
        },
    }
}

/// Checks the format that a live port advertises against its declared contract; a
/// runner-owned sink (`owned_sink`) must advertise an unconstrained format instead.
pub fn validate_live_port(role: ObjectRole, owned_sink: bool, f: &ObservedFormat, port: &PortSpec) -> (r: Result<
    (),
    ScientificDiagnostic,
>)
    ensures
        check_result(r) == live_port_error(role, owned_sink, f@, port@),
{
    if role == ObjectRole::Sink && owned_sink {
        let name = port.name.as_str();
        format_object_check(role, name, f)?;
        if f.property_count == 0 {
            Ok(())
        } else {
            Err(ScientificDiagnostic::from_parts(live_field_exec(role, name, "format"), owned("the discard sink must advertise an unconstrained format object")))
        }
    } else {
        ndarray_port_check(role, f, port)
    }
}

} // verus!
