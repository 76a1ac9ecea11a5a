//! Decoding of ports, objects, links and execution groups from parsed values.
use vstd::prelude::*;
use vstd::string::*;
use crate::config::{
    EndpointFactory, ExecutionGroupSpec, GraphFactory, LinkSpec, ObjectRealization, ObjectRole,
    ObjectSpec, PortDirection, PortSpec, SGroup, SLink, SObject, SPort, SRealization, FactoryKind,
};
use crate::config;
use crate::decode;
use crate::decode::{
    check_entries, expected_kind_diag, field_dot, field_index, integer_array_exec, lookup_exec, quoted_text,
    scalar_exec, string_array_exec, string_map_exec,
};
use crate::diagnostic::{DiagnosticView, ScientificDiagnostic};
use crate::spa_json::{SVal, Value};
use crate::text::{concat2, concat3, is_text, owned};

verus! {

broadcast use vstd::string::group_string_axioms;

// ----- Optional and required fields -----

/// A required scalar entry.
pub open spec fn req_scalar(o: Option<SVal>, f: Seq<char>) -> Result<Seq<char>, DiagnosticView> {
    match o {
        None => Err(decode::missing(f)),
        Some(v) => decode::scalar(v, f),
    }
}

/// An optional scalar entry.
pub open spec fn opt_scalar(o: Option<SVal>, f: Seq<char>) -> Result<
    Option<Seq<char>>,
    DiagnosticView,
> {
    match o {
        None => Ok(None),
        Some(v) => match decode::scalar(v, f) {
            Err(d) => Err(d),
            Ok(s) => Ok(Some(s)),
        },
    }
}

fn req_scalar_exec(o: Option<&Value>, f: &str) -> (r: Result<String, ScientificDiagnostic>)
    ensures
        decode::text_result(r) == req_scalar(
            match o {
                None => None,
                Some(v) => Some(v@),
            },
            f@,
        ),
{
    match o {
        None => Err(ScientificDiagnostic::from_parts(owned(f), owned("required field is missing"))),
        Some(v) => scalar_exec(v, f),
    }
}

pub open spec fn opt_text_result(r: Result<Option<String>, ScientificDiagnostic>) -> Result<
    Option<Seq<char>>,
    DiagnosticView,
> {
    match r {
        Ok(o) => Ok(config::opt_text(o)),
        Err(d) => Err(d@),
    }
}

pub open spec fn opt_view(o: Option<&Value>) -> Option<SVal> {
    match o {
        None => None,
        Some(v) => Some(v@),
    }
}

fn opt_scalar_exec(o: Option<&Value>, f: &str) -> (r: Result<Option<String>, ScientificDiagnostic>)
    ensures
        opt_text_result(r) == opt_scalar(opt_view(o), f@),
{
    match o {
        None => Ok(None),
        Some(v) => {
            let s = scalar_exec(v, f)?;
            Ok(Some(s))
        },
    }
}

// ----- Ports -----

pub open spec fn port_keys() -> Seq<Seq<char>> {
    seq!["name"@, "direction"@, "element-type"@, "shape"@, "schema"@]
}

/// The direction a configuration names.
pub open spec fn direction(s: Seq<char>, f: Seq<char>) -> Result<PortDirection, DiagnosticView> {
    if s == "input"@ {
        Ok(PortDirection::Input)
    } else if s == "output"@ {
        Ok(PortDirection::Output)
    } else {
        Err(
            crate::diagnostic::diag(
                f,
                "direction must be input or output, got "@ + decode::quoted(s),
            ),
        )
    }
}

pub open spec fn port_fields(e: Seq<(Seq<char>, SVal)>, f: Seq<char>) -> Result<
    SPort,
    DiagnosticView,
> {
    match req_scalar(decode::lookup(e, "name"@), decode::dot(f, "name"@)) {
        Err(d) => Err(d),
        Ok(name) => match req_scalar(
            decode::lookup(e, "direction"@),
            decode::dot(f, "direction"@),
        ) {
            Err(d) => Err(d),
            Ok(dtext) => match direction(dtext, decode::dot(f, "direction"@)) {
                Err(d) => Err(d),
                Ok(dir) => match req_scalar(
                    decode::lookup(e, "element-type"@),
                    decode::dot(f, "element-type"@),
                ) {
                    Err(d) => Err(d),
                    Ok(element_type) => match decode::lookup(e, "shape"@) {
                        None => Err(decode::missing(decode::dot(f, "shape"@))),
                        Some(sv) => match decode::integer_array(sv, decode::dot(f, "shape"@)) {
                            Err(d) => Err(d),
                            Ok(shape) => match req_scalar(
                                decode::lookup(e, "schema"@),
                                decode::dot(f, "schema"@),
                            ) {
                                Err(d) => Err(d),
                                Ok(schema) => Ok(
                                    SPort { name, direction: dir, element_type, shape, schema },
                                ),
                            },
                        },
                    },
                },
            },
        },
    }
}

/// A declared port.
pub open spec fn port(v: SVal, f: Seq<char>) -> Result<SPort, DiagnosticView> {
    match v {
        SVal::Object(e) => match decode::entry_error(e, port_keys(), false, f, 0) {
            Some(d) => Err(d),
            None => port_fields(e, f),
        },
        _ => Err(decode::expected_kind(f, "an object"@)),
    }
}

fn keys_exec(a: &'static str, b: &'static str, c: &'static str, d: &'static str, e: &'static str) -> (r: Vec<&'static str>)
    ensures
        r@.map_values(|s: &str| s@) == seq![a@, b@, c@, d@, e@],
{
    let r = vec![a, b, c, d, e];
    assert(r@.map_values(|s: &str| s@) =~= seq![a@, b@, c@, d@, e@]);
    r
}

fn direction_exec(s: &String, f: &str) -> (r: Result<PortDirection, ScientificDiagnostic>)
    ensures
        match r {
            Ok(x) => direction(s@, f@) == Ok::<PortDirection, DiagnosticView>(x),
            Err(d) => direction(s@, f@) == Err::<PortDirection, DiagnosticView>(d@),
        },
{
    if is_text(s, "input") {
        Ok(PortDirection::Input)
    } else if is_text(s, "output") {
        Ok(PortDirection::Output)
    } else {
        let q = quoted_text(s.as_str());
        Err(ScientificDiagnostic::from_parts(owned(f), concat2("direction must be input or output, got ", q.as_str())))
    }
}

pub open spec fn port_result(r: Result<PortSpec, ScientificDiagnostic>) -> Result<SPort, DiagnosticView> {
    match r {
        Ok(p) => Ok(p@),
        Err(d) => Err(d@),
    }
}

pub fn port_exec(v: &Value, f: &str) -> (r: Result<PortSpec, ScientificDiagnostic>)
    ensures
        port_result(r) == port(v@, f@),
{
    proof {
        crate::spa_json::lemma_value_view(*v);
    }
    match v {
        Value::Object(e) => {
            let keys = keys_exec("name", "direction", "element-type", "shape", "schema");
            check_entries(e, &keys, false, f)?;
            let name_field = field_dot(f, "name");
            let name = req_scalar_exec(lookup_exec(e, "name"), name_field.as_str())?;
            let direction_field = field_dot(f, "direction");
            let dtext = req_scalar_exec(lookup_exec(e, "direction"), direction_field.as_str())?;
            let dir = direction_exec(&dtext, direction_field.as_str())?;
            let element_field = field_dot(f, "element-type");
            let element_type = req_scalar_exec(lookup_exec(e, "element-type"), element_field.as_str())?;
            let shape_field = field_dot(f, "shape");
            let shape = match lookup_exec(e, "shape") {
                None => {
                    return Err(ScientificDiagnostic::from_parts(shape_field, owned("required field is missing")));
                },
                Some(sv) => integer_array_exec(sv, shape_field.as_str())?,
            };
            let schema_field = field_dot(f, "schema");
            let schema = req_scalar_exec(lookup_exec(e, "schema"), schema_field.as_str())?;
            Ok(PortSpec { name, direction: dir, element_type, shape, schema })
        },
        _ => Err(expected_kind_diag(f, "an object")),
    }
}


/// The ports of an array, each at its indexed field, from `k` on, after `acc`.
pub open spec fn ports_from(items: Seq<SVal>, f: Seq<char>, k: int, acc: Seq<SPort>) -> Result<
    Seq<SPort>,
    DiagnosticView,
>
    decreases items.len() - k,
{
    if k < 0 || k >= items.len() {
        Ok(acc)
    } else {
        match port(items[k], decode::indexed(f, k as nat)) {
            Err(d) => Err(d),
            Ok(p) => ports_from(items, f, k + 1, acc.push(p)),
        }
    }
}

/// An array of declared ports.
pub open spec fn port_array(v: SVal, f: Seq<char>) -> Result<Seq<SPort>, DiagnosticView> {
    match v {
        SVal::Array(items) => ports_from(items, f, 0, Seq::empty()),
        _ => Err(decode::expected_kind(f, "an array"@)),
    }
}

pub open spec fn ports_result(r: Result<Vec<PortSpec>, ScientificDiagnostic>) -> Result<
    Seq<SPort>,
    DiagnosticView,
> {
    match r {
        Ok(p) => Ok(config::ports_view(p@)),
        Err(d) => Err(d@),
    }
}

pub fn port_array_exec(v: &Value, f: &str) -> (r: Result<Vec<PortSpec>, ScientificDiagnostic>)
    ensures
        ports_result(r) == port_array(v@, f@),
{
    proof {
        crate::spa_json::lemma_value_view(*v);
    }
    match v {
        Value::Array(items) => {
            let ghost iv = crate::spa_json::items_view(items@);
            let mut out: Vec<PortSpec> = Vec::new();
            let mut k: usize = 0;
            assert(config::ports_view(out@) =~= Seq::<SPort>::empty());
            while k < items.len()
                invariant
                    k <= items.len(),
                    iv == crate::spa_json::items_view(items@),
                    port_array(v@, f@) == ports_from(iv, f@, 0, Seq::empty()),
                    ports_from(iv, f@, k as int, config::ports_view(out@)) == ports_from(
                        iv,
                        f@,
                        0,
                        Seq::empty(),
                    ),
                decreases items.len() - k,
            {
                let name = field_index(f, k);
                let p = port_exec(&items[k], name.as_str())?;
                let ghost before = config::ports_view(out@);
                let ghost pv = p@;
                out.push(p);
                assert(config::ports_view(out@) =~= before.push(pv));
                k = k + 1;
            }
            Ok(out)
        },
        _ => Err(expected_kind_diag(f, "an array")),
    }
}

// ----- Objects -----

pub open spec fn object_keys() -> Seq<Seq<char>> {
    seq![
        "factory"@,
        "module"@,
        "node.name"@,
        "plugin.path"@,
        "config.path"@,
        "args"@,
        "ports"@,
        "ownership"@,
    ]
}

/// The factory that a configured name selects for an object of `role`.
pub open spec fn admitted_factory(role: ObjectRole, name: Seq<char>, f: Seq<char>) -> Result<
    SRealization,
    DiagnosticView,
> {
    match role {
        ObjectRole::Source => if name == config::simulated_source_factory() {
            Ok(SRealization::Simulated)
        } else if name == config::fits_source_factory() {
            Ok(SRealization::Fits)
        } else {
            Err(
                crate::diagnostic::diag(
                    f,
                    "factory "@ + decode::quoted(name)
                        + " is not in the development-safe source allowlist"@,
                ),
            )
        },
        ObjectRole::Sink => if name == config::discard_sink_factory() {
            Ok(SRealization::Discard)
        } else {
            Err(
                crate::diagnostic::diag(
                    f,
                    "factory "@ + decode::quoted(name)
                        + " is not in the non-actuating sink allowlist"@,
                ),
            )
        },
        ObjectRole::Graph => if name == config::fgn_graph_factory() {
            Ok(SRealization::FgnNative)
        } else {
            Err(
                crate::diagnostic::diag(
                    f,
                    "expected the fgn-native factory \"pipewireao.fgn-native\", got "@
                        + decode::quoted(name),
                ),
            )
        },
    }
}

/// The fields that every object has, once its realization and module are known.
pub open spec fn common_fields(
    e: Seq<(Seq<char>, SVal)>,
    f: Seq<char>,
    realization: SRealization,
    module: Option<Seq<char>>,
) -> Result<SObject, DiagnosticView> {
    match req_scalar(decode::lookup(e, "node.name"@), decode::dot(f, "node.name"@)) {
        Err(d) => Err(d),
        Ok(node_name) => match opt_scalar(
            decode::lookup(e, "plugin.path"@),
            decode::dot(f, "plugin.path"@),
        ) {
            Err(d) => Err(d),
            Ok(plugin_path) => match opt_scalar(
                decode::lookup(e, "config.path"@),
                decode::dot(f, "config.path"@),
            ) {
                Err(d) => Err(d),
                Ok(config_path) => match match decode::lookup(e, "args"@) {
                    None => Ok(Seq::empty()),
                    Some(a) => decode::string_map(a, decode::dot(f, "args"@)),
                } {
                    Err(d) => Err(d),
                    Ok(args) => match decode::lookup(e, "ports"@) {
                        None => Err(decode::missing(decode::dot(f, "ports"@))),
                        Some(pv) => match port_array(pv, decode::dot(f, "ports"@)) {
                            Err(d) => Err(d),
                            Ok(ports) => Ok(
                                SObject {
                                    realization,
                                    module,
                                    node_name,
                                    plugin_path,
                                    config_path,
                                    args,
                                    ports,
                                },
                            ),
                        },
                    },
                },
            },
        },
    }
}

/// The fields of an object created by the runner through an admitted factory.
pub open spec fn owned_fields(e: Seq<(Seq<char>, SVal)>, f: Seq<char>, role: ObjectRole) -> Result<
    SObject,
    DiagnosticView,
> {
    match req_scalar(decode::lookup(e, "factory"@), decode::dot(f, "factory"@)) {
        Err(d) => Err(d),
        Ok(name) => match admitted_factory(role, name, decode::dot(f, "factory"@)) {
            Err(d) => Err(d),
            Ok(realization) => match req_scalar(
                decode::lookup(e, "module"@),
                decode::dot(f, "module"@),
            ) {
                Err(d) => Err(d),
                Ok(module) => common_fields(e, f, realization, Some(module)),
            },
        },
    }
}

/// The fields of an object owned elsewhere and selected by its PipeWire contract.
pub open spec fn external_fields(e: Seq<(Seq<char>, SVal)>, f: Seq<char>) -> Result<
    SObject,
    DiagnosticView,
> {
    if decode::lookup(e, "factory"@) is Some {
        Err(
            crate::diagnostic::diag(
                decode::dot(f, "factory"@),
                "an externally owned object is not created by the runner"@,
            ),
        )
    } else {
        match opt_scalar(decode::lookup(e, "module"@), decode::dot(f, "module"@)) {
            Err(d) => Err(d),
            Ok(module) => common_fields(e, f, SRealization::External, module),
        }
    }
}

pub open spec fn object_fields(e: Seq<(Seq<char>, SVal)>, f: Seq<char>, role: ObjectRole) -> Result<
    SObject,
    DiagnosticView,
> {
    match decode::lookup(e, "ownership"@) {
        None => owned_fields(e, f, role),
        Some(ov) => match decode::scalar(ov, decode::dot(f, "ownership"@)) {
            Err(d) => Err(d),
            Ok(s) => if s == "external"@ {
                external_fields(e, f)
            } else {
                Err(
                    crate::diagnostic::diag(
                        decode::dot(f, "ownership"@),
                        "ownership must be external, got "@ + decode::quoted(s),
                    ),
                )
            },
        },
    }
}

/// A declared object of the given role.
pub open spec fn object(v: SVal, f: Seq<char>, role: ObjectRole) -> Result<SObject, DiagnosticView> {
    match v {
        SVal::Object(e) => match decode::entry_error(e, object_keys(), false, f, 0) {
            Some(d) => Err(d),
            None => object_fields(e, f, role),
        },
        _ => Err(decode::expected_kind(f, "an object"@)),
    }
}


pub open spec fn object_result<F: FactoryKind>(r: Result<ObjectSpec<F>, ScientificDiagnostic>) -> Result<
    SObject,
    DiagnosticView,
> {
    match r {
        Ok(o) => Ok(o@),
        Err(d) => Err(d@),
    }
}

fn keys8_exec() -> (r: Vec<&'static str>)
    ensures
        r@.map_values(|s: &str| s@) == object_keys(),
{
    let r = vec![
        "factory",
        "module",
        "node.name",
        "plugin.path",
        "config.path",
        "args",
        "ports",
        "ownership",
    ];
    assert(r@.map_values(|s: &str| s@) =~= object_keys());
    r
}

fn common_fields_exec<F: FactoryKind>(
    e: &Vec<(String, Value)>,
    f: &str,
    realization: ObjectRealization<F>,
    module: Option<String>,
) -> (r: Result<ObjectSpec<F>, ScientificDiagnostic>)
    ensures
        object_result(r) == common_fields(
            crate::spa_json::entries_view(e@),
            f@,
            config::realization_view(realization),
            config::opt_text(module),
        ),
{
    let node_field = field_dot(f, "node.name");
    let node_name = req_scalar_exec(lookup_exec(e, "node.name"), node_field.as_str())?;
    let plugin_field = field_dot(f, "plugin.path");
    let plugin_path = opt_scalar_exec(lookup_exec(e, "plugin.path"), plugin_field.as_str())?;
    let config_field = field_dot(f, "config.path");
    let configuration_path = opt_scalar_exec(lookup_exec(e, "config.path"), config_field.as_str())?;
    let args_field = field_dot(f, "args");
    let arguments = match lookup_exec(e, "args") {
        None => {
            let v: Vec<(String, String)> = Vec::new();
            assert(config::pairs_view(v@) =~= Seq::<(Seq<char>, Seq<char>)>::empty());
            v
        },
        Some(a) => string_map_exec(a, args_field.as_str())?,
    };
    let ports_field = field_dot(f, "ports");
    let ports = match lookup_exec(e, "ports") {
        None => {
            return Err(ScientificDiagnostic::from_parts(ports_field, owned("required field is missing")));
        },
        Some(pv) => port_array_exec(pv, ports_field.as_str())?,
    };
    Ok(ObjectSpec { realization, module, node_name, plugin_path, configuration_path, arguments, ports })
}

fn owned_endpoint_exec(e: &Vec<(String, Value)>, f: &str, source: bool) -> (r: Result<
    ObjectSpec<EndpointFactory>,
    ScientificDiagnostic,
>)
    ensures
        object_result(r) == owned_fields(
            crate::spa_json::entries_view(e@),
            f@,
            if source { ObjectRole::Source } else { ObjectRole::Sink },
        ),
{
    let factory_field = field_dot(f, "factory");
    let name = req_scalar_exec(lookup_exec(e, "factory"), factory_field.as_str())?;
    let factory = if source {
        if is_text(&name, "pipewireao.simulated-complete-frame") {
            EndpointFactory::SimulatedCompleteFrameSource
        } else if is_text(&name, "api.fits.source") {
            EndpointFactory::FitsCompleteFrameSource
        } else {
            let q = quoted_text(name.as_str());
            return Err(ScientificDiagnostic::from_parts(factory_field, concat3("factory ", q.as_str(), " is not in the development-safe source allowlist")));
        }
    } else {
        if is_text(&name, "api.pipewireao.discard") {
            EndpointFactory::FormatAgnosticDiscardSink
        } else {
            let q = quoted_text(name.as_str());
            return Err(ScientificDiagnostic::from_parts(factory_field, concat3("factory ", q.as_str(), " is not in the non-actuating sink allowlist")));
        }
    };
    let module_field = field_dot(f, "module");
    let module = req_scalar_exec(lookup_exec(e, "module"), module_field.as_str())?;
    common_fields_exec(e, f, ObjectRealization::Factory(factory), Some(module))
}

fn owned_graph_exec(e: &Vec<(String, Value)>, f: &str) -> (r: Result<
    ObjectSpec<GraphFactory>,
    ScientificDiagnostic,
>)
    ensures
        object_result(r) == owned_fields(crate::spa_json::entries_view(e@), f@, ObjectRole::Graph),
{
    let factory_field = field_dot(f, "factory");
    let name = req_scalar_exec(lookup_exec(e, "factory"), factory_field.as_str())?;
    if !is_text(&name, "pipewireao.fgn-native") {
        let q = quoted_text(name.as_str());
        return Err(ScientificDiagnostic::from_parts(factory_field, concat2("expected the fgn-native factory \"pipewireao.fgn-native\", got ", q.as_str())));
    }
    let module_field = field_dot(f, "module");
    let module = req_scalar_exec(lookup_exec(e, "module"), module_field.as_str())?;
    common_fields_exec(e, f, ObjectRealization::Factory(GraphFactory::FgnNative), Some(module))
}

fn external_exec<F: FactoryKind>(e: &Vec<(String, Value)>, f: &str) -> (r: Result<
    ObjectSpec<F>,
    ScientificDiagnostic,
>)
    ensures
        object_result(r) == external_fields(crate::spa_json::entries_view(e@), f@),
{
    if lookup_exec(e, "factory").is_some() {
        let factory_field = field_dot(f, "factory");
        return Err(ScientificDiagnostic::from_parts(factory_field, owned("an externally owned object is not created by the runner")));
    }
    let module_field = field_dot(f, "module");
    let module = opt_scalar_exec(lookup_exec(e, "module"), module_field.as_str())?;
    common_fields_exec(e, f, ObjectRealization::External, module)
}

/// Whether an object entry list selects an externally owned object; an error for any
/// other ownership value.
fn ownership_exec(e: &Vec<(String, Value)>, f: &str) -> (r: Result<bool, ScientificDiagnostic>)
    ensures
        match decode::lookup(crate::spa_json::entries_view(e@), "ownership"@) {
            None => r == Ok::<bool, ScientificDiagnostic>(false),
            Some(ov) => match decode::scalar(ov, decode::dot(f@, "ownership"@)) {
                Err(d) => r matches Err(x) && x@ == d,
                Ok(s) => if s == "external"@ {
                    r == Ok::<bool, ScientificDiagnostic>(true)
                } else {
                    r matches Err(x) && x@ == crate::diagnostic::diag(
                        decode::dot(f@, "ownership"@),
                        "ownership must be external, got "@ + decode::quoted(s),
                    )
                },
            },
        },
{
    match lookup_exec(e, "ownership") {
        None => Ok(false),
        Some(ov) => {
            let ownership_field = field_dot(f, "ownership");
            let s = scalar_exec(ov, ownership_field.as_str())?;
            if is_text(&s, "external") {
                Ok(true)
            } else {
                let q = quoted_text(s.as_str());
                Err(ScientificDiagnostic::from_parts(ownership_field, concat2("ownership must be external, got ", q.as_str())))
            }
        },
    }
}

/// Decodes a declared source (`source`) or sink.
pub fn endpoint_exec(v: &Value, f: &str, source: bool) -> (r: Result<
    ObjectSpec<EndpointFactory>,
    ScientificDiagnostic,
>)
    ensures
        object_result(r) == object(
            v@,
            f@,
            if source { ObjectRole::Source } else { ObjectRole::Sink },
        ),
{
    proof {
        crate::spa_json::lemma_value_view(*v);
    }
    match v {
        Value::Object(e) => {
            let keys = keys8_exec();
            check_entries(e, &keys, false, f)?;
            if ownership_exec(e, f)? {
                external_exec(e, f)
            } else {
                owned_endpoint_exec(e, f, source)
            }
        },
        _ => Err(expected_kind_diag(f, "an object")),
    }
}

/// Decodes a declared graph.
pub fn graph_exec(v: &Value, f: &str) -> (r: Result<ObjectSpec<GraphFactory>, ScientificDiagnostic>)
    ensures
        object_result(r) == object(v@, f@, ObjectRole::Graph),
{
    proof {
        crate::spa_json::lemma_value_view(*v);
    }
    match v {
        Value::Object(e) => {
            let keys = keys8_exec();
            check_entries(e, &keys, false, f)?;
            if ownership_exec(e, f)? {
                external_exec(e, f)
            } else {
                owned_graph_exec(e, f)
            }
        },
        _ => Err(expected_kind_diag(f, "an object")),
    }
}


/// The objects of an array, each at its indexed field, from `k` on, after `acc`.
pub open spec fn objects_from(
    items: Seq<SVal>,
    f: Seq<char>,
    role: ObjectRole,
    k: int,
    acc: Seq<SObject>,
) -> Result<Seq<SObject>, DiagnosticView>
    decreases items.len() - k,
{
    if k < 0 || k >= items.len() {
        Ok(acc)
    } else {
        match object(items[k], decode::indexed(f, k as nat), role) {
            Err(d) => Err(d),
            Ok(o) => objects_from(items, f, role, k + 1, acc.push(o)),
        }
    }
}

/// An array of declared objects of one role.
pub open spec fn object_array(v: SVal, f: Seq<char>, role: ObjectRole) -> Result<
    Seq<SObject>,
    DiagnosticView,
> {
    match v {
        SVal::Array(items) => objects_from(items, f, role, 0, Seq::empty()),
        _ => Err(decode::expected_kind(f, "an array"@)),
    }
}

pub open spec fn objects_result<F: FactoryKind>(r: Result<Vec<ObjectSpec<F>>, ScientificDiagnostic>) -> Result<
    Seq<SObject>,
    DiagnosticView,
> {
    match r {
        Ok(p) => Ok(config::objects_view(p@)),
        Err(d) => Err(d@),
    }
}

pub fn endpoint_array_exec(v: &Value, f: &str, source: bool) -> (r: Result<
    Vec<ObjectSpec<EndpointFactory>>,
    ScientificDiagnostic,
>)
    ensures
        objects_result(r) == object_array(
            v@,
            f@,
            if source { ObjectRole::Source } else { ObjectRole::Sink },
        ),
{
    proof {
        crate::spa_json::lemma_value_view(*v);
    }
    let ghost role = if source { ObjectRole::Source } else { ObjectRole::Sink };
    match v {
        Value::Array(items) => {
            let ghost iv = crate::spa_json::items_view(items@);
            let mut out: Vec<ObjectSpec<EndpointFactory>> = Vec::new();
            let mut k: usize = 0;
            assert(config::objects_view(out@) =~= Seq::<SObject>::empty());
            while k < items.len()
                invariant
                    k <= items.len(),
                    iv == crate::spa_json::items_view(items@),
                    role == (if source { ObjectRole::Source } else { ObjectRole::Sink }),
                    object_array(v@, f@, role) == objects_from(iv, f@, role, 0, Seq::empty()),
                    objects_from(iv, f@, role, k as int, config::objects_view(out@))
                        == objects_from(iv, f@, role, 0, Seq::empty()),
                decreases items.len() - k,
            {
                let name = field_index(f, k);
                let o = endpoint_exec(&items[k], name.as_str(), source)?;
                let ghost before = config::objects_view(out@);
                let ghost ov = o@;
                out.push(o);
                assert(config::objects_view(out@) =~= before.push(ov));
                k = k + 1;
            }
            Ok(out)
        },
        _ => Err(expected_kind_diag(f, "an array")),
    }
}

pub fn graph_array_exec(v: &Value, f: &str) -> (r: Result<
    Vec<ObjectSpec<GraphFactory>>,
    ScientificDiagnostic,
>)
    ensures
        objects_result(r) == object_array(v@, f@, ObjectRole::Graph),
{
    proof {
        crate::spa_json::lemma_value_view(*v);
    }
    match v {
        Value::Array(items) => {
            let ghost iv = crate::spa_json::items_view(items@);
            let mut out: Vec<ObjectSpec<GraphFactory>> = Vec::new();
            let mut k: usize = 0;
            assert(config::objects_view(out@) =~= Seq::<SObject>::empty());
            while k < items.len()
                invariant
                    k <= items.len(),
                    iv == crate::spa_json::items_view(items@),
                    object_array(v@, f@, ObjectRole::Graph) == objects_from(
                        iv,
                        f@,
                        ObjectRole::Graph,
                        0,
                        Seq::empty(),
                    ),
                    objects_from(iv, f@, ObjectRole::Graph, k as int, config::objects_view(out@))
                        == objects_from(iv, f@, ObjectRole::Graph, 0, Seq::empty()),
                decreases items.len() - k,
            {
                let name = field_index(f, k);
                let o = graph_exec(&items[k], name.as_str())?;
                let ghost before = config::objects_view(out@);
                let ghost ov = o@;
                out.push(o);
                assert(config::objects_view(out@) =~= before.push(ov));
                k = k + 1;
            }
            Ok(out)
        },
        _ => Err(expected_kind_diag(f, "an array")),
    }
}

// ----- Links -----

pub open spec fn link_keys() -> Seq<Seq<char>> {
    seq!["output"@, "input"@, "passive"@]
}

pub open spec fn passive_flag(s: Seq<char>, f: Seq<char>) -> Result<bool, DiagnosticView> {
    if s == "true"@ {
        Ok(true)
    } else if s == "false"@ {
        Ok(false)
    } else {
        Err(crate::diagnostic::diag(f, "passive must be true or false, got "@ + decode::quoted(s)))
    }
}

pub open spec fn link_fields(e: Seq<(Seq<char>, SVal)>, f: Seq<char>) -> Result<SLink, DiagnosticView> {
    match req_scalar(decode::lookup(e, "output"@), decode::dot(f, "output"@)) {
        Err(d) => Err(d),
        Ok(output) => match req_scalar(decode::lookup(e, "input"@), decode::dot(f, "input"@)) {
            Err(d) => Err(d),
            Ok(input) => match req_scalar(
                decode::lookup(e, "passive"@),
                decode::dot(f, "passive"@),
            ) {
                Err(d) => Err(d),
                Ok(p) => match passive_flag(p, decode::dot(f, "passive"@)) {
                    Err(d) => Err(d),
                    Ok(passive) => Ok(SLink { output, input, passive }),
                },
            },
        },
    }
}

/// A declared link.
pub open spec fn link(v: SVal, f: Seq<char>) -> Result<SLink, DiagnosticView> {
    match v {
        SVal::Object(e) => match decode::entry_error(e, link_keys(), false, f, 0) {
            Some(d) => Err(d),
            None => link_fields(e, f),
        },
        _ => Err(decode::expected_kind(f, "an object"@)),
    }
}

pub open spec fn links_from(items: Seq<SVal>, f: Seq<char>, k: int, acc: Seq<SLink>) -> Result<
    Seq<SLink>,
    DiagnosticView,
>
    decreases items.len() - k,
{
    if k < 0 || k >= items.len() {
        Ok(acc)
    } else {
        match link(items[k], decode::indexed(f, k as nat)) {
            Err(d) => Err(d),
            Ok(l) => links_from(items, f, k + 1, acc.push(l)),
        }
    }
}

/// The declared links.
pub open spec fn link_array(v: SVal, f: Seq<char>) -> Result<Seq<SLink>, DiagnosticView> {
    match v {
        SVal::Array(items) => links_from(items, f, 0, Seq::empty()),
        _ => Err(decode::expected_kind(f, "an array"@)),
    }
}

fn link_exec(v: &Value, f: &str) -> (r: Result<LinkSpec, ScientificDiagnostic>)
    ensures
        match r {
            Ok(l) => link(v@, f@) == Ok::<SLink, DiagnosticView>(l@),
            Err(d) => link(v@, f@) == Err::<SLink, DiagnosticView>(d@),
        },
{
    proof {
        crate::spa_json::lemma_value_view(*v);
    }
    match v {
        Value::Object(e) => {
            let keys = vec!["output", "input", "passive"];
            assert(keys@.map_values(|s: &str| s@) =~= link_keys());
            check_entries(e, &keys, false, f)?;
            let output_field = field_dot(f, "output");
            let output = req_scalar_exec(lookup_exec(e, "output"), output_field.as_str())?;
            let input_field = field_dot(f, "input");
            let input = req_scalar_exec(lookup_exec(e, "input"), input_field.as_str())?;
            let passive_field = field_dot(f, "passive");
            let p = req_scalar_exec(lookup_exec(e, "passive"), passive_field.as_str())?;
            let passive = if is_text(&p, "true") {
                true
            } else if is_text(&p, "false") {
                false
            } else {
                let q = quoted_text(p.as_str());
                return Err(ScientificDiagnostic::from_parts(passive_field, concat2("passive must be true or false, got ", q.as_str())));
            };
            Ok(LinkSpec { output, input, passive })
        },
        _ => Err(expected_kind_diag(f, "an object")),
    }
}

pub fn link_array_exec(v: &Value, f: &str) -> (r: Result<Vec<LinkSpec>, ScientificDiagnostic>)
    ensures
        match r {
            Ok(l) => link_array(v@, f@) == Ok::<Seq<SLink>, DiagnosticView>(config::links_view(l@)),
            Err(d) => link_array(v@, f@) == Err::<Seq<SLink>, DiagnosticView>(d@),
        },
{
    proof {
        crate::spa_json::lemma_value_view(*v);
    }
    match v {
        Value::Array(items) => {
            let ghost iv = crate::spa_json::items_view(items@);
            let mut out: Vec<LinkSpec> = Vec::new();
            let mut k: usize = 0;
            assert(config::links_view(out@) =~= Seq::<SLink>::empty());
            while k < items.len()
                invariant
                    k <= items.len(),
                    iv == crate::spa_json::items_view(items@),
                    link_array(v@, f@) == links_from(iv, f@, 0, Seq::empty()),
                    links_from(iv, f@, k as int, config::links_view(out@)) == links_from(
                        iv,
                        f@,
                        0,
                        Seq::empty(),
                    ),
                decreases items.len() - k,
            {
                let name = field_index(f, k);
                let l = link_exec(&items[k], name.as_str())?;
                let ghost before = config::links_view(out@);
                let ghost lv = l@;
                out.push(l);
                assert(config::links_view(out@) =~= before.push(lv));
                k = k + 1;
            }
            Ok(out)
        },
        _ => Err(expected_kind_diag(f, "an array")),
    }
}

// ----- Execution groups -----

pub open spec fn group_keys() -> Seq<Seq<char>> {
    seq!["name"@, "nodes"@]
}

pub open spec fn group(v: SVal, f: Seq<char>) -> Result<SGroup, DiagnosticView> {
    match v {
        SVal::Object(e) => match decode::entry_error(e, group_keys(), false, f, 0) {
            Some(d) => Err(d),
            None => match req_scalar(decode::lookup(e, "name"@), decode::dot(f, "name"@)) {
                Err(d) => Err(d),
                Ok(name) => match decode::lookup(e, "nodes"@) {
                    None => Err(decode::missing(decode::dot(f, "nodes"@))),
                    Some(nv) => match decode::string_array(nv, decode::dot(f, "nodes"@)) {
                        Err(d) => Err(d),
                        Ok(nodes) => Ok(SGroup { name, nodes }),
                    },
                },
            },
        },
        _ => Err(decode::expected_kind(f, "an object"@)),
    }
}

pub open spec fn groups_from(items: Seq<SVal>, f: Seq<char>, k: int, acc: Seq<SGroup>) -> Result<
    Seq<SGroup>,
    DiagnosticView,
>
    decreases items.len() - k,
{
    if k < 0 || k >= items.len() {
        Ok(acc)
    } else {
        match group(items[k], decode::indexed(f, k as nat)) {
            Err(d) => Err(d),
            Ok(g) => groups_from(items, f, k + 1, acc.push(g)),
        }
    }
}

/// The declared execution groups.
pub open spec fn group_array(v: SVal, f: Seq<char>) -> Result<Seq<SGroup>, DiagnosticView> {
    match v {
        SVal::Array(items) => groups_from(items, f, 0, Seq::empty()),
        _ => Err(decode::expected_kind(f, "an array"@)),
    }
}

fn group_exec(v: &Value, f: &str) -> (r: Result<ExecutionGroupSpec, ScientificDiagnostic>)
    ensures
        match r {
            Ok(g) => group(v@, f@) == Ok::<SGroup, DiagnosticView>(g@),
            Err(d) => group(v@, f@) == Err::<SGroup, DiagnosticView>(d@),
        },
{
    proof {
        crate::spa_json::lemma_value_view(*v);
    }
    match v {
        Value::Object(e) => {
            let keys = vec!["name", "nodes"];
            assert(keys@.map_values(|s: &str| s@) =~= group_keys());
            check_entries(e, &keys, false, f)?;
            let name_field = field_dot(f, "name");
            let name = req_scalar_exec(lookup_exec(e, "name"), name_field.as_str())?;
            let nodes_field = field_dot(f, "nodes");
            let nodes = match lookup_exec(e, "nodes") {
                None => {
                    return Err(ScientificDiagnostic::from_parts(nodes_field, owned("required field is missing")));
                },
                Some(nv) => string_array_exec(nv, nodes_field.as_str())?,
            };
            Ok(ExecutionGroupSpec { name, nodes })
        },
        _ => Err(expected_kind_diag(f, "an object")),
    }
}

pub fn group_array_exec(v: &Value, f: &str) -> (r: Result<
    Vec<ExecutionGroupSpec>,
    ScientificDiagnostic,
>)
    ensures
        match r {
            Ok(g) => group_array(v@, f@) == Ok::<Seq<SGroup>, DiagnosticView>(
                config::groups_view(g@),
            ),
            Err(d) => group_array(v@, f@) == Err::<Seq<SGroup>, DiagnosticView>(d@),
        },
{
    proof {
        crate::spa_json::lemma_value_view(*v);
    }
    match v {
        Value::Array(items) => {
            let ghost iv = crate::spa_json::items_view(items@);
            let mut out: Vec<ExecutionGroupSpec> = Vec::new();
            let mut k: usize = 0;
            assert(config::groups_view(out@) =~= Seq::<SGroup>::empty());
            while k < items.len()
                invariant
                    k <= items.len(),
                    iv == crate::spa_json::items_view(items@),
                    group_array(v@, f@) == groups_from(iv, f@, 0, Seq::empty()),
                    groups_from(iv, f@, k as int, config::groups_view(out@)) == groups_from(
                        iv,
                        f@,
                        0,
                        Seq::empty(),
                    ),
                decreases items.len() - k,
            {
                let name = field_index(f, k);
                let g = group_exec(&items[k], name.as_str())?;
                let ghost before = config::groups_view(out@);
                let ghost gv = g@;
                out.push(g);
                assert(config::groups_view(out@) =~= before.push(gv));
                k = k + 1;
            }
            Ok(out)
        },
        _ => Err(expected_kind_diag(f, "an array")),
    }
}


// ----- The configuration document -----

pub open spec fn root_keys() -> Seq<Seq<char>> {
    seq![
        "profile"@,
        "execution"@,
        "authority"@,
        "claim"@,
        "sources"@,
        "graphs"@,
        "sinks"@,
        "properties"@,
        "parameters"@,
        "observations"@,
        "links"@,
        "execution-groups"@,
    ]
}

/// The problem with a root entry that must hold one literal scalar, if any.
pub open spec fn literal_error(e: Seq<(Seq<char>, SVal)>, key: Seq<char>, expected: Seq<char>) -> Option<
    DiagnosticView,
> {
    match decode::lookup(e, key) {
        None => Some(decode::missing(key)),
        Some(v) => match decode::scalar(v, key) {
            Err(d) => Some(d),
            Ok(s) => if s == expected {
                None
            } else {
                Some(
                    crate::diagnostic::diag(
                        key,
                        "expected "@ + decode::quoted(expected) + ", got "@ + decode::quoted(s),
                    ),
                )
            },
        },
    }
}

/// A required root entry.
pub open spec fn required(e: Seq<(Seq<char>, SVal)>, key: Seq<char>) -> Result<SVal, DiagnosticView> {
    match decode::lookup(e, key) {
        None => Err(decode::missing(key)),
        Some(v) => Ok(v),
    }
}

/// The session that the root entries declare, before validation.
pub open spec fn config_fields(e: Seq<(Seq<char>, SVal)>) -> Result<config::SConfig, DiagnosticView> {
    if literal_error(e, "profile"@, "development"@) is Some {
        Err(literal_error(e, "profile"@, "development"@)->0)
    } else if literal_error(e, "execution"@, "complete-frame"@) is Some {
        Err(literal_error(e, "execution"@, "complete-frame"@)->0)
    } else if literal_error(e, "authority"@, "none"@) is Some {
        Err(literal_error(e, "authority"@, "none"@)->0)
    } else if literal_error(e, "claim"@, "development-characterization"@) is Some {
        Err(literal_error(e, "claim"@, "development-characterization"@)->0)
    } else {
        match required(e, "sources"@) {
            Err(d) => Err(d),
            Ok(sv) => match object_array(sv, "sources"@, ObjectRole::Source) {
                Err(d) => Err(d),
                Ok(sources) => match required(e, "graphs"@) {
                    Err(d) => Err(d),
                    Ok(gv) => match object_array(gv, "graphs"@, ObjectRole::Graph) {
                        Err(d) => Err(d),
                        Ok(graphs) => match required(e, "sinks"@) {
                            Err(d) => Err(d),
                            Ok(kv) => match object_array(kv, "sinks"@, ObjectRole::Sink) {
                                Err(d) => Err(d),
                                Ok(sinks) => config_rest(e, sources, graphs, sinks),
                            },
                        },
                    },
                },
            },
        }
    }
}

/// The maps, observations, links and groups that follow the objects.
pub open spec fn config_rest(
    e: Seq<(Seq<char>, SVal)>,
    sources: Seq<SObject>,
    graphs: Seq<SObject>,
    sinks: Seq<SObject>,
) -> Result<config::SConfig, DiagnosticView> {
    match required(e, "properties"@) {
        Err(d) => Err(d),
        Ok(pv) => match decode::string_map(pv, "properties"@) {
            Err(d) => Err(d),
            Ok(properties) => match required(e, "parameters"@) {
                Err(d) => Err(d),
                Ok(av) => match decode::string_map(av, "parameters"@) {
                    Err(d) => Err(d),
                    Ok(parameters) => match required(e, "observations"@) {
                        Err(d) => Err(d),
                        Ok(ov) => match decode::string_array(ov, "observations"@) {
                            Err(d) => Err(d),
                            Ok(observations) => match required(e, "links"@) {
                                Err(d) => Err(d),
                                Ok(lv) => match link_array(lv, "links"@) {
                                    Err(d) => Err(d),
                                    Ok(links) => match required(e, "execution-groups"@) {
                                        Err(d) => Err(d),
                                        Ok(xv) => match group_array(xv, "execution-groups"@) {
                                            Err(d) => Err(d),
                                            Ok(groups) => Ok(
                                                config::SConfig {
                                                    sources,
                                                    graphs,
                                                    sinks,
                                                    properties,
                                                    parameters,
                                                    observations,
                                                    links,
                                                    groups,
                                                },
                                            ),
                                        },
                                    },
                                },
                            },
                        },
                    },
                },
            },
        },
    }
}

/// The session that a relaxed SPA-JSON document declares, before validation.
pub open spec fn configuration(text: Seq<char>) -> Result<config::SConfig, DiagnosticView> {
    match crate::spa_json::document_result(text) {
        Err(d) => Err(d),
        Ok(SVal::Object(e)) => match decode::entry_error(e, root_keys(), true, "configuration"@, 0) {
            Some(d) => Err(d),
            None => config_fields(e),
        },
        Ok(_) => Err(decode::expected_kind("configuration"@, "an object"@)),
    }
}

pub open spec fn config_result(r: Result<config::DevelopmentConfig, ScientificDiagnostic>) -> Result<
    config::SConfig,
    DiagnosticView,
> {
    match r {
        Ok(c) => Ok(c@),
        Err(d) => Err(d@),
    }
}

fn literal_exec(e: &Vec<(String, Value)>, key: &str, expected: &str) -> (r: Result<(), ScientificDiagnostic>)
    ensures
        match literal_error(crate::spa_json::entries_view(e@), key@, expected@) {
            None => r is Ok,
            Some(d) => r matches Err(x) && x@ == d,
        },
{
    match lookup_exec(e, key) {
        None => Err(ScientificDiagnostic::from_parts(owned(key), owned("required field is missing"))),
        Some(v) => {
            let s = scalar_exec(v, key)?;
            if is_text(&s, expected) {
                Ok(())
            } else {
                let qe = quoted_text(expected);
                let qs = quoted_text(s.as_str());
                let mut message = concat2("expected ", qe.as_str());
                message.append(", got ");
                message.append(qs.as_str());
                Err(ScientificDiagnostic::from_parts(owned(key), message))
            }
        },
    }
}

fn required_exec<'a>(e: &'a Vec<(String, Value)>, key: &str) -> (r: Result<&'a Value, ScientificDiagnostic>)
    ensures
        match r {
            Ok(v) => required(crate::spa_json::entries_view(e@), key@) == Ok::<SVal, DiagnosticView>(v@),
            Err(d) => required(crate::spa_json::entries_view(e@), key@) == Err::<SVal, DiagnosticView>(d@),
        },
{
    match lookup_exec(e, key) {
        None => Err(ScientificDiagnostic::from_parts(owned(key), owned("required field is missing"))),
        Some(v) => Ok(v),
    }
}

/// Decodes the session that a relaxed SPA-JSON document declares, without validating it.
pub fn development_config(text: &str) -> (r: Result<config::DevelopmentConfig, ScientificDiagnostic>)
    ensures
        config_result(r) == configuration(text@),
{
    let root = crate::spa_json::parse_document(text)?;
    proof {
        crate::spa_json::lemma_value_view(root);
    }
    match &root {
        Value::Object(e) => {
            let keys = vec![
                "profile",
                "execution",
                "authority",
                "claim",
                "sources",
                "graphs",
                "sinks",
                "properties",
                "parameters",
                "observations",
                "links",
                "execution-groups",
            ];
            assert(keys@.map_values(|s: &str| s@) =~= root_keys());
            check_entries(e, &keys, true, "configuration")?;
            literal_exec(e, "profile", "development")?;
            literal_exec(e, "execution", "complete-frame")?;
            literal_exec(e, "authority", "none")?;
            literal_exec(e, "claim", "development-characterization")?;
            let sources = endpoint_array_exec(required_exec(e, "sources")?, "sources", true)?;
            let graphs = graph_array_exec(required_exec(e, "graphs")?, "graphs")?;
            let sinks = endpoint_array_exec(required_exec(e, "sinks")?, "sinks", false)?;
            let properties = string_map_exec(required_exec(e, "properties")?, "properties")?;
            let parameters = string_map_exec(required_exec(e, "parameters")?, "parameters")?;
            let observations = string_array_exec(required_exec(e, "observations")?, "observations")?;
            let links = link_array_exec(required_exec(e, "links")?, "links")?;
            let execution_groups = group_array_exec(required_exec(e, "execution-groups")?, "execution-groups")?;
            Ok(config::DevelopmentConfig {
                sources,
                graphs,
                sinks,
                properties,
                parameters,
                observations,
                links,
                execution_groups,
            })
        },
        _ => Err(expected_kind_diag("configuration", "an object")),
    }
}

} // verus!
