//! Admission of a decoded session: objects, ports, node names and factory arguments.
use vstd::prelude::*;
use vstd::string::*;
use crate::config::{
    EndpointFactory, FactoryKind, GraphFactory, ObjectRealization, ObjectRole, ObjectSpec,
    PortDirection, PortSpec, SObject, SPort, SRealization,
};
use crate::config;
use crate::decode;
use crate::decode::{field_dot, quoted_text};
use crate::diagnostic::{DiagnosticView, ScientificDiagnostic};
use crate::text::{chars_of, concat2, concat3, contains_char, decimal_string, is_text, owned, same_text};

verus! {

broadcast use vstd::string::group_string_axioms;

pub open spec fn diag(f: Seq<char>, m: Seq<char>) -> DiagnosticView {
    crate::diagnostic::diag(f, m)
}

pub open spec fn check_result(r: Result<(), ScientificDiagnostic>) -> Option<DiagnosticView> {
    match r {
        Ok(()) => None,
        Err(d) => Some(d@),
    }
}

pub open spec fn filter_chain_module() -> Seq<char> {
    "libpipewire-module-ndarray-filter-chain"@
}

pub open spec fn spa_node_factory_module() -> Seq<char> {
    "libpipewire-module-spa-node-factory"@
}

// ----- References to modules, artifacts and environment variables -----

/// The module an owned object must load.
pub open spec fn module_error(f: Seq<char>, actual: Option<Seq<char>>, expected: Seq<char>) -> Option<
    DiagnosticView,
> {
    match actual {
        None => Some(decode::missing(decode::dot(f, "module"@))),
        Some(a) => if a == expected {
            None
        } else {
            Some(
                diag(
                    decode::dot(f, "module"@),
                    "expected public PipeWireAO module "@ + decode::quoted(expected) + ", got "@
                        + decode::quoted(a),
                ),
            )
        },
    }
}

pub fn module_check(f: &str, actual: &Option<String>, expected: &str) -> (r: Result<(), ScientificDiagnostic>)
    ensures
        check_result(r) == module_error(f@, config::opt_text(*actual), expected@),
{
    let field = field_dot(f, "module");
    match actual {
        None => Err(ScientificDiagnostic::from_parts(field, owned("required field is missing"))),
        Some(a) => {
            if is_text(a, expected) {
                Ok(())
            } else {
                let qe = quoted_text(expected);
                let qa = quoted_text(a.as_str());
                let mut m = concat3("expected public PipeWireAO module ", qe.as_str(), ", got ");
                m.append(qa.as_str());
                Err(ScientificDiagnostic::from_parts(field, m))
            }
        },
    }
}

/// A reference that must name one maintained build-tree artifact exactly.
pub open spec fn exact_reference_error(
    field: Seq<char>,
    actual: Option<Seq<char>>,
    expected: Seq<char>,
) -> Option<DiagnosticView> {
    match actual {
        None => Some(decode::missing(field)),
        Some(a) => if a == expected {
            None
        } else {
            Some(
                diag(
                    field,
                    "expected maintained build-tree artifact reference "@ + decode::quoted(expected)
                        + ", got "@ + decode::quoted(a),
                ),
            )
        },
    }
}

pub fn exact_reference_check(field: &str, actual: &Option<String>, expected: &str) -> (r: Result<
    (),
    ScientificDiagnostic,
>)
    ensures
        check_result(r) == exact_reference_error(field@, config::opt_text(*actual), expected@),
{
    match actual {
        None => Err(ScientificDiagnostic::from_parts(owned(field), owned("required field is missing"))),
        Some(a) => {
            if is_text(a, expected) {
                Ok(())
            } else {
                let qe = quoted_text(expected);
                let qa = quoted_text(a.as_str());
                let mut m = concat3("expected maintained build-tree artifact reference ", qe.as_str(), ", got ");
                m.append(qa.as_str());
                Err(ScientificDiagnostic::from_parts(owned(field), m))
            }
        },
    }
}

/// Whether `s` is written `${NAME}`.
pub open spec fn is_environment_reference(s: Seq<char>) -> bool {
    s.len() >= 3 && s[0] == '$' && s[1] == '{' && s[s.len() - 1] == '}'
}

pub open spec fn is_variable_char(ch: char) -> bool {
    ('A' <= ch && ch <= 'Z') || ('0' <= ch && ch <= '9') || ch == '_'
}

/// Whether `variable` starts with `prefix` and uses only uppercase ASCII, digits and `_`.
pub open spec fn admitted_variable(variable: Seq<char>, prefix: Seq<char>) -> bool {
    &&& prefix.len() <= variable.len()
    &&& variable.take(prefix.len() as int) == prefix
    &&& forall|i: int| 0 <= i < variable.len() ==> is_variable_char(#[trigger] variable[i])
}

/// A path that must be an explicit development environment reference with a prefix.
pub open spec fn configuration_reference_error(
    field: Seq<char>,
    actual: Option<Seq<char>>,
    prefix: Seq<char>,
) -> Option<DiagnosticView> {
    match actual {
        None => Some(decode::missing(field)),
        Some(a) => if !is_environment_reference(a) {
            Some(diag(field, "path must be an explicit development environment reference"@))
        } else if !admitted_variable(a.subrange(2, a.len() - 1), prefix) {
            Some(
                diag(
                    field,
                    "environment variable must start with "@ + decode::quoted(prefix)
                        + " and use uppercase ASCII"@,
                ),
            )
        } else {
            None
        },
    }
}

fn admitted_variable_exec(c: &Vec<char>, p: &Vec<char>) -> (r: bool)
    requires
        c.len() >= 3,
    ensures
        r == admitted_variable(c@.subrange(2, c.len() - 1), p@),
{
    let ghost v = c@.subrange(2, c.len() - 1);
    let n = c.len() - 3;
    if p.len() > n {
        return false;
    }
    let mut i: usize = 0;
    while i < p.len()
        invariant
            c.len() >= 3,
            n == c.len() - 3,
            v == c@.subrange(2, c.len() - 1),
            p.len() <= n,
            i <= p.len(),
            forall|j: int| 0 <= j < i ==> v[j] == p@[j],
        decreases p.len() - i,
    {
        if c[i + 2] != p[i] {
            assert(v.take(p.len() as int)[i as int] != p@[i as int]);
            return false;
        }
        i = i + 1;
    }
    assert(v.take(p.len() as int) =~= p@);
    let mut k: usize = 0;
    while k < n
        invariant
            c.len() >= 3,
            n == c.len() - 3,
            v == c@.subrange(2, c.len() - 1),
            k <= n,
            forall|j: int| 0 <= j < k ==> is_variable_char(v[j]),
        decreases n - k,
    {
        let ch = c[k + 2];
        if !(('A' <= ch && ch <= 'Z') || ('0' <= ch && ch <= '9') || ch == '_') {
            assert(!is_variable_char(v[k as int]));
            return false;
        }
        k = k + 1;
    }
    true
}

pub fn configuration_reference_check(field: &str, actual: &Option<String>, prefix: &str) -> (r: Result<
    (),
    ScientificDiagnostic,
>)
    ensures
        check_result(r) == configuration_reference_error(
            field@,
            config::opt_text(*actual),
            prefix@,
        ),
{
    match actual {
        None => Err(ScientificDiagnostic::from_parts(owned(field), owned("required field is missing"))),
        Some(a) => {
            let c = chars_of(a.as_str());
            if !(c.len() >= 3 && c[0] == '$' && c[1] == '{' && c[c.len() - 1] == '}') {
                return Err(
                    ScientificDiagnostic::from_parts(
                        owned(field),
                        owned("path must be an explicit development environment reference"),
                    ),
                );
            }
            let p = chars_of(prefix);
            if !admitted_variable_exec(&c, &p) {
                let q = quoted_text(prefix);
                return Err(
                    ScientificDiagnostic::from_parts(
                        owned(field),
                        concat3("environment variable must start with ", q.as_str(), " and use uppercase ASCII"),
                    ),
                );
            }
            Ok(())
        },
    }
}

pub open spec fn plugin_path_rejection(f: Seq<char>, value: Option<Seq<char>>) -> Option<DiagnosticView> {
    if value is None {
        None
    } else {
        Some(
            diag(
                decode::dot(f, "plugin.path"@),
                "delegated filter.graph configuration owns its plugin paths"@,
            ),
        )
    }
}

pub fn reject_plugin_path(f: &str, value: &Option<String>) -> (r: Result<(), ScientificDiagnostic>)
    ensures
        check_result(r) == plugin_path_rejection(f@, config::opt_text(*value)),
{
    if value.is_none() {
        Ok(())
    } else {
        Err(
            ScientificDiagnostic::from_parts(
                field_dot(f, "plugin.path"),
                owned("delegated filter.graph configuration owns its plugin paths"),
            ),
        )
    }
}

pub open spec fn config_path_rejection(f: Seq<char>, value: Option<Seq<char>>) -> Option<DiagnosticView> {
    if value is None {
        None
    } else {
        Some(
            diag(
                decode::dot(f, "config.path"@),
                "this SPA factory does not load a filter.graph configuration"@,
            ),
        )
    }
}

pub fn reject_configuration_path(f: &str, value: &Option<String>) -> (r: Result<
    (),
    ScientificDiagnostic,
>)
    ensures
        check_result(r) == config_path_rejection(f@, config::opt_text(*value)),
{
    if value.is_none() {
        Ok(())
    } else {
        Err(
            ScientificDiagnostic::from_parts(
                field_dot(f, "config.path"),
                owned("this SPA factory does not load a filter.graph configuration"),
            ),
        )
    }
}


// ----- Ports -----

pub open spec fn direction_name(d: PortDirection) -> Seq<char> {
    match d {
        PortDirection::Input => "Input"@,
        PortDirection::Output => "Output"@,
    }
}

fn direction_name_exec(d: PortDirection) -> (r: &'static str)
    ensures
        r@ == direction_name(d),
{
    match d {
        PortDirection::Input => "Input",
        PortDirection::Output => "Output",
    }
}

pub open spec fn positive_shape(shape: Seq<u32>) -> bool {
    shape.len() > 0 && forall|i: int| 0 <= i < shape.len() ==> #[trigger] shape[i] > 0
}

pub open spec fn port_field(f: Seq<char>, name: Seq<char>) -> Seq<char> {
    f + ".ports."@ + name
}

/// The problem with port `k` of an object, which must have direction `dirs[k]`.
pub open spec fn port_error(f: Seq<char>, ports: Seq<SPort>, dirs: Seq<PortDirection>, k: int) -> Option<
    DiagnosticView,
> {
    let p = ports[k];
    let pf = port_field(f, p.name);
    if p.name.len() == 0 || exists|j: int| 0 <= j < k && ports[j].name == p.name {
        Some(diag(decode::dot(pf, "name"@), "port name must be non-empty and unique on its node"@))
    } else if p.direction != dirs[k] {
        Some(
            diag(
                decode::dot(pf, "direction"@),
                "expected "@ + direction_name(dirs[k]) + ", got "@ + direction_name(p.direction),
            ),
        )
    } else if p.element_type != "F32_LE"@ {
        Some(
            diag(
                decode::dot(pf, "element-type"@),
                "expected F32_LE, got "@ + decode::quoted(p.element_type),
            ),
        )
    } else if !positive_shape(p.shape) {
        Some(diag(decode::dot(pf, "shape"@), "shape must list at least one positive extent"@))
    } else if p.schema.len() == 0 {
        Some(diag(decode::dot(pf, "schema"@), "scientific schema must not be empty"@))
    } else {
        None
    }
}

pub open spec fn ports_error_from(f: Seq<char>, ports: Seq<SPort>, dirs: Seq<PortDirection>, k: int) -> Option<
    DiagnosticView,
>
    decreases ports.len() - k,
{
    if k < 0 || k >= ports.len() {
        None
    } else if port_error(f, ports, dirs, k) is Some {
        port_error(f, ports, dirs, k)
    } else {
        ports_error_from(f, ports, dirs, k + 1)
    }
}

/// The first problem with an object's ports, which must have exactly the directions `dirs`.
pub open spec fn ports_error(f: Seq<char>, ports: Seq<SPort>, dirs: Seq<PortDirection>) -> Option<
    DiagnosticView,
> {
    if ports.len() != dirs.len() {
        Some(
            diag(
                decode::dot(f, "ports"@),
                "expected "@ + crate::text::decimal(dirs.len()) + " declared scientific port(s), got "@
                    + crate::text::decimal(ports.len()),
            ),
        )
    } else {
        ports_error_from(f, ports, dirs, 0)
    }
}

fn port_name_repeated(ports: &Vec<PortSpec>, k: usize) -> (r: bool)
    requires
        k < ports.len(),
    ensures
        r == exists|j: int| 0 <= j < k && ports@[j]@.name == ports@[k as int]@.name,
{
    let mut j: usize = 0;
    while j < k
        invariant
            k < ports.len(),
            j <= k,
            forall|i: int| 0 <= i < j ==> ports@[i]@.name != ports@[k as int]@.name,
        decreases k - j,
    {
        if same_text(&ports[j].name, &ports[k].name) {
            return true;
        }
        j = j + 1;
    }
    false
}

fn positive_shape_exec(shape: &Vec<u32>) -> (r: bool)
    ensures
        r == positive_shape(shape@),
{
    if shape.len() == 0 {
        return false;
    }
    let mut i: usize = 0;
    while i < shape.len()
        invariant
            i <= shape.len(),
            forall|j: int| 0 <= j < i ==> shape@[j] > 0,
        decreases shape.len() - i,
    {
        if shape[i] == 0 {
            return false;
        }
        i = i + 1;
    }
    true
}

fn port_check(f: &str, ports: &Vec<PortSpec>, dirs: &Vec<PortDirection>, k: usize) -> (r: Result<
    (),
    ScientificDiagnostic,
>)
    requires
        k < ports.len(),
        ports.len() == dirs.len(),
    ensures
        check_result(r) == port_error(f@, config::ports_view(ports@), dirs@, k as int),
{
    let ghost pv = config::ports_view(ports@);
    assert(pv[k as int] == ports@[k as int]@);
    assert(forall|j: int| 0 <= j < k ==> pv[j] == ports@[j]@);
    let p = &ports[k];
    let pf = concat3(f, ".ports.", p.name.as_str());
    if p.name.as_str().is_empty() || port_name_repeated(ports, k) {
        proof {
            if p.name@.len() != 0 {
                let j = choose|j: int| 0 <= j < k && ports@[j]@.name == ports@[k as int]@.name;
                assert(pv[j].name == pv[k as int].name);
            }
        }
        return Err(ScientificDiagnostic::from_parts(field_dot(pf.as_str(), "name"), owned("port name must be non-empty and unique on its node")));
    }
    assert(!exists|j: int| 0 <= j < k && pv[j].name == pv[k as int].name);
    if p.direction != dirs[k] {
        let mut m = concat3("expected ", direction_name_exec(dirs[k]), ", got ");
        m.append(direction_name_exec(p.direction));
        return Err(ScientificDiagnostic::from_parts(field_dot(pf.as_str(), "direction"), m));
    }
    if !is_text(&p.element_type, "F32_LE") {
        let q = quoted_text(p.element_type.as_str());
        return Err(ScientificDiagnostic::from_parts(field_dot(pf.as_str(), "element-type"), concat2("expected F32_LE, got ", q.as_str())));
    }
    if !positive_shape_exec(&p.shape) {
        return Err(ScientificDiagnostic::from_parts(field_dot(pf.as_str(), "shape"), owned("shape must list at least one positive extent")));
    }
    if p.schema.as_str().is_empty() {
        return Err(ScientificDiagnostic::from_parts(field_dot(pf.as_str(), "schema"), owned("scientific schema must not be empty")));
    }
    Ok(())
}

pub fn ports_check(f: &str, ports: &Vec<PortSpec>, dirs: &Vec<PortDirection>) -> (r: Result<
    (),
    ScientificDiagnostic,
>)
    ensures
        check_result(r) == ports_error(f@, config::ports_view(ports@), dirs@),
{
    if ports.len() != dirs.len() {
        let expected = decimal_string(dirs.len());
        let got = decimal_string(ports.len());
        let mut m = concat3("expected ", expected.as_str(), " declared scientific port(s), got ");
        m.append(got.as_str());
        return Err(ScientificDiagnostic::from_parts(field_dot(f, "ports"), m));
    }
    let ghost pv = config::ports_view(ports@);
    let mut k: usize = 0;
    while k < ports.len()
        invariant
            k <= ports.len(),
            ports.len() == dirs.len(),
            pv == config::ports_view(ports@),
            ports_error(f@, pv, dirs@) == ports_error_from(f@, pv, dirs@, k as int),
        decreases ports.len() - k,
    {
        port_check(f, ports, dirs, k)?;
        k = k + 1;
    }
    Ok(())
}


// ----- Factory arguments of the FITS source -----

pub open spec fn fits_expected(schema: Seq<char>) -> Seq<(Seq<char>, Seq<char>)> {
    seq![
        ("api.fits.hdu"@, "1"@),
        ("api.fits.io-mode"@, "file"@),
        ("api.fits.loop"@, "true"@),
        ("api.fits.output-mode"@, "frame"@),
        ("api.fits.prefault"@, "false"@),
        ("api.fits.rate"@, "1000/1"@),
        ("api.fits.readiness"@, "timerfd"@),
        ("api.fits.sample-rank"@, "1"@),
        ("api.fits.schema"@, schema),
    ]
}

/// Whether a FITS factory argument name is admitted.
pub open spec fn fits_admitted(name: Seq<char>) -> bool {
    name == "api.fits.path"@ || exists|i: int|
        0 <= i < fits_expected(Seq::empty()).len() && #[trigger] fits_expected(Seq::empty())[i].0
            == name
}

pub open spec fn args_field(f: Seq<char>, name: Seq<char>) -> Seq<char> {
    f + ".args."@ + name
}

/// The first key, at position `j` or later, that an earlier argument already names.
pub open spec fn first_repeated_key(args: Seq<(Seq<char>, Seq<char>)>, j: int) -> Option<Seq<char>>
    decreases args.len() - j,
{
    if j < 0 || j >= args.len() {
        None
    } else if exists|i: int| 0 <= i < j && #[trigger] args[i].0 == args[j].0 {
        Some(args[j].0)
    } else {
        first_repeated_key(args, j + 1)
    }
}

/// Whether no two entries of a map name the same key.
pub open spec fn keys_distinct(args: Seq<(Seq<char>, Seq<char>)>) -> bool {
    forall|i: int, j: int| 0 <= i < j < args.len() ==> args[i].0 != args[j].0
}

/// Whether `a` comes before `b` in the order of their characters, compared from position
/// `k` on (a proper prefix comes first).
pub open spec fn text_less_from(a: Seq<char>, b: Seq<char>, k: int) -> bool
    decreases a.len() - k,
{
    if k < 0 {
        false
    } else if k >= a.len() {
        k < b.len()
    } else if k >= b.len() {
        false
    } else if a[k] != b[k] {
        (a[k] as u32) < (b[k] as u32)
    } else {
        text_less_from(a, b, k + 1)
    }
}

/// Whether `a` sorts before `b`, as keys of an ordered map of strings do.
pub open spec fn text_less(a: Seq<char>, b: Seq<char>) -> bool {
    text_less_from(a, b, 0)
}

/// The least name, in key order, of the arguments from `i` on that are not admitted.
pub open spec fn least_unadmitted(args: Seq<(Seq<char>, Seq<char>)>, i: int) -> Option<Seq<char>>
    decreases args.len() - i,
{
    if i < 0 || i >= args.len() {
        None
    } else {
        let rest = least_unadmitted(args, i + 1);
        if fits_admitted(args[i].0) {
            rest
        } else {
            match rest {
                Some(r) => if text_less(r, args[i].0) {
                    Some(r)
                } else {
                    Some(args[i].0)
                },
                None => Some(args[i].0),
            }
        }
    }
}

/// The value of the first argument named `name`, from `i` on.
pub open spec fn arg_lookup_from(args: Seq<(Seq<char>, Seq<char>)>, name: Seq<char>, i: int) -> Option<
    Seq<char>,
>
    decreases args.len() - i,
{
    if i < 0 || i >= args.len() {
        None
    } else if args[i].0 == name {
        Some(args[i].1)
    } else {
        arg_lookup_from(args, name, i + 1)
    }
}

pub open spec fn arg_lookup(args: Seq<(Seq<char>, Seq<char>)>, name: Seq<char>) -> Option<Seq<char>> {
    arg_lookup_from(args, name, 0)
}

pub open spec fn expected_args_error_from(
    args: Seq<(Seq<char>, Seq<char>)>,
    expected: Seq<(Seq<char>, Seq<char>)>,
    f: Seq<char>,
    k: int,
) -> Option<DiagnosticView>
    decreases expected.len() - k,
{
    if k < 0 || k >= expected.len() {
        None
    } else {
        match arg_lookup(args, expected[k].0) {
            None => Some(
                diag(args_field(f, expected[k].0), "required factory argument is missing"@),
            ),
            Some(v) => if v == expected[k].1 {
                expected_args_error_from(args, expected, f, k + 1)
            } else {
                Some(
                    diag(
                        args_field(f, expected[k].0),
                        "expected "@ + decode::quoted(expected[k].1) + ", got "@ + decode::quoted(v),
                    ),
                )
            },
        }
    }
}

/// The first problem with the arguments of a FITS source whose port has `schema`.
pub open spec fn fits_args_error(args: Seq<(Seq<char>, Seq<char>)>, schema: Seq<char>, f: Seq<char>) -> Option<
    DiagnosticView,
> {
    match first_repeated_key(args, 0) {
        Some(name) => Some(diag(args_field(f, name), "field is duplicated"@)),
        None => fits_args_error_after_keys(args, schema, f),
    }
}

/// The first problem with the arguments of a FITS source whose keys are distinct.
pub open spec fn fits_args_error_after_keys(args: Seq<(Seq<char>, Seq<char>)>, schema: Seq<char>, f: Seq<char>) -> Option<
    DiagnosticView,
> {
    match least_unadmitted(args, 0) {
        Some(name) => Some(
            diag(args_field(f, name), "factory argument is not admitted for this fixture"@),
        ),
        None => if expected_args_error_from(args, fits_expected(schema), f, 0) is Some {
            expected_args_error_from(args, fits_expected(schema), f, 0)
        } else {
            configuration_reference_error(
                args_field(f, "api.fits.path"@),
                arg_lookup(args, "api.fits.path"@),
                "PIPEWIREAO_RTC_FITS_PATH"@,
            )
        },
    }
}

fn fits_expected_exec(schema: &str) -> (r: Vec<(&str, &str)>)
    ensures
        r@.map_values(|p: (&str, &str)| (p.0@, p.1@)) == fits_expected(schema@),
{
    let r = vec![
        ("api.fits.hdu", "1"),
        ("api.fits.io-mode", "file"),
        ("api.fits.loop", "true"),
        ("api.fits.output-mode", "frame"),
        ("api.fits.prefault", "false"),
        ("api.fits.rate", "1000/1"),
        ("api.fits.readiness", "timerfd"),
        ("api.fits.sample-rank", "1"),
        ("api.fits.schema", schema),
    ];
    assert(r@.map_values(|p: (&str, &str)| (p.0@, p.1@)) =~= fits_expected(schema@));
    r
}

fn fits_admitted_exec(name: &String) -> (r: bool)
    ensures
        r == fits_admitted(name@),
{
    if is_text(name, "api.fits.path") {
        return true;
    }
    let expected = fits_expected_exec("");
    let ghost ev = expected@.map_values(|p: (&str, &str)| (p.0@, p.1@));
    assert(ev == fits_expected(""@));
    assert(""@ == Seq::<char>::empty()) by {
        reveal_strlit("");
    }
    let mut i: usize = 0;
    while i < expected.len()
        invariant
            i <= expected.len(),
            ev == expected@.map_values(|p: (&str, &str)| (p.0@, p.1@)),
            ev == fits_expected(Seq::empty()),
            forall|j: int| 0 <= j < i ==> ev[j].0 != name@,
        decreases expected.len() - i,
    {
        if is_text(name, expected[i].0) {
            assert(ev[i as int].0 == name@);
            return true;
        }
        i = i + 1;
    }
    false
}

fn arg_lookup_exec<'a>(args: &'a Vec<(String, String)>, name: &str) -> (r: Option<&'a String>)
    ensures
        match arg_lookup(config::pairs_view(args@), name@) {
            None => r is None,
            Some(v) => r matches Some(x) && x@ == v,
        },
{
    let ghost av = config::pairs_view(args@);
    let mut i: usize = 0;
    while i < args.len()
        invariant
            i <= args.len(),
            av == config::pairs_view(args@),
            arg_lookup_from(av, name@, i as int) == arg_lookup(av, name@),
        decreases args.len() - i,
    {
        if is_text(&args[i].0, name) {
            return Some(&args[i].1);
        }
        i = i + 1;
    }
    None
}

/// Decides whether `a` sorts before `b` as keys of an ordered map of strings.
pub fn text_less_exec(a: &str, b: &str) -> (r: bool)
    ensures
        r == text_less(a@, b@),
{
    let x = chars_of(a);
    let y = chars_of(b);
    let mut k: usize = 0;
    while k < x.len() && k < y.len()
        invariant
            x@ == a@,
            y@ == b@,
            k <= x.len(),
            k <= y.len(),
            text_less_from(a@, b@, 0) == text_less_from(a@, b@, k as int),
        decreases x.len() - k,
    {
        if x[k] != y[k] {
            return (x[k] as u32) < (y[k] as u32);
        }
        k = k + 1;
    }
    k == x.len() && k < y.len()
}

pub fn fits_args_check(args: &Vec<(String, String)>, schema: &str, f: &str) -> (r: Result<
    (),
    ScientificDiagnostic,
>)
    ensures
        check_result(r) == fits_args_error(config::pairs_view(args@), schema@, f@),
{
    let ghost av = config::pairs_view(args@);
    let mut j: usize = 0;
    while j < args.len()
        invariant
            j <= args.len(),
            av == config::pairs_view(args@),
            first_repeated_key(av, j as int) == first_repeated_key(av, 0),
        decreases args.len() - j,
    {
        let mut i: usize = 0;
        while i < j
            invariant
                i <= j < args.len(),
                av == config::pairs_view(args@),
                forall|k: int| 0 <= k < i ==> av[k].0 != av[j as int].0,
                first_repeated_key(av, j as int) == first_repeated_key(av, 0),
            decreases j - i,
        {
            if same_text(&args[i].0, &args[j].0) {
                assert(av[i as int].0 == av[j as int].0);
                assert(exists|k: int| 0 <= k < j && #[trigger] av[k].0 == av[j as int].0);
                assert(first_repeated_key(av, j as int) == Some(av[j as int].0));
                assert(args_field(f@, av[j as int].0) == f@ + ".args."@ + args@[j as int].0@);
                return Err(
                    ScientificDiagnostic::from_parts(
                        concat3(f, ".args.", args[j].0.as_str()),
                        owned("field is duplicated"),
                    ),
                );
            }
            i = i + 1;
        }
        j = j + 1;
    }
    let mut i: usize = args.len();
    let mut least: Option<&String> = None;
    while i > 0
        invariant
            i <= args.len(),
            av == config::pairs_view(args@),
            match least_unadmitted(av, i as int) {
                None => least is None,
                Some(n) => least matches Some(x) && x@ == n,
            },
        decreases i,
    {
        i = i - 1;
        if !fits_admitted_exec(&args[i].0) {
            least = match least {
                Some(r) => if text_less_exec(r.as_str(), args[i].0.as_str()) {
                    Some(r)
                } else {
                    Some(&args[i].0)
                },
                None => Some(&args[i].0),
            };
        }
    }
    if let Some(name) = least {
        return Err(
            ScientificDiagnostic::from_parts(
                concat3(f, ".args.", name.as_str()),
                owned("factory argument is not admitted for this fixture"),
            ),
        );
    }
    let expected = fits_expected_exec(schema);
    let ghost ev = expected@.map_values(|p: (&str, &str)| (p.0@, p.1@));
    let mut k: usize = 0;
    while k < expected.len()
        invariant
            k <= expected.len(),
            av == config::pairs_view(args@),
            ev == expected@.map_values(|p: (&str, &str)| (p.0@, p.1@)),
            ev == fits_expected(schema@),
            least_unadmitted(av, 0) is None,
            first_repeated_key(av, 0) is None,
            expected_args_error_from(av, ev, f@, k as int) == expected_args_error_from(
                av,
                ev,
                f@,
                0,
            ),
        decreases expected.len() - k,
    {
        let (name, value) = expected[k];
        assert(ev[k as int] == (name@, value@));
        match arg_lookup_exec(args, name) {
            None => {
                return Err(
                    ScientificDiagnostic::from_parts(
                        concat3(f, ".args.", name),
                        owned("required factory argument is missing"),
                    ),
                );
            },
            Some(v) => {
                if !is_text(v, value) {
                    let qe = quoted_text(value);
                    let qv = quoted_text(v.as_str());
                    let mut m = concat3("expected ", qe.as_str(), ", got ");
                    m.append(qv.as_str());
                    return Err(ScientificDiagnostic::from_parts(concat3(f, ".args.", name), m));
                }
            },
        }
        k = k + 1;
    }
    let path = match arg_lookup_exec(args, "api.fits.path") {
        None => None,
        Some(v) => Some(v.clone()),
    };
    let field = concat3(f, ".args.", "api.fits.path");
    configuration_reference_check(field.as_str(), &path, "PIPEWIREAO_RTC_FITS_PATH")
}


// ----- Objects -----

pub open spec fn role_noun(role: ObjectRole) -> Seq<char> {
    config::role_name(role)
}

pub open spec fn external_message() -> Seq<char> {
    "an externally owned object is selected by its PipeWire contract, not loaded by the runner"@
}

/// The port directions that an externally owned object of `role` with `n` ports must have.
pub open spec fn external_directions(role: ObjectRole, n: nat) -> Seq<PortDirection> {
    match role {
        ObjectRole::Source => Seq::new(n, |i: int| PortDirection::Output),
        ObjectRole::Sink => Seq::new(n, |i: int| PortDirection::Input),
        ObjectRole::Graph => seq![PortDirection::Input, PortDirection::Output],
    }
}

pub open spec fn external_error(role: ObjectRole, o: SObject, f: Seq<char>) -> Option<DiagnosticView> {
    if o.module is Some {
        Some(diag(decode::dot(f, "module"@), external_message()))
    } else if o.plugin_path is Some {
        Some(diag(decode::dot(f, "plugin.path"@), external_message()))
    } else if o.config_path is Some {
        Some(diag(decode::dot(f, "config.path"@), external_message()))
    } else if o.args.len() > 0 {
        Some(diag(decode::dot(f, "args"@), external_message()))
    } else if o.ports.len() == 0 {
        Some(
            diag(
                decode::dot(f, "ports"@),
                "an externally owned object must declare at least one port"@,
            ),
        )
    } else {
        ports_error(f, o.ports, external_directions(role, o.ports.len()))
    }
}

/// The first problem with an owned FITS complete-frame source.
pub open spec fn fits_source_error(o: SObject, f: Seq<char>) -> Option<DiagnosticView> {
    if ports_error(f, o.ports, seq![PortDirection::Output]) is Some {
        ports_error(f, o.ports, seq![PortDirection::Output])
    } else if module_error(f, o.module, spa_node_factory_module()) is Some {
        module_error(f, o.module, spa_node_factory_module())
    } else if exact_reference_error(
        decode::dot(f, "plugin.path"@),
        o.plugin_path,
        "${PIPEWIREAO_FITS_PLUGIN}"@,
    ) is Some {
        exact_reference_error(
            decode::dot(f, "plugin.path"@),
            o.plugin_path,
            "${PIPEWIREAO_FITS_PLUGIN}"@,
        )
    } else if config_path_rejection(f, o.config_path) is Some {
        config_path_rejection(f, o.config_path)
    } else if fits_args_error(o.args, o.ports[0].schema, f) is Some {
        fits_args_error(o.args, o.ports[0].schema, f)
    } else if o.ports[0].shape != seq![2u32] {
        Some(
            diag(
                decode::dot(port_field(f, o.ports[0].name), "shape"@),
                "the FITS complete-frame source emits frames of shape [2]"@,
            ),
        )
    } else {
        None
    }
}

/// The first problem with an owned simulated complete-frame source.
pub open spec fn simulated_source_error(o: SObject, f: Seq<char>) -> Option<DiagnosticView> {
    if ports_error(f, o.ports, seq![PortDirection::Output]) is Some {
        ports_error(f, o.ports, seq![PortDirection::Output])
    } else if module_error(f, o.module, filter_chain_module()) is Some {
        module_error(f, o.module, filter_chain_module())
    } else if plugin_path_rejection(f, o.plugin_path) is Some {
        plugin_path_rejection(f, o.plugin_path)
    } else if configuration_reference_error(
        decode::dot(f, "config.path"@),
        o.config_path,
        "PIPEWIREAO_RTC_SOURCE_GRAPH_"@,
    ) is Some {
        configuration_reference_error(
            decode::dot(f, "config.path"@),
            o.config_path,
            "PIPEWIREAO_RTC_SOURCE_GRAPH_"@,
        )
    } else if o.args.len() > 0 {
        Some(
            diag(
                decode::dot(f, "args"@),
                "the delegated simulated source takes no RTC-rendered arguments"@,
            ),
        )
    } else {
        None
    }
}

/// The first problem with an owned fgn-native graph.
pub open spec fn fgn_graph_error(o: SObject, f: Seq<char>) -> Option<DiagnosticView> {
    if module_error(f, o.module, filter_chain_module()) is Some {
        module_error(f, o.module, filter_chain_module())
    } else if ports_error(f, o.ports, seq![PortDirection::Input, PortDirection::Output]) is Some {
        ports_error(f, o.ports, seq![PortDirection::Input, PortDirection::Output])
    } else if plugin_path_rejection(f, o.plugin_path) is Some {
        plugin_path_rejection(f, o.plugin_path)
    } else if configuration_reference_error(
        decode::dot(f, "config.path"@),
        o.config_path,
        "PIPEWIREAO_RTC_GRAPH_"@,
    ) is Some {
        configuration_reference_error(
            decode::dot(f, "config.path"@),
            o.config_path,
            "PIPEWIREAO_RTC_GRAPH_"@,
        )
    } else if o.args.len() > 0 {
        Some(
            diag(
                decode::dot(f, "args"@),
                "the graph uses its delegated filter.graph configuration, not RTC-rendered arguments"@,
            ),
        )
    } else {
        None
    }
}

/// The first problem with an owned format-agnostic discard sink.
pub open spec fn discard_sink_error(o: SObject, f: Seq<char>) -> Option<DiagnosticView> {
    if module_error(f, o.module, spa_node_factory_module()) is Some {
        module_error(f, o.module, spa_node_factory_module())
    } else if ports_error(f, o.ports, seq![PortDirection::Input]) is Some {
        ports_error(f, o.ports, seq![PortDirection::Input])
    } else if exact_reference_error(
        decode::dot(f, "plugin.path"@),
        o.plugin_path,
        "${PIPEWIREAO_DISCARD_PLUGIN}"@,
    ) is Some {
        exact_reference_error(
            decode::dot(f, "plugin.path"@),
            o.plugin_path,
            "${PIPEWIREAO_DISCARD_PLUGIN}"@,
        )
    } else if config_path_rejection(f, o.config_path) is Some {
        config_path_rejection(f, o.config_path)
    } else if o.args.len() > 0 {
        Some(
            diag(
                decode::dot(f, "args"@),
                "the format-agnostic discard sink takes no fixture arguments"@,
            ),
        )
    } else {
        None
    }
}

pub open spec fn wrong_factory(role: ObjectRole, f: Seq<char>) -> Option<DiagnosticView> {
    Some(diag(decode::dot(f, "factory"@), "factory is not admitted for a "@ + role_noun(role)))
}

/// The first problem with one declared object of `role`, written at field `f`.
pub open spec fn object_error(role: ObjectRole, o: SObject, f: Seq<char>) -> Option<DiagnosticView> {
    match o.realization {
        SRealization::External => external_error(role, o, f),
        SRealization::Fits => if role == ObjectRole::Source {
            fits_source_error(o, f)
        } else {
            wrong_factory(role, f)
        },
        SRealization::Simulated => if role == ObjectRole::Source {
            simulated_source_error(o, f)
        } else {
            wrong_factory(role, f)
        },
        SRealization::FgnNative => if role == ObjectRole::Graph {
            fgn_graph_error(o, f)
        } else {
            wrong_factory(role, f)
        },
        SRealization::Discard => if role == ObjectRole::Sink {
            discard_sink_error(o, f)
        } else {
            wrong_factory(role, f)
        },
    }
}

fn external_directions_exec(role: ObjectRole, n: usize) -> (r: Vec<PortDirection>)
    ensures
        r@ == external_directions(role, n as nat),
{
    match role {
        ObjectRole::Graph => vec![PortDirection::Input, PortDirection::Output],
        _ => {
            let d = if role == ObjectRole::Source { PortDirection::Output } else { PortDirection::Input };
            let mut r: Vec<PortDirection> = Vec::new();
            let mut i: usize = 0;
            while i < n
                invariant
                    i <= n,
                    r.len() == i,
                    forall|j: int| 0 <= j < i ==> r@[j] == d,
                decreases n - i,
            {
                r.push(d);
                i = i + 1;
            }
            assert(r@ =~= external_directions(role, n as nat));
            r
        },
    }
}

fn external_check<F: FactoryKind>(role: ObjectRole, o: &ObjectSpec<F>, f: &str) -> (r: Result<
    (),
    ScientificDiagnostic,
>)
    ensures
        check_result(r) == external_error(role, o@, f@),
{
    let message = "an externally owned object is selected by its PipeWire contract, not loaded by the runner";
    if o.module.is_some() {
        return Err(ScientificDiagnostic::from_parts(field_dot(f, "module"), owned(message)));
    }
    if o.plugin_path.is_some() {
        return Err(ScientificDiagnostic::from_parts(field_dot(f, "plugin.path"), owned(message)));
    }
    if o.configuration_path.is_some() {
        return Err(ScientificDiagnostic::from_parts(field_dot(f, "config.path"), owned(message)));
    }
    if o.arguments.len() > 0 {
        return Err(ScientificDiagnostic::from_parts(field_dot(f, "args"), owned(message)));
    }
    if o.ports.len() == 0 {
        return Err(ScientificDiagnostic::from_parts(field_dot(f, "ports"), owned("an externally owned object must declare at least one port")));
    }
    let dirs = external_directions_exec(role, o.ports.len());
    ports_check(f, &o.ports, &dirs)
}

fn one_direction(d: PortDirection) -> (r: Vec<PortDirection>)
    ensures
        r@ == seq![d],
{
    let r = vec![d];
    assert(r@ =~= seq![d]);
    r
}

fn fits_source_check(o: &ObjectSpec<EndpointFactory>, f: &str) -> (r: Result<(), ScientificDiagnostic>)
    ensures
        check_result(r) == fits_source_error(o@, f@),
{
    ports_check(f, &o.ports, &one_direction(PortDirection::Output))?;
    module_check(f, &o.module, "libpipewire-module-spa-node-factory")?;
    let plugin_field = field_dot(f, "plugin.path");
    exact_reference_check(plugin_field.as_str(), &o.plugin_path, "${PIPEWIREAO_FITS_PLUGIN}")?;
    reject_configuration_path(f, &o.configuration_path)?;
    assert(o@.ports[0] == o.ports@[0]@);
    fits_args_check(&o.arguments, o.ports[0].schema.as_str(), f)?;
    let shape = &o.ports[0].shape;
    if !(shape.len() == 1 && shape[0] == 2) {
        proof {
            if shape@.len() == 1 {
                assert(shape@[0] != 2);
                assert(shape@ != seq![2u32]);
            }
        }
        let pf = concat3(f, ".ports.", o.ports[0].name.as_str());
        return Err(ScientificDiagnostic::from_parts(field_dot(pf.as_str(), "shape"), owned("the FITS complete-frame source emits frames of shape [2]")));
    }
    assert(shape@ =~= seq![2u32]);
    Ok(())
}

fn simulated_source_check(o: &ObjectSpec<EndpointFactory>, f: &str) -> (r: Result<(), ScientificDiagnostic>)
    ensures
        check_result(r) == simulated_source_error(o@, f@),
{
    ports_check(f, &o.ports, &one_direction(PortDirection::Output))?;
    module_check(f, &o.module, "libpipewire-module-ndarray-filter-chain")?;
    reject_plugin_path(f, &o.plugin_path)?;
    let config_field = field_dot(f, "config.path");
    configuration_reference_check(config_field.as_str(), &o.configuration_path, "PIPEWIREAO_RTC_SOURCE_GRAPH_")?;
    if o.arguments.len() > 0 {
        return Err(ScientificDiagnostic::from_parts(field_dot(f, "args"), owned("the delegated simulated source takes no RTC-rendered arguments")));
    }
    Ok(())
}

fn discard_sink_check(o: &ObjectSpec<EndpointFactory>, f: &str) -> (r: Result<(), ScientificDiagnostic>)
    ensures
        check_result(r) == discard_sink_error(o@, f@),
{
    module_check(f, &o.module, "libpipewire-module-spa-node-factory")?;
    ports_check(f, &o.ports, &one_direction(PortDirection::Input))?;
    let plugin_field = field_dot(f, "plugin.path");
    exact_reference_check(plugin_field.as_str(), &o.plugin_path, "${PIPEWIREAO_DISCARD_PLUGIN}")?;
    reject_configuration_path(f, &o.configuration_path)?;
    if o.arguments.len() > 0 {
        return Err(ScientificDiagnostic::from_parts(field_dot(f, "args"), owned("the format-agnostic discard sink takes no fixture arguments")));
    }
    Ok(())
}

fn wrong_factory_diag(role: ObjectRole, f: &str) -> (d: ScientificDiagnostic)
    ensures
        Some(d@) == wrong_factory(role, f@),
{
    ScientificDiagnostic::from_parts(field_dot(f, "factory"), concat2("factory is not admitted for a ", role.name()))
}

/// Checks a declared source (`source`) or sink.
pub fn endpoint_check(o: &ObjectSpec<EndpointFactory>, f: &str, source: bool) -> (r: Result<
    (),
    ScientificDiagnostic,
>)
    ensures
        check_result(r) == object_error(
            if source { ObjectRole::Source } else { ObjectRole::Sink },
            o@,
            f@,
        ),
{
    let role = if source { ObjectRole::Source } else { ObjectRole::Sink };
    match o.realization {
        ObjectRealization::External => external_check(role, o, f),
        ObjectRealization::Factory(EndpointFactory::FitsCompleteFrameSource) => {
            if source {
                fits_source_check(o, f)
            } else {
                Err(wrong_factory_diag(role, f))
            }
        },
        ObjectRealization::Factory(EndpointFactory::SimulatedCompleteFrameSource) => {
            if source {
                simulated_source_check(o, f)
            } else {
                Err(wrong_factory_diag(role, f))
            }
        },
        ObjectRealization::Factory(EndpointFactory::FormatAgnosticDiscardSink) => {
            if source {
                Err(wrong_factory_diag(role, f))
            } else {
                discard_sink_check(o, f)
            }
        },
    }
}

/// Checks a declared graph.
pub fn graph_check(o: &ObjectSpec<GraphFactory>, f: &str) -> (r: Result<(), ScientificDiagnostic>)
    ensures
        check_result(r) == object_error(ObjectRole::Graph, o@, f@),
{
    match o.realization {
        ObjectRealization::External => external_check(ObjectRole::Graph, o, f),
        ObjectRealization::Factory(GraphFactory::FgnNative) => {
            module_check(f, &o.module, "libpipewire-module-ndarray-filter-chain")?;
            let dirs = vec![PortDirection::Input, PortDirection::Output];
            assert(dirs@ =~= seq![PortDirection::Input, PortDirection::Output]);
            ports_check(f, &o.ports, &dirs)?;
            reject_plugin_path(f, &o.plugin_path)?;
            let config_field = field_dot(f, "config.path");
            configuration_reference_check(config_field.as_str(), &o.configuration_path, "PIPEWIREAO_RTC_GRAPH_")?;
            if o.arguments.len() > 0 {
                return Err(ScientificDiagnostic::from_parts(field_dot(f, "args"), owned("the graph uses its delegated filter.graph configuration, not RTC-rendered arguments")));
            }
            Ok(())
        },
    }
}

} // verus!
