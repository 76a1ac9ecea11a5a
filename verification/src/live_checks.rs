//! Decisions a live graph adapter takes on what it observes of a PipeWire graph:
//! port identity, link admission, topology counts, discard metrics and artifact references.
use vstd::prelude::*;
use vstd::string::*;
use crate::config::{endpoint_factory_name, pairs_view, EndpointFactory, ObjectRealization, ObjectSpec, PortDirection};
use crate::diagnostic::{diag, DiagnosticView, ScientificDiagnostic};
use crate::text::{chars_equal, chars_of, decimal, decimal_string, decimal_u64, is_text};

verus! {

broadcast use vstd::string::group_string_axioms;

// ----- Port identity -----

/// Whether `observed` ends with a colon followed by `configured`.
pub open spec fn qualified_by(observed: Seq<char>, configured: Seq<char>) -> bool {
    &&& observed.len() > configured.len()
    &&& observed[observed.len() - configured.len() - 1] == ':'
    &&& observed.subrange(observed.len() - configured.len(), observed.len() as int) == configured
}

/// Whether an observed port name designates the configured one: equal to it, or
/// qualified by a prefix and a colon.
pub open spec fn port_name_match(observed: Seq<char>, configured: Seq<char>) -> bool {
    observed == configured || qualified_by(observed, configured)
}

/// Decides whether an observed port name designates the configured one.
pub fn port_name_matches(observed: &str, configured: &str) -> (r: bool)
    ensures
        r == port_name_match(observed@, configured@),
{
    let o = chars_of(observed);
    let c = chars_of(configured);
    if chars_equal(&o, &c) {
        return true;
    }
    if o.len() <= c.len() {
        return false;
    }
    let offset = o.len() - c.len();
    if o[offset - 1] != ':' {
        return false;
    }
    let mut i: usize = 0;
    while i < c.len()
        invariant
            o@ == observed@,
            c@ == configured@,
            o.len() > c.len(),
            offset == o.len() - c.len(),
            i <= c.len(),
            forall|k: int| 0 <= k < i ==> o@[offset + k] == c@[k],
        decreases c.len() - i,
    {
        if o[offset + i] != c[i] {
            proof {
                let tail = o@.subrange(offset as int, o@.len() as int);
                assert(tail[i as int] == o@[offset + i]);
            }
            return false;
        }
        i = i + 1;
    }
    assert(o@.subrange(offset as int, o@.len() as int) =~= c@);
    true
}

/// The `port.direction` property value of a direction.
pub open spec fn direction_label(d: PortDirection) -> Seq<char> {
    match d {
        PortDirection::Input => "in"@,
        PortDirection::Output => "out"@,
    }
}

/// The `port.direction` property value of a direction.
pub fn direction_label_text(d: PortDirection) -> (r: &'static str)
    ensures
        r@ == direction_label(d),
{
    match d {
        PortDirection::Input => "in",
        PortDirection::Output => "out",
    }
}

/// The text of an optional property value.
pub open spec fn optional_text(o: Option<&str>) -> Option<Seq<char>> {
    match o {
        Some(s) => Some(s@),
        None => None,
    }
}

/// Whether a port's properties identify the configured port of the node `node_id`.
pub open spec fn port_identity(
    node_property: Option<Seq<char>>,
    direction_property: Option<Seq<char>>,
    name_property: Option<Seq<char>>,
    node_id: u32,
    name: Seq<char>,
    direction: PortDirection,
) -> bool {
    &&& node_property == Some(decimal(node_id as nat))
    &&& direction_property == Some(direction_label(direction))
    &&& name_property matches Some(n) && port_name_match(n, name)
}

fn text_equals(actual: Option<&str>, expected: &String) -> (r: bool)
    ensures
        r == (optional_text(actual) == Some(expected@)),
{
    match actual {
        Some(s) => is_text(expected, s),
        None => false,
    }
}

/// Decides whether a port's `node.id`, `port.direction` and `port.name` properties
/// identify the configured port `name` of the node `node_id`.
pub fn port_identity_matches(
    node_property: Option<&str>,
    direction_property: Option<&str>,
    name_property: Option<&str>,
    node_id: u32,
    name: &str,
    direction: PortDirection,
) -> (r: bool)
    ensures
        r == port_identity(
            optional_text(node_property),
            optional_text(direction_property),
            optional_text(name_property),
            node_id,
            name@,
            direction,
        ),
{
    let id_text = decimal_u64(node_id as u64);
    if !text_equals(node_property, &id_text) {
        return false;
    }
    let label = direction_label_text(direction).to_owned();
    if !text_equals(direction_property, &label) {
        return false;
    }
    match name_property {
        Some(n) => port_name_matches(n, name),
        None => false,
    }
}

// ----- Link admission -----

/// What the PipeWire link reports of its state.
#[derive(Clone, Debug, PartialEq, Eq)]
pub enum LinkObservation {
    Unknown,
    Pending(String),
    Paused,
    Active,
    Unlinked,
    Failed(String),
}

/// What the adapter does next with a link it created.
#[derive(Debug, PartialEq, Eq)]
pub enum LinkAdmission {
    Waiting,
    Admitted,
    Refused(ScientificDiagnostic),
}

/// The debug text of an optional property value as the link reports it.
pub open spec fn reported_text(observed: Option<Seq<char>>) -> Seq<char> {
    match observed {
        Some(s) => "Some("@ + crate::decode::quoted(s) + ")"@,
        None => "None"@,
    }
}

pub open spec fn bool_text(b: bool) -> Seq<char> {
    if b {
        "true"@
    } else {
        "false"@
    }
}

/// Whether the link retained `link.passive=true`.
pub open spec fn retained_passive(observed: Option<Seq<char>>) -> bool {
    observed == Some("true"@)
}

/// The refusal of a link whose retained passivity differs from the configured one.
pub open spec fn passive_mismatch(index: nat, passive: bool, observed: Option<Seq<char>>) -> DiagnosticView {
    diag(
        "links["@ + decimal(index) + "].passive"@,
        "configured link.passive="@ + bool_text(passive) + ", but the public PipeWire link reports "@
            + reported_text(observed),
    )
}

/// What the adapter does with link `index` (labelled `label`) in `state`, whose
/// retained `link.passive` property is `observed`, when it was configured `passive`.
pub open spec fn admission(
    r: LinkAdmission,
    index: nat,
    label: Seq<char>,
    state: LinkObservation,
    observed: Option<Seq<char>>,
    passive: bool,
) -> bool {
    match state {
        LinkObservation::Paused | LinkObservation::Active => if retained_passive(observed) == passive {
            r is Admitted
        } else {
            r matches LinkAdmission::Refused(d) && d@ == passive_mismatch(index, passive, observed)
        },
        LinkObservation::Unlinked => r matches LinkAdmission::Refused(d) && d@ == diag(
            label,
            "link became unlinked"@,
        ),
        LinkObservation::Failed(e) => r matches LinkAdmission::Refused(d) && d@ == diag(label, e@),
        LinkObservation::Unknown | LinkObservation::Pending(_) => r is Waiting,
    }
}

fn optional_equals(observed: Option<&str>, expected: &str) -> (r: bool)
    ensures
        r == (optional_text(observed) == Some(expected@)),
{
    match observed {
        Some(s) => is_text(&s.to_owned(), expected),
        None => false,
    }
}

/// Decides what to do with a created link from its reported state and retained passivity.
pub fn admit_link(
    index: usize,
    label: &str,
    state: &LinkObservation,
    observed_passive: Option<&str>,
    passive: bool,
) -> (r: LinkAdmission)
    ensures
        admission(r, index as nat, label@, *state, optional_text(observed_passive), passive),
{
    match state {
        LinkObservation::Paused | LinkObservation::Active => {
            let retained = optional_equals(observed_passive, "true");
            if retained == passive {
                LinkAdmission::Admitted
            } else {
                let mut field = "links[".to_owned();
                field.append(decimal_string(index).as_str());
                field.append("].passive");
                let mut message = "configured link.passive=".to_owned();
                message.append(if passive { "true" } else { "false" });
                message.append(", but the public PipeWire link reports ");
                match observed_passive {
                    Some(s) => {
                        message.append("Some(");
                        message.append(crate::decode::quoted_text(s).as_str());
                        message.append(")");
                    },
                    None => {
                        message.append("None");
                    },
                }
                assert(message@ =~= "configured link.passive="@ + bool_text(passive)
                    + ", but the public PipeWire link reports "@ + reported_text(
                    optional_text(observed_passive),
                ));
                LinkAdmission::Refused(ScientificDiagnostic::from_parts(field, message))
            }
        },
        LinkObservation::Unlinked => LinkAdmission::Refused(
            ScientificDiagnostic::new(label, "link became unlinked"),
        ),
        LinkObservation::Failed(e) => LinkAdmission::Refused(
            ScientificDiagnostic::new(label, e.as_str()),
        ),
        LinkObservation::Unknown | LinkObservation::Pending(_) => LinkAdmission::Waiting,
    }
}

// ----- Topology counts -----

/// Whether the observed counts of owned nodes, required nodes and links are the expected ones.
pub open spec fn counts_match(
    expected_owned: nat,
    expected_required: nat,
    expected_links: nat,
    owned: nat,
    required: nat,
    links: nat,
) -> bool {
    owned == expected_owned && required == expected_required && links == expected_links
}

/// The message of a realization whose counts differ from the declared topology.
pub open spec fn realized_counts_message(
    expected_owned: nat,
    expected_required: nat,
    expected_links: nat,
    owned: nat,
    required: nat,
    links: nat,
) -> Seq<char> {
    "expected exactly "@ + decimal(expected_owned) + " runner-owned nodes, "@ + decimal(
        expected_required,
    ) + " required nodes, and "@ + decimal(expected_links) + " declared links; observed "@
        + decimal(owned) + " owned node(s), "@ + decimal(required) + " required node(s), and "@
        + decimal(links) + " link(s)"@
}

/// Checks after realization that exactly the declared nodes and links exist.
pub fn realized_topology_check(
    expected_owned: usize,
    expected_required: usize,
    expected_links: usize,
    owned: usize,
    required: usize,
    links: usize,
) -> (r: Result<(), ScientificDiagnostic>)
    ensures
        r is Ok <==> counts_match(
            expected_owned as nat,
            expected_required as nat,
            expected_links as nat,
            owned as nat,
            required as nat,
            links as nat,
        ),
        r matches Err(d) ==> d@ == diag(
            "topology"@,
            realized_counts_message(
                expected_owned as nat,
                expected_required as nat,
                expected_links as nat,
                owned as nat,
                required as nat,
                links as nat,
            ),
        ),
{
    if owned == expected_owned && required == expected_required && links == expected_links {
        return Ok(());
    }
    let mut m = "expected exactly ".to_owned();
    m.append(decimal_string(expected_owned).as_str());
    m.append(" runner-owned nodes, ");
    m.append(decimal_string(expected_required).as_str());
    m.append(" required nodes, and ");
    m.append(decimal_string(expected_links).as_str());
    m.append(" declared links; observed ");
    m.append(decimal_string(owned).as_str());
    m.append(" owned node(s), ");
    m.append(decimal_string(required).as_str());
    m.append(" required node(s), and ");
    m.append(decimal_string(links).as_str());
    m.append(" link(s)");
    Err(ScientificDiagnostic::from_parts("topology".to_owned(), m))
}

/// Checks before start that every declared node and link still exists.
pub fn start_topology_check(
    expected_owned: usize,
    expected_required: usize,
    expected_links: usize,
    owned: usize,
    required: usize,
    links: usize,
) -> (r: Result<(), ScientificDiagnostic>)
    ensures
        r is Ok <==> counts_match(
            expected_owned as nat,
            expected_required as nat,
            expected_links as nat,
            owned as nat,
            required as nat,
            links as nat,
        ),
        r matches Err(d) ==> d@ == diag(
            "topology"@,
            "every declared source, graph, sink, and link must exist before start"@,
        ),
{
    if owned == expected_owned && required == expected_required && links == expected_links {
        Ok(())
    } else {
        Err(
            ScientificDiagnostic::new(
                "topology",
                "every declared source, graph, sink, and link must exist before start",
            ),
        )
    }
}

// ----- Discard metrics -----

/// The buffer count of a discard metric, which must not be negative.
pub fn discard_count(metric: &str, raw: i64) -> (r: Result<u64, String>)
    ensures
        raw >= 0 ==> r == Ok::<u64, String>(raw as u64),
        raw < 0 ==> (r matches Err(m) && m@ == metric@ + " is negative: "@
            + crate::run_control::signed_text(raw as int)),
{
    if raw >= 0 {
        Ok(raw as u64)
    } else {
        let mut m = metric.to_owned();
        m.append(" is negative: ");
        m.append(crate::run_control::signed_text_exec(raw).as_str());
        Err(m)
    }
}

/// The count recorded for `sink` from position `i` on, the first one that names it.
pub open spec fn count_from(counts: Seq<(String, u64)>, sink: Seq<char>, i: int) -> Option<u64>
    decreases counts.len() - i,
{
    if i < 0 || i >= counts.len() {
        None
    } else if counts[i].0@ == sink {
        Some(counts[i].1)
    } else {
        count_from(counts, sink, i + 1)
    }
}

/// Whether every sink counted in `previous` has a strictly larger count in `observed`.
pub open spec fn every_sink_advanced(previous: Seq<(String, u64)>, observed: Seq<(String, u64)>) -> bool {
    forall|k: int|
        0 <= k < previous.len() ==> (#[trigger] count_from(observed, previous[k].0@, 0) matches Some(
            after,
        ) && after > previous[k].1)
}

fn count_of(counts: &Vec<(String, u64)>, sink: &String) -> (r: Option<u64>)
    ensures
        r == count_from(counts@, sink@, 0),
{
    let mut i: usize = 0;
    while i < counts.len()
        invariant
            i <= counts.len(),
            count_from(counts@, sink@, 0) == count_from(counts@, sink@, i as int),
        decreases counts.len() - i,
    {
        if counts[i].0 == *sink {
            return Some(counts[i].1);
        }
        i = i + 1;
    }
    None
}

/// Decides whether a complete buffer reached every sink since `previous` was read.
pub fn sinks_advanced(previous: &Vec<(String, u64)>, observed: &Vec<(String, u64)>) -> (r: bool)
    ensures
        r == every_sink_advanced(previous@, observed@),
{
    let mut k: usize = 0;
    while k < previous.len()
        invariant
            k <= previous.len(),
            forall|j: int|
                0 <= j < k ==> (#[trigger] count_from(observed@, previous@[j].0@, 0) matches Some(
                    after,
                ) && after > previous@[j].1),
        decreases previous.len() - k,
    {
        match count_of(observed, &previous[k].0) {
            Some(after) => {
                if after <= previous[k].1 {
                    return false;
                }
            },
            None => {
                return false;
            },
        }
        k = k + 1;
    }
    true
}

// ----- Artifact and file references -----

/// The variable named by an explicit `${NAME}` reference.
pub open spec fn referenced_variable(configured: Seq<char>) -> Option<Seq<char>> {
    if configured.len() >= 3 && configured[0] == '$' && configured[1] == '{'
        && configured[configured.len() - 1] == '}' {
        Some(configured.subrange(2, configured.len() - 1))
    } else {
        None
    }
}

/// The environment variable that an explicit file reference `${NAME}` names.
pub fn file_reference_variable(field: &str, configured: &str) -> (r: Result<String, ScientificDiagnostic>)
    ensures
        referenced_variable(configured@) matches Some(v) ==> (r matches Ok(s) && s@ == v),
        referenced_variable(configured@) is None ==> (r matches Err(d) && d@ == diag(
            field@,
            "expected an explicit environment file reference"@,
        )),
{
    let c = chars_of(configured);
    let n = c.len();
    if n >= 3 && c[0] == '$' && c[1] == '{' && c[n - 1] == '}' {
        Ok(configured.substring_char(2, n - 1).to_owned())
    } else {
        Err(ScientificDiagnostic::new(field, "expected an explicit environment file reference"))
    }
}

/// The reference `${variable}` under which a maintained artifact must be configured.
pub open spec fn artifact_reference(variable: Seq<char>) -> Seq<char> {
    "${"@ + variable + "}"@
}

/// Checks that a maintained artifact is configured by the reference to its variable.
pub fn artifact_reference_check(field: &str, configured: &str, variable: &str) -> (r: Result<
    (),
    ScientificDiagnostic,
>)
    ensures
        r is Ok <==> configured@ == artifact_reference(variable@),
        r matches Err(d) ==> d@ == diag(
            field@,
            "expected maintained artifact reference "@ + crate::decode::quoted(artifact_reference(variable@)),
        ),
{
    let mut expected = "${".to_owned();
    expected.append(variable);
    expected.append("}");
    if is_text(&expected, configured) {
        Ok(())
    } else {
        let mut m = "expected maintained artifact reference ".to_owned();
        m.append(crate::decode::quoted_text(expected.as_str()).as_str());
        Err(ScientificDiagnostic::from_parts(field.to_owned(), m))
    }
}

/// Checks that a resolved plugin is the maintained library file `expected`.
pub fn maintained_plugin_check(
    field: &str,
    file_name: Option<&str>,
    expected: &str,
    noun: &str,
    shown: &str,
) -> (r: Result<(), ScientificDiagnostic>)
    ensures
        r is Ok <==> optional_text(file_name) == Some(expected@),
        r matches Err(d) ==> d@ == diag(
            field@,
            "expected maintained "@ + noun@ + " plugin "@ + crate::decode::quoted(expected@) + ", got "@ + shown@,
        ),
{
    if optional_equals(file_name, expected) {
        Ok(())
    } else {
        let mut m = "expected maintained ".to_owned();
        m.append(noun);
        m.append(" plugin ");
        m.append(crate::decode::quoted_text(expected).as_str());
        m.append(", got ");
        m.append(shown);
        Err(ScientificDiagnostic::from_parts(field.to_owned(), m))
    }
}

/// Whether a canonical path lies under the system prefix `/usr`.
pub open spec fn under_system_prefix(path: Seq<char>) -> bool {
    path == "/usr"@ || (path.len() > 4 && path.subrange(0, 5) == "/usr/"@)
}

/// Decides whether a canonical path lies under the system prefix `/usr`.
pub fn is_system_path(path: &str) -> (r: bool)
    ensures
        r == under_system_prefix(path@),
{
    proof {
        reveal_strlit("/usr");
        reveal_strlit("/usr/");
    }
    let c = chars_of(path);
    let n = c.len();
    if n == 4 {
        let r = c[0] == '/' && c[1] == 'u' && c[2] == 's' && c[3] == 'r';
        proof {
            if r {
                assert(c@ =~= "/usr"@);
            }
        }
        r
    } else if n > 4 {
        let r = c[0] == '/' && c[1] == 'u' && c[2] == 's' && c[3] == 'r' && c[4] == '/';
        proof {
            if r {
                assert(c@.subrange(0, 5) =~= "/usr/"@);
            } else {
                assert(c@.subrange(0, 5)[0] == c@[0]);
                assert(c@.subrange(0, 5)[1] == c@[1]);
                assert(c@.subrange(0, 5)[2] == c@[2]);
                assert(c@.subrange(0, 5)[3] == c@[3]);
                assert(c@.subrange(0, 5)[4] == c@[4]);
            }
        }
        r
    } else {
        false
    }
}

// ----- Object and link requests -----

/// The factory that an owned endpoint is realized through.
pub open spec fn endpoint_factory(o: ObjectSpec<EndpointFactory>) -> Seq<char> {
    match o.realization {
        ObjectRealization::Factory(f) => endpoint_factory_name(f),
        ObjectRealization::External => Seq::empty(),
    }
}

fn text_pair(a: &str, b: &str) -> (r: (String, String))
    ensures
        r.0@ == a@,
        r.1@ == b@,
{
    (a.to_owned(), b.to_owned())
}

/// The properties that create a runner-owned discard sink through the SPA node factory.
pub open spec fn discard_sink_request(factory: Seq<char>, node_name: Seq<char>) -> Seq<(Seq<char>, Seq<char>)> {
    seq![
        ("factory.name"@, factory),
        ("library.name"@, "pipewireao/libspa-pipewireao-discard"@),
        ("node.name"@, node_name),
        ("node.description"@, "PipeWireAO RTC non-actuating discard sink"@),
        ("node.virtual"@, "true"@),
        ("node.want-driver"@, "true"@),
        ("object.linger"@, "false"@),
    ]
}

/// The properties, in order, that create the runner-owned discard sink `sink`.
pub fn discard_sink_properties(sink: &ObjectSpec<EndpointFactory>) -> (r: Vec<(String, String)>)
    requires
        sink.realization is Factory,
    ensures
        pairs_view(r@) == discard_sink_request(endpoint_factory(*sink), sink.node_name@),
{
    let factory = match sink.realization {
        ObjectRealization::Factory(f) => f.configured_name(),
        ObjectRealization::External => "",
    };
    let r = vec![
        text_pair("factory.name", factory),
        text_pair("library.name", "pipewireao/libspa-pipewireao-discard"),
        text_pair("node.name", sink.node_name.as_str()),
        text_pair("node.description", "PipeWireAO RTC non-actuating discard sink"),
        text_pair("node.virtual", "true"),
        text_pair("node.want-driver", "true"),
        text_pair("object.linger", "false"),
    ];
    assert(pairs_view(r@) =~= discard_sink_request(endpoint_factory(*sink), sink.node_name@));
    r
}

/// The factory arguments of a FITS source with the image path argument resolved to `image`.
pub open spec fn resolved_arguments(args: Seq<(Seq<char>, Seq<char>)>, image: Seq<char>) -> Seq<
    (Seq<char>, Seq<char>),
> {
    Seq::new(
        args.len(),
        |i: int|
            if args[i].0 == "api.fits.path"@ {
                (args[i].0, image)
            } else {
                args[i]
            },
    )
}

/// The properties that create a runner-owned FITS source: its identity, then its factory
/// arguments in order, the image path resolved to `image`.
pub open spec fn fits_source_request(
    factory: Seq<char>,
    node_name: Seq<char>,
    args: Seq<(Seq<char>, Seq<char>)>,
    image: Seq<char>,
) -> Seq<(Seq<char>, Seq<char>)> {
    seq![
        ("factory.name"@, factory),
        ("node.name"@, node_name),
        ("node.description"@, "PipeWireAO RTC recorded complete-frame source"@),
        ("node.virtual"@, "true"@),
        ("object.linger"@, "false"@),
    ] + resolved_arguments(args, image)
}

/// The properties, in order, that create the runner-owned FITS source `source` reading
/// the resolved image `image`.
pub fn fits_source_properties(source: &ObjectSpec<EndpointFactory>, image: &str) -> (r: Vec<(String, String)>)
    requires
        source.realization is Factory,
    ensures
        pairs_view(r@) == fits_source_request(
            endpoint_factory(*source),
            source.node_name@,
            pairs_view(source.arguments@),
            image@,
        ),
{
    let factory = match source.realization {
        ObjectRealization::Factory(f) => f.configured_name(),
        ObjectRealization::External => "",
    };
    let mut r = vec![
        text_pair("factory.name", factory),
        text_pair("node.name", source.node_name.as_str()),
        text_pair("node.description", "PipeWireAO RTC recorded complete-frame source"),
        text_pair("node.virtual", "true"),
        text_pair("object.linger", "false"),
    ];
    let ghost head = pairs_view(r@);
    let ghost args = pairs_view(source.arguments@);
    let mut i: usize = 0;
    while i < source.arguments.len()
        invariant
            i <= source.arguments.len(),
            args == pairs_view(source.arguments@),
            head.len() == 5,
            pairs_view(r@) =~= head + resolved_arguments(args, image@).take(i as int),
        decreases source.arguments.len() - i,
    {
        let (name, value) = (&source.arguments[i].0, &source.arguments[i].1);
        let pair = if is_text(name, "api.fits.path") {
            text_pair(name.as_str(), image)
        } else {
            text_pair(name.as_str(), value.as_str())
        };
        let ghost before = pairs_view(r@);
        let ghost item = (pair.0@, pair.1@);
        assert(item == resolved_arguments(args, image@)[i as int]);
        r.push(pair);
        assert(pairs_view(r@) =~= before.push(item));
        assert(resolved_arguments(args, image@).take(i + 1) =~= resolved_arguments(args, image@).take(
            i as int,
        ).push(resolved_arguments(args, image@)[i as int]));
        i = i + 1;
    }
    assert(resolved_arguments(args, image@).take(i as int) =~= resolved_arguments(args, image@));
    r
}

/// The properties that ask the link factory for a link between two ports.
pub open spec fn link_request(
    output_node: u32,
    output_port: u32,
    input_node: u32,
    input_port: u32,
    passive: bool,
) -> Seq<(Seq<char>, Seq<char>)> {
    seq![
        ("link.output.node"@, decimal(output_node as nat)),
        ("link.output.port"@, decimal(output_port as nat)),
        ("link.input.node"@, decimal(input_node as nat)),
        ("link.input.port"@, decimal(input_port as nat)),
    ] + if passive {
        seq![("link.passive"@, "true"@)]
    } else {
        Seq::empty()
    }
}

/// The properties, in order, that ask the link factory for a link from the port
/// `output_port` of node `output_node` to the port `input_port` of node `input_node`.
pub fn link_properties(
    output_node: u32,
    output_port: u32,
    input_node: u32,
    input_port: u32,
    passive: bool,
) -> (r: Vec<(String, String)>)
    ensures
        pairs_view(r@) == link_request(output_node, output_port, input_node, input_port, passive),
{
    let mut r = vec![
        ("link.output.node".to_owned(), decimal_u64(output_node as u64)),
        ("link.output.port".to_owned(), decimal_u64(output_port as u64)),
        ("link.input.node".to_owned(), decimal_u64(input_node as u64)),
        ("link.input.port".to_owned(), decimal_u64(input_port as u64)),
    ];
    if passive {
        r.push(text_pair("link.passive", "true"));
    }
    assert(pairs_view(r@) =~= link_request(output_node, output_port, input_node, input_port, passive));
    r
}

} // verus!
