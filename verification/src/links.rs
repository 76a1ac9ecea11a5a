//! Admission of declared links: endpoints, directions, roles and ndarray contracts.
use vstd::prelude::*;
use vstd::string::*;
use crate::config::{DevelopmentConfig, LinkSpec, ObjectRole, PortDirection, PortSpec, SConfig, SLink, SPort};
use crate::config;
use crate::decode;
use crate::decode::{field_dot, field_index, quoted_text};
use crate::diagnostic::{DiagnosticView, ScientificDiagnostic};
use crate::session::{node_count, nodes, role_at};
use crate::session;
use crate::text::{chars_of, concat2, concat3, owned, same_text};
use crate::validate;

verus! {

broadcast use vstd::string::group_string_axioms;

// ----- Endpoints -----

/// The position of the last `:` among the first `n` characters of `s`.
pub open spec fn last_colon_before(s: Seq<char>, n: int) -> Option<int>
    decreases n,
{
    if n <= 0 {
        None
    } else if s[n - 1] == ':' {
        Some(n - 1)
    } else {
        last_colon_before(s, n - 1)
    }
}

/// The node and port names of a `node:port` endpoint, split at its last `:`.
pub open spec fn split_endpoint(s: Seq<char>) -> Result<(Seq<char>, Seq<char>), Seq<char>> {
    match last_colon_before(s, s.len() as int) {
        None => Err("endpoint must use node.name:port.name syntax"@),
        Some(p) => if p == 0 || p == s.len() - 1 {
            Err("endpoint node and port names must not be empty"@)
        } else {
            Ok((s.take(p), s.skip(p + 1)))
        },
    }
}

proof fn lemma_last_colon_bounds(s: Seq<char>, n: int)
    requires
        n <= s.len(),
    ensures
        match last_colon_before(s, n) {
            Some(p) => 0 <= p < n && s[p] == ':' && forall|j: int| p < j < n ==> s[j] != ':',
            None => forall|j: int| 0 <= j < n ==> s[j] != ':',
        },
    decreases n,
{
    if n > 0 && s[n - 1] != ':' {
        lemma_last_colon_bounds(s, n - 1);
    }
}

/// Splits an endpoint into its node and port names.
pub fn split_endpoint_exec(s: &String) -> (r: Result<(String, String), &'static str>)
    ensures
        match r {
            Ok((a, b)) => split_endpoint(s@) == Ok::<(Seq<char>, Seq<char>), Seq<char>>((a@, b@)),
            Err(m) => split_endpoint(s@) == Err::<(Seq<char>, Seq<char>), Seq<char>>(m@),
        },
{
    let c = chars_of(s.as_str());
    let mut n: usize = c.len();
    while n > 0
        invariant
            c@ == s@,
            n <= c.len(),
            last_colon_before(s@, n as int) == last_colon_before(s@, c.len() as int),
        decreases n,
    {
        if c[n - 1] == ':' {
            let p = n - 1;
            if p == 0 || p == c.len() - 1 {
                return Err("endpoint node and port names must not be empty");
            }
            let node = s.as_str().substring_char(0, p);
            let port = s.as_str().substring_char(p + 1, c.len());
            assert(s@.subrange(0, p as int) =~= s@.take(p as int));
            assert(s@.subrange(p + 1, c.len() as int) =~= s@.skip(p + 1));
            return Ok((node.to_owned(), port.to_owned()));
        }
        n = n - 1;
    }
    Err("endpoint must use node.name:port.name syntax")
}

/// The position in [`nodes`] of the first object named `name`, from `k` on.
pub open spec fn first_node_from(c: SConfig, name: Seq<char>, k: int) -> Option<int>
    decreases node_count(c) - k,
{
    if k < 0 || k >= node_count(c) {
        None
    } else if nodes(c)[k].node_name == name {
        Some(k)
    } else {
        first_node_from(c, name, k + 1)
    }
}

pub open spec fn first_node(c: SConfig, name: Seq<char>) -> Option<int> {
    first_node_from(c, name, 0)
}

/// The position of the first port named `name`, from `i` on.
pub open spec fn first_port_from(ports: Seq<SPort>, name: Seq<char>, i: int) -> Option<int>
    decreases ports.len() - i,
{
    if i < 0 || i >= ports.len() {
        None
    } else if ports[i].name == name {
        Some(i)
    } else {
        first_port_from(ports, name, i + 1)
    }
}

/// The declared port `port` of node `node`, as positions of the node and of the port.
pub open spec fn find_port(c: SConfig, node: Seq<char>, port: Seq<char>) -> Option<(int, int)> {
    match first_node(c, node) {
        None => None,
        Some(k) => match first_port_from(nodes(c)[k].ports, port, 0) {
            None => None,
            Some(p) => Some((k, p)),
        },
    }
}

pub proof fn lemma_first_node_bounds(c: SConfig, name: Seq<char>, k: int)
    requires
        0 <= k,
    ensures
        match first_node_from(c, name, k) {
            Some(j) => k <= j < node_count(c) && nodes(c)[j].node_name == name,
            None => forall|j: int| k <= j < node_count(c) ==> nodes(c)[j].node_name != name,
        },
    decreases node_count(c) - k,
{
    if k < node_count(c) && nodes(c)[k].node_name != name {
        lemma_first_node_bounds(c, name, k + 1);
    }
}

pub proof fn lemma_first_port_bounds(ports: Seq<SPort>, name: Seq<char>, i: int)
    requires
        0 <= i,
    ensures
        match first_port_from(ports, name, i) {
            Some(j) => i <= j < ports.len() && ports[j].name == name,
            None => forall|j: int| i <= j < ports.len() ==> ports[j].name != name,
        },
    decreases ports.len() - i,
{
    if i < ports.len() && ports[i].name != name {
        lemma_first_port_bounds(ports, name, i + 1);
    }
}

pub fn first_node_exec(c: &DevelopmentConfig, name: &String) -> (r: Option<usize>)
    requires
        node_count(c@) <= usize::MAX,
    ensures
        match first_node(c@, name@) {
            None => r is None,
            Some(k) => r matches Some(x) && x == k,
        },
{
    let n = session::count_nodes(c);
    let mut k: usize = 0;
    while k < n
        invariant
            n == node_count(c@),
            k <= n,
            first_node_from(c@, name@, k as int) == first_node(c@, name@),
        decreases n - k,
    {
        if same_text(session::node_name_at(c, k), name) {
            return Some(k);
        }
        k = k + 1;
    }
    None
}

fn first_port_exec(ports: &Vec<PortSpec>, name: &String) -> (r: Option<usize>)
    ensures
        match first_port_from(config::ports_view(ports@), name@, 0) {
            None => r is None,
            Some(p) => r matches Some(x) && x == p,
        },
{
    let ghost pv = config::ports_view(ports@);
    let mut i: usize = 0;
    while i < ports.len()
        invariant
            i <= ports.len(),
            pv == config::ports_view(ports@),
            first_port_from(pv, name@, i as int) == first_port_from(pv, name@, 0),
        decreases ports.len() - i,
    {
        assert(pv[i as int] == ports@[i as int]@);
        if same_text(&ports[i].name, name) {
            return Some(i);
        }
        i = i + 1;
    }
    None
}

pub fn find_port_exec(c: &DevelopmentConfig, node: &String, port: &String) -> (r: Option<(usize, usize)>)
    requires
        node_count(c@) <= usize::MAX,
    ensures
        match find_port(c@, node@, port@) {
            None => r is None,
            Some((k, p)) => r matches Some(x) && x.0 == k && x.1 == p,
        },
{
    match first_node_exec(c, node) {
        None => None,
        Some(k) => {
            proof {
                lemma_first_node_bounds(c@, node@, 0);
            }
            let ports = session::node_ports_at(c, k);
            match first_port_exec(ports, port) {
                None => None,
                Some(p) => Some((k, p)),
            }
        },
    }
}


// ----- Link checks -----

pub open spec fn admitted_roles(output: ObjectRole, input: ObjectRole) -> bool {
    &&& (output == ObjectRole::Source || output == ObjectRole::Graph)
    &&& (input == ObjectRole::Graph || input == ObjectRole::Sink)
    &&& !(output == ObjectRole::Source && input == ObjectRole::Sink)
}

pub open spec fn contract_message(l: SLink, what: Seq<char>) -> Seq<char> {
    "output "@ + l.output + " and input "@ + l.input + " have incompatible "@ + what
}

/// The first problem with the ports that a link joins.
pub open spec fn endpoints_error(c: SConfig, l: SLink, lf: Seq<char>, o: (int, int), i: (int, int)) -> Option<
    DiagnosticView,
> {
    let out = nodes(c)[o.0].ports[o.1];
    let inp = nodes(c)[i.0].ports[i.1];
    if out.direction != PortDirection::Output {
        Some(validate::diag(decode::dot(lf, "output"@), "link output endpoint is not an output port"@))
    } else if inp.direction != PortDirection::Input {
        Some(validate::diag(decode::dot(lf, "input"@), "link input endpoint is not an input port"@))
    } else if !admitted_roles(role_at(c, o.0), role_at(c, i.0)) {
        Some(validate::diag(lf, "links must be source -> graph, graph -> graph, or graph -> sink"@))
    } else if out.element_type != inp.element_type {
        Some(
            validate::diag(
                decode::dot(lf, "element-type"@),
                contract_message(l, "element types "@) + decode::quoted(out.element_type) + " and "@
                    + decode::quoted(inp.element_type),
            ),
        )
    } else if out.shape != inp.shape {
        Some(
            validate::diag(
                decode::dot(lf, "shape"@),
                contract_message(l, "shapes "@) + crate::port_contract::shape_text(out.shape) + " and "@
                    + crate::port_contract::shape_text(inp.shape),
            ),
        )
    } else if out.schema != inp.schema {
        Some(
            validate::diag(
                decode::dot(lf, "schema"@),
                contract_message(l, "schemas "@) + decode::quoted(out.schema) + " and "@
                    + decode::quoted(inp.schema),
            ),
        )
    } else {
        None
    }
}

/// The first problem with link `i`.
pub open spec fn link_error(c: SConfig, i: int) -> Option<DiagnosticView> {
    let l = c.links[i];
    let lf = decode::indexed("links"@, i as nat);
    if exists|j: int| 0 <= j < i && c.links[j].output == l.output && c.links[j].input == l.input {
        Some(validate::diag(lf, "declared link is duplicated"@))
    } else {
        match split_endpoint(l.output) {
            Err(m) => Some(validate::diag(decode::dot(lf, "output"@), m)),
            Ok(op) => match split_endpoint(l.input) {
                Err(m) => Some(validate::diag(decode::dot(lf, "input"@), m)),
                Ok(ip) => match find_port(c, op.0, op.1) {
                    None => Some(
                        validate::diag(
                            decode::dot(lf, "output"@),
                            "scientific output port "@ + decode::quoted(l.output) + " is not declared"@,
                        ),
                    ),
                    Some(o) => match find_port(c, ip.0, ip.1) {
                        None => Some(
                            validate::diag(
                                decode::dot(lf, "input"@),
                                "scientific input port "@ + decode::quoted(l.input)
                                    + " is not declared"@,
                            ),
                        ),
                        Some(n) => endpoints_error(c, l, lf, o, n),
                    },
                },
            },
        }
    }
}

pub open spec fn links_error_from(c: SConfig, i: int) -> Option<DiagnosticView>
    decreases c.links.len() - i,
{
    if i < 0 || i >= c.links.len() {
        None
    } else if link_error(c, i) is Some {
        link_error(c, i)
    } else {
        links_error_from(c, i + 1)
    }
}

/// The first problem with the declared links, taken one by one.
pub open spec fn links_error(c: SConfig) -> Option<DiagnosticView> {
    if c.links.len() == 0 {
        Some(validate::diag("links"@, "at least one declared PipeWire link is required"@))
    } else {
        links_error_from(c, 0)
    }
}

fn shapes_equal(a: &Vec<u32>, b: &Vec<u32>) -> (r: bool)
    ensures
        r == (a@ == b@),
{
    if a.len() != b.len() {
        return false;
    }
    let mut i: usize = 0;
    while i < a.len()
        invariant
            a.len() == b.len(),
            i <= a.len(),
            forall|j: int| 0 <= j < i ==> a@[j] == b@[j],
        decreases a.len() - i,
    {
        if a[i] != b[i] {
            return false;
        }
        i = i + 1;
    }
    assert(a@ =~= b@);
    true
}

fn contract_message_exec(l: &LinkSpec, what: &str) -> (r: String)
    ensures
        r@ == contract_message(l@, what@),
{
    let mut m = concat2("output ", l.output.as_str());
    m.append(" and input ");
    m.append(l.input.as_str());
    m.append(" have incompatible ");
    m.append(what);
    m
}

fn role_at_exec(c: &DevelopmentConfig, k: usize) -> (r: ObjectRole)
    ensures
        r == role_at(c@, k as int),
{
    if k < c.sources.len() {
        ObjectRole::Source
    } else if k - c.sources.len() < c.graphs.len() {
        ObjectRole::Graph
    } else {
        ObjectRole::Sink
    }
}

fn endpoints_check(c: &DevelopmentConfig, l: &LinkSpec, lf: &str, o: (usize, usize), n: (usize, usize)) -> (r: Result<
    (),
    ScientificDiagnostic,
>)
    requires
        node_count(c@) <= usize::MAX,
        o.0 < node_count(c@),
        o.1 < nodes(c@)[o.0 as int].ports.len(),
        n.0 < node_count(c@),
        n.1 < nodes(c@)[n.0 as int].ports.len(),
    ensures
        validate::check_result(r) == endpoints_error(c@, l@, lf@, (o.0 as int, o.1 as int), (n.0 as int, n.1 as int)),
{
    let out_ports = session::node_ports_at(c, o.0);
    let in_ports = session::node_ports_at(c, n.0);
    let out = &out_ports[o.1];
    let inp = &in_ports[n.1];
    assert(nodes(c@)[o.0 as int].ports[o.1 as int] == out@);
    assert(nodes(c@)[n.0 as int].ports[n.1 as int] == inp@);
    if out.direction != PortDirection::Output {
        return Err(ScientificDiagnostic::from_parts(field_dot(lf, "output"), owned("link output endpoint is not an output port")));
    }
    if inp.direction != PortDirection::Input {
        return Err(ScientificDiagnostic::from_parts(field_dot(lf, "input"), owned("link input endpoint is not an input port")));
    }
    let ro = role_at_exec(c, o.0);
    let ri = role_at_exec(c, n.0);
    let admitted = (ro == ObjectRole::Source || ro == ObjectRole::Graph) && (ri == ObjectRole::Graph || ri == ObjectRole::Sink) && !(ro == ObjectRole::Source && ri == ObjectRole::Sink);
    if !admitted {
        return Err(ScientificDiagnostic::from_parts(owned(lf), owned("links must be source -> graph, graph -> graph, or graph -> sink")));
    }
    if !same_text(&out.element_type, &inp.element_type) {
        let mut m = contract_message_exec(l, "element types ");
        let qa = quoted_text(out.element_type.as_str());
        let qb = quoted_text(inp.element_type.as_str());
        m.append(qa.as_str());
        m.append(" and ");
        m.append(qb.as_str());
        return Err(ScientificDiagnostic::from_parts(field_dot(lf, "element-type"), m));
    }
    if !shapes_equal(&out.shape, &inp.shape) {
        let mut m = contract_message_exec(l, "shapes ");
        let qa = crate::port_contract::shape_text_exec(&out.shape);
        let qb = crate::port_contract::shape_text_exec(&inp.shape);
        m.append(qa.as_str());
        m.append(" and ");
        m.append(qb.as_str());
        return Err(ScientificDiagnostic::from_parts(field_dot(lf, "shape"), m));
    }
    if !same_text(&out.schema, &inp.schema) {
        let mut m = contract_message_exec(l, "schemas ");
        let qa = quoted_text(out.schema.as_str());
        let qb = quoted_text(inp.schema.as_str());
        m.append(qa.as_str());
        m.append(" and ");
        m.append(qb.as_str());
        return Err(ScientificDiagnostic::from_parts(field_dot(lf, "schema"), m));
    }
    Ok(())
}

fn link_repeated(c: &DevelopmentConfig, i: usize) -> (r: bool)
    requires
        i < c.links.len(),
    ensures
        r == exists|j: int|
            0 <= j < i && c@.links[j].output == c@.links[i as int].output && c@.links[j].input
                == c@.links[i as int].input,
{
    let mut j: usize = 0;
    while j < i
        invariant
            i < c.links.len(),
            j <= i,
            forall|k: int|
                0 <= k < j ==> !(c@.links[k].output == c@.links[i as int].output && c@.links[k].input
                    == c@.links[i as int].input),
        decreases i - j,
    {
        assert(c@.links[j as int] == c.links@[j as int]@);
        assert(c@.links[i as int] == c.links@[i as int]@);
        if same_text(&c.links[j].output, &c.links[i].output) && same_text(&c.links[j].input, &c.links[i].input) {
            return true;
        }
        j = j + 1;
    }
    false
}

fn link_check(c: &DevelopmentConfig, i: usize) -> (r: Result<(), ScientificDiagnostic>)
    requires
        i < c.links.len(),
        node_count(c@) <= usize::MAX,
    ensures
        validate::check_result(r) == link_error(c@, i as int),
{
    let l = &c.links[i];
    assert(c@.links[i as int] == l@);
    let lf = field_index("links", i);
    if link_repeated(c, i) {
        return Err(ScientificDiagnostic::from_parts(lf, owned("declared link is duplicated")));
    }
    let (on, op) = match split_endpoint_exec(&l.output) {
        Err(m) => {
            return Err(ScientificDiagnostic::from_parts(field_dot(lf.as_str(), "output"), owned(m)));
        },
        Ok(x) => x,
    };
    let (inn, ip) = match split_endpoint_exec(&l.input) {
        Err(m) => {
            return Err(ScientificDiagnostic::from_parts(field_dot(lf.as_str(), "input"), owned(m)));
        },
        Ok(x) => x,
    };
    let o = match find_port_exec(c, &on, &op) {
        None => {
            let q = quoted_text(l.output.as_str());
            return Err(ScientificDiagnostic::from_parts(field_dot(lf.as_str(), "output"), concat3("scientific output port ", q.as_str(), " is not declared")));
        },
        Some(x) => x,
    };
    let n = match find_port_exec(c, &inn, &ip) {
        None => {
            let q = quoted_text(l.input.as_str());
            return Err(ScientificDiagnostic::from_parts(field_dot(lf.as_str(), "input"), concat3("scientific input port ", q.as_str(), " is not declared")));
        },
        Some(x) => x,
    };
    proof {
        lemma_first_node_bounds(c@, on@, 0);
        lemma_first_node_bounds(c@, inn@, 0);
        lemma_first_port_bounds(nodes(c@)[o.0 as int].ports, op@, 0);
        lemma_first_port_bounds(nodes(c@)[n.0 as int].ports, ip@, 0);
    }
    let ghost os = split_endpoint(l@.output)->Ok_0;
    let ghost is = split_endpoint(l@.input)->Ok_0;
    assert(os == (on@, op@));
    assert(is == (inn@, ip@));
    assert(find_port(c@, os.0, os.1) == Some((o.0 as int, o.1 as int)));
    assert(find_port(c@, is.0, is.1) == Some((n.0 as int, n.1 as int)));
    endpoints_check(c, l, lf.as_str(), o, n)
}

/// Checks the declared links one by one.
pub fn links_check(c: &DevelopmentConfig) -> (r: Result<(), ScientificDiagnostic>)
    requires
        node_count(c@) <= usize::MAX,
    ensures
        validate::check_result(r) == links_error(c@),
{
    if c.links.len() == 0 {
        return Err(ScientificDiagnostic::from_parts(owned("links"), owned("at least one declared PipeWire link is required")));
    }
    let mut i: usize = 0;
    while i < c.links.len()
        invariant
            node_count(c@) <= usize::MAX,
            i <= c.links.len(),
            links_error_from(c@, i as int) == links_error_from(c@, 0),
        decreases c.links.len() - i,
    {
        link_check(c, i)?;
        i = i + 1;
    }
    Ok(())
}

} // verus!
