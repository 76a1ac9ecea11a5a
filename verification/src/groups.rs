//! Admission of execution groups and of the links that cross their boundaries.
use vstd::prelude::*;
use vstd::string::*;
use crate::config::{DevelopmentConfig, ObjectRole, SConfig, SRealization};
use crate::config;
use crate::decode;
use crate::decode::{field_dot, field_index, quoted_text};
use crate::diagnostic::{DiagnosticView, ScientificDiagnostic};
use crate::links;
use crate::links::{first_node, split_endpoint};
use crate::session::{node_count, nodes, role_at};
use crate::session;
use crate::text::{concat2, concat3, owned, same_text};
use crate::validate;

verus! {

broadcast use vstd::string::group_string_axioms;

pub open spec fn names_contain(names: Seq<Seq<char>>, name: Seq<char>) -> bool {
    exists|q: int| 0 <= q < names.len() && names[q] == name
}

/// The first execution group, from `j` on, that names `name`.
pub open spec fn group_of_from(c: SConfig, name: Seq<char>, j: int) -> Option<int>
    decreases c.groups.len() - j,
{
    if j < 0 || j >= c.groups.len() {
        None
    } else if names_contain(c.groups[j].nodes, name) {
        Some(j)
    } else {
        group_of_from(c, name, j + 1)
    }
}

/// The execution group that a node belongs to, if any.
pub open spec fn group_of(c: SConfig, name: Seq<char>) -> Option<int> {
    group_of_from(c, name, 0)
}

pub open spec fn group_field(j: int) -> Seq<char> {
    decode::indexed("execution-groups"@, j as nat)
}

/// The problem with member `k` of group `j`.
pub open spec fn member_error(c: SConfig, j: int, k: int) -> Option<DiagnosticView> {
    let m = c.groups[j].nodes[k];
    let nf = decode::indexed(decode::dot(group_field(j), "nodes"@), k as nat);
    match first_node(c, m) {
        None => Some(
            validate::diag(nf, "node "@ + decode::quoted(m) + " is not declared in the session"@),
        ),
        Some(x) => if nodes(c)[x].realization == SRealization::External {
            Some(
                validate::diag(
                    nf,
                    "externally owned node "@ + decode::quoted(m)
                        + " cannot join an execution group"@,
                ),
            )
        } else if (exists|i: int| 0 <= i < j && names_contain(c.groups[i].nodes, m))
            || names_contain(c.groups[j].nodes.take(k), m) {
            Some(
                validate::diag(
                    nf,
                    "node "@ + decode::quoted(m) + " already belongs to an execution group"@,
                ),
            )
        } else {
            None
        },
    }
}

pub open spec fn members_error_from(c: SConfig, j: int, k: int) -> Option<DiagnosticView>
    decreases c.groups[j].nodes.len() - k,
{
    if k < 0 || k >= c.groups[j].nodes.len() {
        None
    } else if member_error(c, j, k) is Some {
        member_error(c, j, k)
    } else {
        members_error_from(c, j, k + 1)
    }
}

/// Whether group `j` names a declared graph.
pub open spec fn has_graph(c: SConfig, j: int) -> bool {
    exists|k: int|
        0 <= k < c.groups[j].nodes.len() && #[trigger] first_node(c, c.groups[j].nodes[k]) is Some
            && role_at(c, first_node(c, c.groups[j].nodes[k])->0) == ObjectRole::Graph
}

/// The first problem with execution group `j`.
pub open spec fn group_error(c: SConfig, j: int) -> Option<DiagnosticView> {
    let g = c.groups[j];
    let gf = group_field(j);
    if g.name.len() == 0 || exists|i: int| 0 <= i < j && c.groups[i].name == g.name {
        Some(
            validate::diag(
                decode::dot(gf, "name"@),
                "execution-group name must be non-empty and unique"@,
            ),
        )
    } else if g.nodes.len() == 0 {
        Some(
            validate::diag(
                decode::dot(gf, "nodes"@),
                "an execution group must name at least one node"@,
            ),
        )
    } else if members_error_from(c, j, 0) is Some {
        members_error_from(c, j, 0)
    } else if !has_graph(c, j) {
        Some(
            validate::diag(
                decode::dot(gf, "nodes"@),
                "an execution group must contain at least one graph"@,
            ),
        )
    } else {
        None
    }
}

pub open spec fn groups_error_from(c: SConfig, j: int) -> Option<DiagnosticView>
    decreases c.groups.len() - j,
{
    if j < 0 || j >= c.groups.len() {
        None
    } else if group_error(c, j) is Some {
        group_error(c, j)
    } else {
        groups_error_from(c, j + 1)
    }
}

/// The first runner-owned sink, from position `k` of [`nodes`] on, outside every group.
pub open spec fn sinks_group_error_from(c: SConfig, k: int) -> Option<DiagnosticView>
    decreases node_count(c) - k,
{
    if k < c.sources.len() + c.graphs.len() || k >= node_count(c) {
        None
    } else if nodes(c)[k].realization != SRealization::External && group_of(
        c,
        nodes(c)[k].node_name,
    ) is None {
        Some(
            validate::diag(
                "sink "@ + nodes(c)[k].node_name + ".execution-group"@,
                "every runner-owned sink must belong to an execution group"@,
            ),
        )
    } else {
        sinks_group_error_from(c, k + 1)
    }
}

/// The node name of an endpoint, or the whole endpoint when it has none.
pub open spec fn endpoint_node_name(e: Seq<char>) -> Seq<char> {
    match split_endpoint(e) {
        Ok(p) => p.0,
        Err(_) => e,
    }
}

/// The problem with how link `i` meets the execution groups.
pub open spec fn link_group_error(c: SConfig, i: int) -> Option<DiagnosticView> {
    let l = c.links[i];
    let lf = decode::indexed("links"@, i as nat);
    let go = group_of(c, endpoint_node_name(l.output));
    let gi = group_of(c, endpoint_node_name(l.input));
    if go is Some && gi is Some && go != gi {
        Some(
            validate::diag(
                decode::dot(lf, "execution-group"@),
                "a link cannot join two execution groups"@,
            ),
        )
    } else if l.passive != (go != gi) {
        Some(
            validate::diag(
                decode::dot(lf, "passive"@),
                "a link is passive exactly when it crosses an execution-group boundary"@,
            ),
        )
    } else {
        None
    }
}

pub open spec fn link_groups_error_from(c: SConfig, i: int) -> Option<DiagnosticView>
    decreases c.links.len() - i,
{
    if i < 0 || i >= c.links.len() {
        None
    } else if link_group_error(c, i) is Some {
        link_group_error(c, i)
    } else {
        link_groups_error_from(c, i + 1)
    }
}

/// The first problem with the execution groups, the sinks outside them, or a link
/// across their boundaries.
pub open spec fn execution_groups_error(c: SConfig) -> Option<DiagnosticView> {
    if groups_error_from(c, 0) is Some {
        groups_error_from(c, 0)
    } else if sinks_group_error_from(c, (c.sources.len() + c.graphs.len()) as int) is Some {
        sinks_group_error_from(c, (c.sources.len() + c.graphs.len()) as int)
    } else {
        link_groups_error_from(c, 0)
    }
}

// ----- Executable checks -----

fn names_contain_exec(names: &Vec<String>, name: &String, upto: usize) -> (r: bool)
    requires
        upto <= names.len(),
    ensures
        r == names_contain(config::texts_view(names@).take(upto as int), name@),
{
    let ghost nv = config::texts_view(names@).take(upto as int);
    let mut q: usize = 0;
    while q < upto
        invariant
            upto <= names.len(),
            nv == config::texts_view(names@).take(upto as int),
            q <= upto,
            forall|p: int| 0 <= p < q ==> nv[p] != name@,
        decreases upto - q,
    {
        assert(nv[q as int] == names@[q as int]@);
        if same_text(&names[q], name) {
            return true;
        }
        q = q + 1;
    }
    false
}

/// The execution group that a node belongs to, if any.
pub fn group_of_exec(c: &DevelopmentConfig, name: &String) -> (r: Option<usize>)
    ensures
        match group_of(c@, name@) {
            None => r is None,
            Some(j) => r matches Some(x) && x == j,
        },
{
    let mut j: usize = 0;
    while j < c.execution_groups.len()
        invariant
            j <= c.execution_groups.len(),
            group_of_from(c@, name@, j as int) == group_of(c@, name@),
        decreases c.execution_groups.len() - j,
    {
        let nodes_j = &c.execution_groups[j].nodes;
        assert(c@.groups[j as int] == c.execution_groups@[j as int]@);
        assert(config::texts_view(nodes_j@).take(nodes_j.len() as int) =~= config::texts_view(nodes_j@));
        if names_contain_exec(nodes_j, name, nodes_j.len()) {
            return Some(j);
        }
        j = j + 1;
    }
    None
}

fn earlier_group_has(c: &DevelopmentConfig, j: usize, name: &String) -> (r: bool)
    requires
        j <= c.execution_groups.len(),
    ensures
        r == exists|i: int| 0 <= i < j && names_contain(c@.groups[i].nodes, name@),
{
    let mut i: usize = 0;
    while i < j
        invariant
            j <= c.execution_groups.len(),
            i <= j,
            forall|p: int| 0 <= p < i ==> !names_contain(c@.groups[p].nodes, name@),
        decreases j - i,
    {
        let nodes_i = &c.execution_groups[i].nodes;
        assert(c@.groups[i as int] == c.execution_groups@[i as int]@);
        assert(config::texts_view(nodes_i@).take(nodes_i.len() as int) =~= config::texts_view(nodes_i@));
        if names_contain_exec(nodes_i, name, nodes_i.len()) {
            return true;
        }
        i = i + 1;
    }
    false
}

fn member_check(c: &DevelopmentConfig, j: usize, k: usize) -> (r: Result<(), ScientificDiagnostic>)
    requires
        node_count(c@) <= usize::MAX,
        j < c.execution_groups.len(),
        k < c.execution_groups@[j as int].nodes.len(),
    ensures
        validate::check_result(r) == member_error(c@, j as int, k as int),
{
    let g = &c.execution_groups[j];
    assert(c@.groups[j as int] == g@);
    let m = &g.nodes[k];
    assert(c@.groups[j as int].nodes[k as int] == m@);
    let gf = field_index("execution-groups", j);
    let nodes_field = field_dot(gf.as_str(), "nodes");
    let nf = field_index(nodes_field.as_str(), k);
    match links::first_node_exec(c, m) {
        None => {
            let q = quoted_text(m.as_str());
            Err(ScientificDiagnostic::from_parts(nf, concat3("node ", q.as_str(), " is not declared in the session")))
        },
        Some(x) => {
            proof {
                links::lemma_first_node_bounds(c@, m@, 0);
            }
            if session::node_is_external_at(c, x) {
                let q = quoted_text(m.as_str());
                return Err(ScientificDiagnostic::from_parts(nf, concat3("externally owned node ", q.as_str(), " cannot join an execution group")));
            }
            if earlier_group_has(c, j, m) || names_contain_exec(&g.nodes, m, k) {
                let q = quoted_text(m.as_str());
                return Err(ScientificDiagnostic::from_parts(nf, concat3("node ", q.as_str(), " already belongs to an execution group")));
            }
            Ok(())
        },
    }
}

fn has_graph_exec(c: &DevelopmentConfig, j: usize) -> (r: bool)
    requires
        node_count(c@) <= usize::MAX,
        j < c.execution_groups.len(),
    ensures
        r == has_graph(c@, j as int),
{
    let g = &c.execution_groups[j];
    assert(c@.groups[j as int] == g@);
    let ns = c.sources.len();
    let ng = c.graphs.len();
    let mut k: usize = 0;
    while k < g.nodes.len()
        invariant
            node_count(c@) <= usize::MAX,
            j < c.execution_groups.len(),
            c@.groups[j as int] == g@,
            ns == c@.sources.len(),
            ng == c@.graphs.len(),
            k <= g.nodes.len(),
            forall|p: int|
                0 <= p < k ==> !(#[trigger] first_node(c@, c@.groups[j as int].nodes[p]) is Some && role_at(
                    c@,
                    first_node(c@, c@.groups[j as int].nodes[p])->0,
                ) == ObjectRole::Graph),
        decreases g.nodes.len() - k,
    {
        assert(c@.groups[j as int].nodes[k as int] == g.nodes@[k as int]@);
        match links::first_node_exec(c, &g.nodes[k]) {
            Some(x) => {
                if ns <= x && x - ns < ng {
                    return true;
                }
            },
            None => {},
        }
        k = k + 1;
    }
    false
}

fn group_name_repeated(c: &DevelopmentConfig, j: usize) -> (r: bool)
    requires
        j < c.execution_groups.len(),
    ensures
        r == exists|i: int| 0 <= i < j && c@.groups[i].name == c@.groups[j as int].name,
{
    let mut i: usize = 0;
    while i < j
        invariant
            j < c.execution_groups.len(),
            i <= j,
            forall|p: int| 0 <= p < i ==> c@.groups[p].name != c@.groups[j as int].name,
        decreases j - i,
    {
        assert(c@.groups[i as int] == c.execution_groups@[i as int]@);
        assert(c@.groups[j as int] == c.execution_groups@[j as int]@);
        if same_text(&c.execution_groups[i].name, &c.execution_groups[j].name) {
            return true;
        }
        i = i + 1;
    }
    false
}

fn group_check(c: &DevelopmentConfig, j: usize) -> (r: Result<(), ScientificDiagnostic>)
    requires
        node_count(c@) <= usize::MAX,
        j < c.execution_groups.len(),
    ensures
        validate::check_result(r) == group_error(c@, j as int),
{
    let g = &c.execution_groups[j];
    assert(c@.groups[j as int] == g@);
    let gf = field_index("execution-groups", j);
    if g.name.as_str().is_empty() || group_name_repeated(c, j) {
        return Err(ScientificDiagnostic::from_parts(field_dot(gf.as_str(), "name"), owned("execution-group name must be non-empty and unique")));
    }
    if g.nodes.len() == 0 {
        return Err(ScientificDiagnostic::from_parts(field_dot(gf.as_str(), "nodes"), owned("an execution group must name at least one node")));
    }
    let mut k: usize = 0;
    while k < g.nodes.len()
        invariant
            node_count(c@) <= usize::MAX,
            j < c.execution_groups.len(),
            c@.groups[j as int] == g@,
            k <= g.nodes.len(),
            members_error_from(c@, j as int, k as int) == members_error_from(c@, j as int, 0),
            members_error_from(c@, j as int, 0) is Some ==> group_error(c@, j as int)
                == members_error_from(c@, j as int, 0),
        decreases g.nodes.len() - k,
    {
        member_check(c, j, k)?;
        k = k + 1;
    }
    if !has_graph_exec(c, j) {
        return Err(ScientificDiagnostic::from_parts(field_dot(gf.as_str(), "nodes"), owned("an execution group must contain at least one graph")));
    }
    Ok(())
}

fn endpoint_node_name_exec(e: &String) -> (r: String)
    ensures
        r@ == endpoint_node_name(e@),
{
    match links::split_endpoint_exec(e) {
        Ok((node, _)) => node,
        Err(_) => e.clone(),
    }
}

/// Checks the execution groups, the sinks outside them and the links across them.
pub fn execution_groups_check(c: &DevelopmentConfig) -> (r: Result<(), ScientificDiagnostic>)
    requires
        node_count(c@) <= usize::MAX,
    ensures
        validate::check_result(r) == execution_groups_error(c@),
{
    let mut j: usize = 0;
    while j < c.execution_groups.len()
        invariant
            node_count(c@) <= usize::MAX,
            j <= c.execution_groups.len(),
            groups_error_from(c@, j as int) == groups_error_from(c@, 0),
        decreases c.execution_groups.len() - j,
    {
        group_check(c, j)?;
        j = j + 1;
    }
    let n = session::count_nodes(c);
    let mut k: usize = c.sources.len() + c.graphs.len();
    while k < n
        invariant
            node_count(c@) <= usize::MAX,
            n == node_count(c@),
            c.sources.len() + c.graphs.len() <= k,
            groups_error_from(c@, 0) is None,
            sinks_group_error_from(c@, k as int) == sinks_group_error_from(
                c@,
                (c@.sources.len() + c@.graphs.len()) as int,
            ),
        decreases n - k,
    {
        let name = session::node_name_at(c, k);
        if !session::node_is_external_at(c, k) && group_of_exec(c, name).is_none() {
            return Err(ScientificDiagnostic::from_parts(concat3("sink ", name.as_str(), ".execution-group"), owned("every runner-owned sink must belong to an execution group")));
        }
        k = k + 1;
    }
    let mut i: usize = 0;
    while i < c.links.len()
        invariant
            i <= c.links.len(),
            groups_error_from(c@, 0) is None,
            sinks_group_error_from(c@, (c@.sources.len() + c@.graphs.len()) as int) is None,
            link_groups_error_from(c@, i as int) == link_groups_error_from(c@, 0),
        decreases c.links.len() - i,
    {
        let l = &c.links[i];
        assert(c@.links[i as int] == l@);
        let go = group_of_exec(c, &endpoint_node_name_exec(&l.output));
        let gi = group_of_exec(c, &endpoint_node_name_exec(&l.input));
        let lf = field_index("links", i);
        let crossing = match (go, gi) {
            (Some(a), Some(b)) => a != b,
            (None, None) => false,
            _ => true,
        };
        if go.is_some() && gi.is_some() && crossing {
            return Err(ScientificDiagnostic::from_parts(field_dot(lf.as_str(), "execution-group"), owned("a link cannot join two execution groups")));
        }
        if l.passive != crossing {
            return Err(ScientificDiagnostic::from_parts(field_dot(lf.as_str(), "passive"), owned("a link is passive exactly when it crosses an execution-group boundary")));
        }
        i = i + 1;
    }
    Ok(())
}

} // verus!
