//! The session as one list of nodes: names, lookups and the per-object admission walk.
use vstd::prelude::*;
use vstd::string::*;
use crate::config::{DevelopmentConfig, ObjectRole, PortSpec, SConfig, SObject, SRealization};
use crate::config;
use crate::decode;
use crate::decode::{field_index, quoted_text};
use crate::diagnostic::{DiagnosticView, ScientificDiagnostic};
use crate::text::{concat3, contains_char, owned, same_text};
use crate::validate;

verus! {

broadcast use vstd::string::group_string_axioms;

/// Every declared object, sources first, then graphs, then sinks.
pub open spec fn nodes(c: SConfig) -> Seq<SObject> {
    c.sources + c.graphs + c.sinks
}

pub open spec fn node_count(c: SConfig) -> nat {
    c.sources.len() + c.graphs.len() + c.sinks.len()
}

/// The role of the object at position `k` of [`nodes`].
pub open spec fn role_at(c: SConfig, k: int) -> ObjectRole {
    if k < c.sources.len() {
        ObjectRole::Source
    } else if k < c.sources.len() + c.graphs.len() {
        ObjectRole::Graph
    } else {
        ObjectRole::Sink
    }
}

/// The field that names the object at position `k` of [`nodes`].
pub open spec fn object_field(c: SConfig, k: int) -> Seq<char> {
    if k < c.sources.len() {
        decode::indexed("sources"@, k as nat)
    } else if k < c.sources.len() + c.graphs.len() {
        decode::indexed("graphs"@, (k - c.sources.len()) as nat)
    } else {
        decode::indexed("sinks"@, (k - c.sources.len() - c.graphs.len()) as nat)
    }
}

/// The node names of every declared object, in the order of [`nodes`].
pub open spec fn node_names(c: SConfig) -> Seq<Seq<char>> {
    Seq::new(node_count(c), |k: int| nodes(c)[k].node_name)
}

/// The first problem with the node name of the object at position `k`.
pub open spec fn node_name_error(c: SConfig, k: int) -> Option<DiagnosticView> {
    let name = nodes(c)[k].node_name;
    let f = decode::dot(object_field(c, k), "node.name"@);
    if name.len() == 0 || crate::text::has_char(name, ':') || crate::text::has_char(name, '\0') {
        Some(validate::diag(f, "node name must be non-empty and contain neither ':' nor NUL"@))
    } else if exists|j: int| 0 <= j < k && nodes(c)[j].node_name == name {
        Some(
            validate::diag(
                f,
                "node name "@ + decode::quoted(name) + " is duplicated in the session"@,
            ),
        )
    } else {
        None
    }
}

/// The first problem with the objects from position `k` on, each checked and then named.
pub open spec fn objects_error_from(c: SConfig, k: int) -> Option<DiagnosticView>
    decreases node_count(c) - k,
{
    if k < 0 || k >= node_count(c) {
        None
    } else if validate::object_error(role_at(c, k), nodes(c)[k], object_field(c, k)) is Some {
        validate::object_error(role_at(c, k), nodes(c)[k], object_field(c, k))
    } else if node_name_error(c, k) is Some {
        node_name_error(c, k)
    } else {
        objects_error_from(c, k + 1)
    }
}

/// The number of declared objects.
pub fn count_nodes(c: &DevelopmentConfig) -> (n: usize)
    requires
        node_count(c@) <= usize::MAX,
    ensures
        n == node_count(c@),
{
    c.sources.len() + c.graphs.len() + c.sinks.len()
}

/// The node name of the object at position `k` of [`nodes`].
pub fn node_name_at(c: &DevelopmentConfig, k: usize) -> (r: &String)
    requires
        k < node_count(c@),
    ensures
        r@ == nodes(c@)[k as int].node_name,
        r@ == node_names(c@)[k as int],
{
    let ns = c.sources.len();
    let ng = c.graphs.len();
    if k < ns {
        assert(nodes(c@)[k as int] == c.sources@[k as int]@);
        &c.sources[k].node_name
    } else if k - ns < ng {
        assert(nodes(c@)[k as int] == c.graphs@[k - ns]@);
        &c.graphs[k - ns].node_name
    } else {
        assert(nodes(c@)[k as int] == c.sinks@[k - ns - ng]@);
        &c.sinks[k - ns - ng].node_name
    }
}

/// The ports of the object at position `k` of [`nodes`].
pub fn node_ports_at(c: &DevelopmentConfig, k: usize) -> (r: &Vec<PortSpec>)
    requires
        k < node_count(c@),
    ensures
        config::ports_view(r@) == nodes(c@)[k as int].ports,
{
    let ns = c.sources.len();
    let ng = c.graphs.len();
    if k < ns {
        assert(nodes(c@)[k as int] == c.sources@[k as int]@);
        &c.sources[k].ports
    } else if k - ns < ng {
        assert(nodes(c@)[k as int] == c.graphs@[k - ns]@);
        &c.graphs[k - ns].ports
    } else {
        assert(nodes(c@)[k as int] == c.sinks@[k - ns - ng]@);
        &c.sinks[k - ns - ng].ports
    }
}

/// Whether the object at position `k` of [`nodes`] is owned elsewhere.
pub fn node_is_external_at(c: &DevelopmentConfig, k: usize) -> (r: bool)
    requires
        k < node_count(c@),
    ensures
        r == (nodes(c@)[k as int].realization == SRealization::External),
{
    let ns = c.sources.len();
    let ng = c.graphs.len();
    if k < ns {
        assert(nodes(c@)[k as int] == c.sources@[k as int]@);
        c.sources[k].realization.is_external()
    } else if k - ns < ng {
        assert(nodes(c@)[k as int] == c.graphs@[k - ns]@);
        c.graphs[k - ns].realization.is_external()
    } else {
        assert(nodes(c@)[k as int] == c.sinks@[k - ns - ng]@);
        c.sinks[k - ns - ng].realization.is_external()
    }
}

fn name_repeated(c: &DevelopmentConfig, k: usize) -> (r: bool)
    requires
        k < node_count(c@),
    ensures
        r == exists|j: int| 0 <= j < k && nodes(c@)[j].node_name == nodes(c@)[k as int].node_name,
{
    let name = node_name_at(c, k);
    let mut j: usize = 0;
    while j < k
        invariant
            k < node_count(c@),
            name@ == nodes(c@)[k as int].node_name,
            j <= k,
            forall|i: int| 0 <= i < j ==> nodes(c@)[i].node_name != name@,
        decreases k - j,
    {
        if same_text(node_name_at(c, j), name) {
            return true;
        }
        j = j + 1;
    }
    false
}

fn node_name_check(c: &DevelopmentConfig, k: usize, f: &str) -> (r: Result<(), ScientificDiagnostic>)
    requires
        k < node_count(c@),
        f@ == object_field(c@, k as int),
    ensures
        validate::check_result(r) == node_name_error(c@, k as int),
{
    let name = node_name_at(c, k);
    let field = decode::field_dot(f, "node.name");
    if name.as_str().is_empty() || contains_char(name.as_str(), ':') || contains_char(name.as_str(), '\0') {
        return Err(ScientificDiagnostic::from_parts(field, owned("node name must be non-empty and contain neither ':' nor NUL")));
    }
    if name_repeated(c, k) {
        let q = quoted_text(name.as_str());
        return Err(ScientificDiagnostic::from_parts(field, concat3("node name ", q.as_str(), " is duplicated in the session")));
    }
    Ok(())
}

/// Checks every declared object and its node name, in declaration order.
pub fn objects_check(c: &DevelopmentConfig) -> (r: Result<(), ScientificDiagnostic>)
    requires
        node_count(c@) <= usize::MAX,
    ensures
        validate::check_result(r) == objects_error_from(c@, 0),
{
    let ns = c.sources.len();
    let ng = c.graphs.len();
    let nk = c.sinks.len();
    let mut i: usize = 0;
    while i < ns
        invariant
            ns == c.sources.len(),
            ng == c.graphs.len(),
            nk == c.sinks.len(),
            node_count(c@) <= usize::MAX,
            i <= ns,
            objects_error_from(c@, i as int) == objects_error_from(c@, 0),
        decreases ns - i,
    {
        let f = field_index("sources", i);
        assert(nodes(c@)[i as int] == c.sources@[i as int]@);
        validate::endpoint_check(&c.sources[i], f.as_str(), true)?;
        node_name_check(c, i, f.as_str())?;
        i = i + 1;
    }
    let mut i: usize = 0;
    while i < ng
        invariant
            ns == c.sources.len(),
            ng == c.graphs.len(),
            nk == c.sinks.len(),
            node_count(c@) <= usize::MAX,
            i <= ng,
            objects_error_from(c@, (ns + i) as int) == objects_error_from(c@, 0),
        decreases ng - i,
    {
        let f = field_index("graphs", i);
        assert(nodes(c@)[ns + i] == c.graphs@[i as int]@);
        validate::graph_check(&c.graphs[i], f.as_str())?;
        node_name_check(c, ns + i, f.as_str())?;
        i = i + 1;
    }
    let mut i: usize = 0;
    while i < nk
        invariant
            ns == c.sources.len(),
            ng == c.graphs.len(),
            nk == c.sinks.len(),
            node_count(c@) <= usize::MAX,
            i <= nk,
            objects_error_from(c@, (ns + ng + i) as int) == objects_error_from(c@, 0),
        decreases nk - i,
    {
        let f = field_index("sinks", i);
        assert(nodes(c@)[ns + ng + i] == c.sinks@[i as int]@);
        validate::endpoint_check(&c.sinks[i], f.as_str(), false)?;
        node_name_check(c, ns + ng + i, f.as_str())?;
        i = i + 1;
    }
    Ok(())
}

} // verus!
