//! Parsing, admission and the derived views of a development session.
use vstd::prelude::*;
use vstd::string::*;
use crate::config::{DevelopmentConfig, LinkSpec, SConfig, SRealization};
use crate::config;
use crate::diagnostic::{DiagnosticView, ScientificDiagnostic};
use crate::groups;
use crate::links;
use crate::model;
use crate::session::{node_count, node_names, nodes};
use crate::session;
use crate::text::{is_text, owned, same_text};
use crate::topology;
use crate::validate;

verus! {

broadcast use vstd::string::group_string_axioms;

/// The first reason a decoded session is not admitted to the development profile.
pub open spec fn validation_error(c: SConfig) -> Option<DiagnosticView> {
    if node_count(c) > usize::MAX {
        Some(
            validate::diag(
                "configuration"@,
                "the session declares more objects than this machine can count"@,
            ),
        )
    } else if c.sources.len() == 0 {
        Some(validate::diag("sources"@, "at least one complete-frame source is required"@))
    } else if c.graphs.len() == 0 {
        Some(validate::diag("graphs"@, "at least one fgn-native graph is required"@))
    } else if c.sinks.len() == 0 {
        Some(validate::diag("sinks"@, "at least one non-actuating sink is required"@))
    } else if session::objects_error_from(c, 0) is Some {
        session::objects_error_from(c, 0)
    } else if c.properties.len() > 0 {
        Some(
            validate::diag(
                "properties"@,
                "graph properties belong in the delegated filter.graph configuration"@,
            ),
        )
    } else if c.parameters.len() > 0 {
        Some(
            validate::diag(
                "parameters"@,
                "this complete-frame fixture declares no runtime ndarray parameters"@,
            ),
        )
    } else if c.observations.len() > 0 {
        Some(
            validate::diag(
                "observations"@,
                "no bounded non-gating observation port exists for this fixture"@,
            ),
        )
    } else if links::links_error(c) is Some {
        links::links_error(c)
    } else if topology::flows_error(c) is Some {
        topology::flows_error(c)
    } else if !topology::acyclic(c) {
        Some(validate::diag("links"@, "declared session topology contains a cycle"@))
    } else if topology::reach_error_from(c, c.sources.len() as int) is Some {
        topology::reach_error_from(c, c.sources.len() as int)
    } else {
        groups::execution_groups_error(c)
    }
}

/// Whether a decoded session is admitted to the development profile.
pub open spec fn admitted(c: SConfig) -> bool {
    validation_error(c) is None
}

/// What parsing a relaxed SPA-JSON document gives: the admitted session it declares, or
/// the first diagnostic.
pub open spec fn parse_result(text: Seq<char>) -> Result<SConfig, DiagnosticView> {
    match model::configuration(text) {
        Err(d) => Err(d),
        Ok(c) => match validation_error(c) {
            Some(d) => Err(d),
            None => Ok(c),
        },
    }
}

/// The names of the nodes at the given positions of [`nodes`].
pub open spec fn names_at(c: SConfig, positions: Seq<int>) -> Seq<Seq<char>> {
    Seq::new(positions.len(), |i: int| node_names(c)[positions[i]])
}

/// The positions of the nodes, from `k` on, that are (`external`) or are not owned
/// elsewhere.
pub open spec fn positions_where(c: SConfig, external: bool, k: int) -> Seq<int>
    decreases node_count(c) - k,
{
    if k < 0 || k >= node_count(c) {
        Seq::empty()
    } else {
        let rest = positions_where(c, external, k + 1);
        if (nodes(c)[k].realization == SRealization::External) == external {
            seq![k] + rest
        } else {
            rest
        }
    }
}

/// The positions in `order` of the nodes that the runner owns.
pub open spec fn owned_in(c: SConfig, order: Seq<int>) -> Seq<int> {
    order.filter(owned_at(c))
}

/// Whether the node at a position of [`nodes`] is owned by the runner.
pub open spec fn owned_at(c: SConfig) -> spec_fn(int) -> bool {
    |k: int| nodes(c)[k].realization != SRealization::External
}

pub open spec fn texts(v: Seq<String>) -> Seq<Seq<char>> {
    config::texts_view(v)
}

impl DevelopmentConfig {
    /// Checks the complete-frame, non-actuating session contract and reports the first
    /// field-specific problem.
    pub fn validate(&self) -> (r: Result<(), ScientificDiagnostic>)
        ensures
            validate::check_result(r) == validation_error(self@),
    {
        let total = match self.sources.len().checked_add(self.graphs.len()) {
            None => None,
            Some(t) => t.checked_add(self.sinks.len()),
        };
        if total.is_none() {
            return Err(ScientificDiagnostic::from_parts(owned("configuration"), owned("the session declares more objects than this machine can count")));
        }
        if self.sources.len() == 0 {
            return Err(ScientificDiagnostic::from_parts(owned("sources"), owned("at least one complete-frame source is required")));
        }
        if self.graphs.len() == 0 {
            return Err(ScientificDiagnostic::from_parts(owned("graphs"), owned("at least one fgn-native graph is required")));
        }
        if self.sinks.len() == 0 {
            return Err(ScientificDiagnostic::from_parts(owned("sinks"), owned("at least one non-actuating sink is required")));
        }
        session::objects_check(self)?;
        if self.properties.len() > 0 {
            return Err(ScientificDiagnostic::from_parts(owned("properties"), owned("graph properties belong in the delegated filter.graph configuration")));
        }
        if self.parameters.len() > 0 {
            return Err(ScientificDiagnostic::from_parts(owned("parameters"), owned("this complete-frame fixture declares no runtime ndarray parameters")));
        }
        if self.observations.len() > 0 {
            return Err(ScientificDiagnostic::from_parts(owned("observations"), owned("no bounded non-gating observation port exists for this fixture")));
        }
        links::links_check(self)?;
        topology::flows_check(self)?;
        let order = topological_order_positions(self);
        if order.len() != session::count_nodes(self) {
            return Err(ScientificDiagnostic::from_parts(owned("links"), owned("declared session topology contains a cycle")));
        }
        topology::reach_check(self)?;
        groups::execution_groups_check(self)
    }

    /// Parses a relaxed SPA-JSON development configuration and admits it.
    pub fn parse(text: &str) -> (r: Result<DevelopmentConfig, ScientificDiagnostic>)
        ensures
            match r {
                Ok(c) => parse_result(text@) == Ok::<SConfig, DiagnosticView>(c@),
                Err(d) => parse_result(text@) == Err::<SConfig, DiagnosticView>(d@),
            },
    {
        let config = model::development_config(text)?;
        config.validate()?;
        Ok(config)
    }

    /// The number of declared objects.
    pub fn object_count(&self) -> (n: usize)
        requires
            node_count(self@) <= usize::MAX,
        ensures
            n == node_count(self@),
    {
        session::count_nodes(self)
    }

    /// The node names of every declared object: sources, then graphs, then sinks.
    pub fn node_names(&self) -> (r: Vec<String>)
        requires
            node_count(self@) <= usize::MAX,
        ensures
            texts(r@) == node_names(self@),
    {
        let n = session::count_nodes(self);
        let mut r: Vec<String> = Vec::new();
        let mut k: usize = 0;
        while k < n
            invariant
                n == node_count(self@),
                k <= n,
                texts(r@) == node_names(self@).take(k as int),
            decreases n - k,
        {
            let name = session::node_name_at(self, k).clone();
            let ghost before = r@;
            r.push(name);
            assert(r@ == before.push(name));
            assert(texts(before).len() == before.len());
            assert(before.len() == k);
            assert(texts(r@) =~= node_names(self@).take(k + 1)) by {
                assert forall|i: int| 0 <= i < k + 1 implies texts(r@)[i] == node_names(self@).take(k + 1)[i] by {
                    if i < k {
                        assert(texts(r@)[i] == r@[i]@);
                        assert(r@[i] == before[i]);
                        assert(texts(before)[i] == before[i]@);
                    }
                }
            }
            k = k + 1;
        }
        assert(node_names(self@).take(n as int) =~= node_names(self@));
        r
    }
}

fn positions_where_exec(c: &DevelopmentConfig, external: bool) -> (r: Vec<usize>)
    requires
        node_count(c@) <= usize::MAX,
    ensures
        r@.map_values(|k: usize| k as int) == positions_where(c@, external, 0),
{
    let n = session::count_nodes(c);
    let mut r: Vec<usize> = Vec::new();
    let mut k: usize = n;
    assert(r@.map_values(|k: usize| k as int) =~= positions_where(c@, external, n as int));
    while k > 0
        invariant
            n == node_count(c@),
            k <= n,
            r@.map_values(|k: usize| k as int) == positions_where(c@, external, k as int),
        decreases k,
    {
        k = k - 1;
        let ghost rest = r@.map_values(|k: usize| k as int);
        if session::node_is_external_at(c, k) == external {
            r.insert(0, k);
            assert(r@.map_values(|k: usize| k as int) =~= seq![k as int] + rest);
        }
    }
    r
}

/// The positions of the nodes in upstream-to-downstream order, for an admitted session.
pub fn topological_order_positions(c: &DevelopmentConfig) -> (r: Vec<usize>)
    requires
        node_count(c@) <= usize::MAX,
        links::links_error(c@) is None,
    ensures
        r@.map_values(|k: usize| k as int) == topology::topological_order(c@),
{
    topology::topological_order_exec(c)
}


/// The position of node `k` in `order`, from `i` on; the length of `order` when absent.
pub open spec fn position_in(order: Seq<int>, k: int, i: int) -> int
    decreases order.len() - i,
{
    if i < 0 || i >= order.len() {
        order.len() as int
    } else if order[i] == k {
        i
    } else {
        position_in(order, k, i + 1)
    }
}

/// The rank of link `i`: the place of its output node in the upstream-to-downstream order.
pub open spec fn link_rank(c: SConfig, i: int) -> int {
    position_in(topology::topological_order(c), topology::link_edges(c)[i].0, 0)
}

/// The links among the first `i` whose rank is `r`, in declaration order.
pub open spec fn links_at_rank(c: SConfig, r: int, i: int) -> Seq<int>
    decreases i,
{
    if i <= 0 {
        Seq::empty()
    } else {
        links_at_rank(c, r, i - 1) + if link_rank(c, i - 1) == r {
            seq![i - 1]
        } else {
            Seq::empty()
        }
    }
}

/// The links of the `m` highest ranks, highest first, each rank in declaration order.
pub open spec fn downstream_from_top(c: SConfig, m: int) -> Seq<int>
    decreases m,
{
    if m <= 0 {
        Seq::empty()
    } else {
        downstream_from_top(c, m - 1) + links_at_rank(
            c,
            node_count(c) - m,
            c.links.len() as int,
        )
    }
}

/// The positions of the declared links, those whose output node is furthest downstream
/// first; links of equal rank keep their declaration order.
pub open spec fn downstream_first(c: SConfig) -> Seq<int> {
    downstream_from_top(c, node_count(c) as int)
}

/// The positions in `order` of the nodes that group `j` names.
pub open spec fn group_members_in(c: SConfig, j: int, order: Seq<int>) -> Seq<int> {
    order.filter(member_of(c, j))
}

/// Whether the node at a position of [`nodes`] is named by group `j`.
pub open spec fn member_of(c: SConfig, j: int) -> spec_fn(int) -> bool {
    |k: int| groups::names_contain(c.groups[j].nodes, node_names(c)[k])
}

/// The first group, from `j` on, named `name`.
pub open spec fn group_named_from(c: SConfig, name: Seq<char>, j: int) -> Option<int>
    decreases c.groups.len() - j,
{
    if j < 0 || j >= c.groups.len() {
        None
    } else if c.groups[j].name == name {
        Some(j)
    } else {
        group_named_from(c, name, j + 1)
    }
}

/// The positions of the runner-owned sinks, from position `k` of [`nodes`] on, that group
/// `j` names.
pub open spec fn group_sinks_from(c: SConfig, j: int, k: int) -> Seq<int>
    decreases node_count(c) - k,
{
    if k < 0 || k >= node_count(c) {
        Seq::empty()
    } else {
        let rest = group_sinks_from(c, j, k + 1);
        if k >= c.sources.len() + c.graphs.len() && nodes(c)[k].realization
            != SRealization::External && groups::names_contain(
            c.groups[j].nodes,
            node_names(c)[k],
        ) {
            seq![k] + rest
        } else {
            rest
        }
    }
}

fn names_of(c: &DevelopmentConfig, positions: &Vec<usize>) -> (r: Vec<String>)
    requires
        node_count(c@) <= usize::MAX,
        forall|i: int| 0 <= i < positions.len() ==> positions@[i] < node_count(c@),
    ensures
        texts(r@) == names_at(c@, positions@.map_values(|k: usize| k as int)),
{
    let ghost pv = positions@.map_values(|k: usize| k as int);
    let mut r: Vec<String> = Vec::new();
    let mut i: usize = 0;
    while i < positions.len()
        invariant
            node_count(c@) <= usize::MAX,
            forall|j: int| 0 <= j < positions.len() ==> positions@[j] < node_count(c@),
            pv == positions@.map_values(|k: usize| k as int),
            i <= positions.len(),
            r.len() == i,
            forall|j: int| 0 <= j < i ==> r@[j]@ == node_names(c@)[pv[j]],
        decreases positions.len() - i,
    {
        r.push(session::node_name_at(c, positions[i]).clone());
        i = i + 1;
    }
    assert(texts(r@) =~= names_at(c@, pv));
    r
}

fn owned_filter(c: &DevelopmentConfig, order: &Vec<usize>) -> (r: Vec<usize>)
    requires
        node_count(c@) <= usize::MAX,
        forall|i: int| 0 <= i < order.len() ==> order@[i] < node_count(c@),
    ensures
        r@.map_values(|k: usize| k as int) == owned_in(c@, order@.map_values(|k: usize| k as int)),
        forall|i: int| 0 <= i < r.len() ==> r@[i] < node_count(c@),
{
    let ghost ov = order@.map_values(|k: usize| k as int);
    let mut r: Vec<usize> = Vec::new();
    let mut i: usize = 0;
    assert(ov.take(0).filter(owned_at(c@)) =~= Seq::<int>::empty());
    while i < order.len()
        invariant
            node_count(c@) <= usize::MAX,
            forall|j: int| 0 <= j < order.len() ==> order@[j] < node_count(c@),
            ov == order@.map_values(|k: usize| k as int),
            i <= order.len(),
            r@.map_values(|k: usize| k as int) == ov.take(i as int).filter(owned_at(c@)),
            forall|j: int| 0 <= j < r.len() ==> r@[j] < node_count(c@),
        decreases order.len() - i,
    {
        let ghost before = r@.map_values(|k: usize| k as int);
        assert(ov.take(i + 1) =~= ov.take(i as int).push(ov[i as int]));
        proof {
            ov.take(i as int).lemma_filter_push(ov[i as int], owned_at(c@));
        }
        if !session::node_is_external_at(c, order[i]) {
            r.push(order[i]);
            assert(r@.map_values(|k: usize| k as int) =~= before.push(order[i as int] as int));
        } else {
            assert(r@.map_values(|k: usize| k as int) =~= before);
        }
        i = i + 1;
    }
    assert(ov.take(order.len() as int) =~= ov);
    r
}

impl DevelopmentConfig {
    /// The number of objects that the runner creates and owns.
    pub fn owned_object_count(&self) -> (n: usize)
        requires
            node_count(self@) <= usize::MAX,
        ensures
            n == positions_where(self@, false, 0).len(),
    {
        positions_where_exec(self, false).len()
    }

    /// The node names of the objects that the runner owns, in declaration order.
    pub fn owned_node_names(&self) -> (r: Vec<String>)
        requires
            node_count(self@) <= usize::MAX,
        ensures
            texts(r@) == names_at(self@, positions_where(self@, false, 0)),
    {
        let positions = positions_where_exec(self, false);
        proof {
            lemma_positions_bounds(self@, false, 0);
        }
        assert(forall|i: int| 0 <= i < positions.len() ==> positions@[i] < node_count(self@)) by {
            assert forall|i: int| 0 <= i < positions.len() implies positions@[i] < node_count(self@) by {
                assert(positions@.map_values(|k: usize| k as int)[i] == positions@[i] as int);
            }
        }
        names_of(self, &positions)
    }

    /// The node names of the objects owned elsewhere, in declaration order.
    pub fn externally_owned_node_names(&self) -> (r: Vec<String>)
        requires
            node_count(self@) <= usize::MAX,
        ensures
            texts(r@) == names_at(self@, positions_where(self@, true, 0)),
    {
        let positions = positions_where_exec(self, true);
        proof {
            lemma_positions_bounds(self@, true, 0);
        }
        assert(forall|i: int| 0 <= i < positions.len() ==> positions@[i] < node_count(self@)) by {
            assert forall|i: int| 0 <= i < positions.len() implies positions@[i] < node_count(self@) by {
                assert(positions@.map_values(|k: usize| k as int)[i] == positions@[i] as int);
            }
        }
        names_of(self, &positions)
    }
}

pub proof fn lemma_positions_bounds(c: SConfig, external: bool, k: int)
    requires
        0 <= k,
    ensures
        forall|i: int|
            0 <= i < positions_where(c, external, k).len() ==> k <= #[trigger] positions_where(
                c,
                external,
                k,
            )[i] < node_count(c),
    decreases node_count(c) - k,
{
    if k < node_count(c) {
        lemma_positions_bounds(c, external, k + 1);
        let rest = positions_where(c, external, k + 1);
        if (nodes(c)[k].realization == SRealization::External) == external {
            assert forall|i: int| 0 <= i < positions_where(c, external, k).len() implies k
                <= #[trigger] positions_where(c, external, k)[i] < node_count(c) by {
                if i > 0 {
                    assert(positions_where(c, external, k)[i] == rest[i - 1]);
                }
            }
        }
    }
}


fn order_in_range(c: &DevelopmentConfig) -> (r: Vec<usize>)
    requires
        admitted(c@),
    ensures
        r@.map_values(|k: usize| k as int) == topology::topological_order(c@),
        forall|i: int| 0 <= i < r.len() ==> r@[i] < node_count(c@),
        node_count(c@) <= usize::MAX,
{
    let r = topological_order_positions(c);
    proof {
        topology::lemma_order_bounds(c@);
        assert forall|i: int| 0 <= i < r.len() implies r@[i] < node_count(c@) by {
            assert(r@.map_values(|k: usize| k as int)[i] == r@[i] as int);
        }
    }
    r
}

fn rank_exec(order: &Vec<usize>, k: usize) -> (r: usize)
    ensures
        r == position_in(order@.map_values(|x: usize| x as int), k as int, 0),
{
    let ghost ov = order@.map_values(|x: usize| x as int);
    let mut i: usize = 0;
    while i < order.len()
        invariant
            i <= order.len(),
            ov == order@.map_values(|x: usize| x as int),
            position_in(ov, k as int, i as int) == position_in(ov, k as int, 0),
        decreases order.len() - i,
    {
        if order[i] == k {
            return i;
        }
        i = i + 1;
    }
    order.len()
}

impl DevelopmentConfig {
    /// The node names in upstream-to-downstream order; callers may reverse it for a
    /// downstream-first start.
    pub fn topological_node_names(&self) -> (r: Vec<String>)
        requires
            admitted(self@),
        ensures
            texts(r@) == names_at(self@, topology::topological_order(self@)),
    {
        let order = order_in_range(self);
        names_of(self, &order)
    }

    /// The runner-owned node names in upstream-to-downstream order: the nodes whose run
    /// state the session commands.
    pub fn session_controlled_topological_node_names(&self) -> (r: Vec<String>)
        requires
            admitted(self@),
        ensures
            texts(r@) == names_at(self@, owned_in(self@, topology::topological_order(self@))),
    {
        let order = order_in_range(self);
        let owned = owned_filter(self, &order);
        names_of(self, &owned)
    }

    /// The declared links with their positions, those furthest downstream first.
    pub fn links_downstream_first(&self) -> (r: Vec<(usize, &LinkSpec)>)
        requires
            admitted(self@),
        ensures
            r@.len() == downstream_first(self@).len(),
            forall|i: int|
                0 <= i < r.len() ==> r@[i].0 == downstream_first(self@)[i] && r@[i].0
                    < self.links.len() && r@[i].1@ == self@.links[r@[i].0 as int],
    {
        let order = order_in_range(self);
        let edges = topology::link_edges_exec(self);
        let n = session::count_nodes(self);
        let ghost ov = order@.map_values(|x: usize| x as int);
        let mut ranks: Vec<usize> = Vec::new();
        let mut i: usize = 0;
        while i < edges.len()
            invariant
                admitted(self@),
                ov == order@.map_values(|x: usize| x as int),
                ov == topology::topological_order(self@),
                edges.len() == self@.links.len(),
                forall|j: int| 0 <= j < edges.len() ==> edges@[j].0 == topology::link_edges(self@)[j].0,
                i <= edges.len(),
                ranks.len() == i,
                forall|j: int| 0 <= j < i ==> ranks@[j] == link_rank(self@, j),
            decreases edges.len() - i,
        {
            ranks.push(rank_exec(&order, edges[i].0));
            i = i + 1;
        }
        let mut r: Vec<(usize, &LinkSpec)> = Vec::new();
        let mut m: usize = 0;
        while m < n
            invariant
                admitted(self@),
                n == node_count(self@),
                ranks.len() == self@.links.len(),
                self.links.len() == self@.links.len(),
                forall|j: int| 0 <= j < ranks.len() ==> ranks@[j] == link_rank(self@, j),
                m <= n,
                r.len() == downstream_from_top(self@, m as int).len(),
                forall|j: int|
                    0 <= j < r.len() ==> r@[j].0 == downstream_from_top(self@, m as int)[j]
                        && r@[j].0 < self.links.len() && r@[j].1@ == self@.links[r@[j].0 as int],
            decreases n - m,
        {
            let target = n - 1 - m;
            let ghost prefix = downstream_from_top(self@, m as int);
            let ghost start = r.len();
            let mut i: usize = 0;
            while i < ranks.len()
                invariant
                    ranks.len() == self@.links.len(),
                    self.links.len() == self@.links.len(),
                    forall|j: int| 0 <= j < ranks.len() ==> ranks@[j] == link_rank(self@, j),
                    i <= ranks.len(),
                    start == prefix.len(),
                    r.len() == prefix.len() + links_at_rank(self@, target as int, i as int).len(),
                    forall|j: int|
                        0 <= j < r.len() ==> r@[j].0 == (prefix + links_at_rank(self@, target as int, i as int))[j]
                            && r@[j].0 < self.links.len() && r@[j].1@ == self@.links[r@[j].0 as int],
                decreases ranks.len() - i,
            {
                let ghost before = links_at_rank(self@, target as int, i as int);
                if ranks[i] == target {
                    assert(self@.links[i as int] == self.links@[i as int]@);
                    let ghost old_r = r@;
                    r.push((i, &self.links[i]));
                    assert(links_at_rank(self@, target as int, i + 1) == before + seq![i as int]);
                    assert forall|j: int| 0 <= j < r.len() implies r@[j].0 == (prefix + links_at_rank(
                        self@,
                        target as int,
                        i + 1,
                    ))[j] && r@[j].0 < self.links.len() && r@[j].1@ == self@.links[r@[j].0 as int] by {
                        assert(prefix + links_at_rank(self@, target as int, i + 1) =~= (prefix + before).push(i as int));
                        if j < old_r.len() {
                            assert(r@[j] == old_r[j]);
                        }
                    }
                } else {
                    assert(links_at_rank(self@, target as int, i + 1) =~= before);
                }
                i = i + 1;
            }
            assert(downstream_from_top(self@, m + 1) == prefix + links_at_rank(
                self@,
                target as int,
                self@.links.len() as int,
            ));
            m = m + 1;
        }
        r
    }

    /// The names of the execution groups, in declaration order.
    pub fn execution_group_names(&self) -> (r: Vec<String>)
        ensures
            r.len() == self@.groups.len(),
            forall|j: int| 0 <= j < r.len() ==> r@[j]@ == self@.groups[j].name,
    {
        let mut r: Vec<String> = Vec::new();
        let mut j: usize = 0;
        while j < self.execution_groups.len()
            invariant
                j <= self.execution_groups.len(),
                r.len() == j,
                forall|i: int| 0 <= i < j ==> r@[i]@ == self@.groups[i].name,
            decreases self.execution_groups.len() - j,
        {
            assert(self@.groups[j as int] == self.execution_groups@[j as int]@);
            r.push(self.execution_groups[j].name.clone());
            j = j + 1;
        }
        r
    }
}


fn group_named_exec(c: &DevelopmentConfig, name: &str) -> (r: Option<usize>)
    ensures
        match group_named_from(c@, name@, 0) {
            None => r is None,
            Some(j) => r matches Some(x) && x == j,
        },
        r matches Some(x) ==> x < c.execution_groups.len(),
{
    let mut j: usize = 0;
    while j < c.execution_groups.len()
        invariant
            j <= c.execution_groups.len(),
            group_named_from(c@, name@, j as int) == group_named_from(c@, name@, 0),
        decreases c.execution_groups.len() - j,
    {
        assert(c@.groups[j as int] == c.execution_groups@[j as int]@);
        if is_text(&c.execution_groups[j].name, name) {
            return Some(j);
        }
        j = j + 1;
    }
    None
}

fn is_member_exec(c: &DevelopmentConfig, j: usize, k: usize) -> (r: bool)
    requires
        j < c.execution_groups.len(),
        k < node_count(c@),
    ensures
        r == member_of(c@, j as int)(k as int),
{
    let nodes_j = &c.execution_groups[j].nodes;
    assert(c@.groups[j as int] == c.execution_groups@[j as int]@);
    let name = session::node_name_at(c, k);
    let mut q: usize = 0;
    while q < nodes_j.len()
        invariant
            j < c.execution_groups.len(),
            c@.groups[j as int] == c.execution_groups@[j as int]@,
            nodes_j == &c.execution_groups@[j as int].nodes,
            name@ == node_names(c@)[k as int],
            q <= nodes_j.len(),
            forall|p: int| 0 <= p < q ==> c@.groups[j as int].nodes[p] != name@,
        decreases nodes_j.len() - q,
    {
        assert(c@.groups[j as int].nodes[q as int] == nodes_j@[q as int]@);
        if same_text(&nodes_j[q], name) {
            return true;
        }
        q = q + 1;
    }
    false
}

impl DevelopmentConfig {
    /// The nodes of the execution group `name` in upstream-to-downstream order, or `None`
    /// when no group has that name.
    pub fn execution_group_node_names(&self, name: &str) -> (r: Option<Vec<String>>)
        requires
            admitted(self@),
        ensures
            match group_named_from(self@, name@, 0) {
                None => r is None,
                Some(j) => r matches Some(v) && texts(v@) == names_at(
                    self@,
                    group_members_in(self@, j, topology::topological_order(self@)),
                ),
            },
    {
        let j = match group_named_exec(self, name) {
            None => {
                return None;
            },
            Some(j) => j,
        };
        let order = order_in_range(self);
        let ghost ov = order@.map_values(|k: usize| k as int);
        let mut members: Vec<usize> = Vec::new();
        let mut i: usize = 0;
        assert(ov.take(0).filter(member_of(self@, j as int)) =~= Seq::<int>::empty());
        while i < order.len()
            invariant
                node_count(self@) <= usize::MAX,
                j < self.execution_groups.len(),
                forall|p: int| 0 <= p < order.len() ==> order@[p] < node_count(self@),
                ov == order@.map_values(|k: usize| k as int),
                i <= order.len(),
                members@.map_values(|k: usize| k as int) == ov.take(i as int).filter(member_of(self@, j as int)),
                forall|p: int| 0 <= p < members.len() ==> members@[p] < node_count(self@),
            decreases order.len() - i,
        {
            let ghost before = members@.map_values(|k: usize| k as int);
            assert(ov.take(i + 1) =~= ov.take(i as int).push(ov[i as int]));
            proof {
                ov.take(i as int).lemma_filter_push(ov[i as int], member_of(self@, j as int));
            }
            if is_member_exec(self, j, order[i]) {
                members.push(order[i]);
                assert(members@.map_values(|k: usize| k as int) =~= before.push(order[i as int] as int));
            } else {
                assert(members@.map_values(|k: usize| k as int) =~= before);
            }
            i = i + 1;
        }
        assert(ov.take(order.len() as int) =~= ov);
        Some(names_of(self, &members))
    }

    /// The runner-owned sinks of the execution group `name`, in declaration order, or
    /// `None` when no group has that name.
    pub fn execution_group_sink_names(&self, name: &str) -> (r: Option<Vec<String>>)
        requires
            node_count(self@) <= usize::MAX,
        ensures
            match group_named_from(self@, name@, 0) {
                None => r is None,
                Some(j) => r matches Some(v) && texts(v@) == names_at(self@, group_sinks_from(self@, j, 0)),
            },
    {
        let j = match group_named_exec(self, name) {
            None => {
                return None;
            },
            Some(j) => j,
        };
        let n = session::count_nodes(self);
        let first_sink = self.sources.len() + self.graphs.len();
        let mut positions: Vec<usize> = Vec::new();
        let mut k: usize = n;
        assert(positions@.map_values(|k: usize| k as int) =~= group_sinks_from(self@, j as int, n as int));
        while k > 0
            invariant
                n == node_count(self@),
                first_sink == self@.sources.len() + self@.graphs.len(),
                j < self.execution_groups.len(),
                k <= n,
                positions@.map_values(|k: usize| k as int) == group_sinks_from(self@, j as int, k as int),
                forall|p: int| 0 <= p < positions.len() ==> positions@[p] < n,
            decreases k,
        {
            k = k - 1;
            let ghost rest = positions@.map_values(|k: usize| k as int);
            if k >= first_sink && !session::node_is_external_at(self, k) && is_member_exec(self, j, k) {
                positions.insert(0, k);
                assert(positions@.map_values(|k: usize| k as int) =~= seq![k as int] + rest);
            }
        }
        Some(names_of(self, &positions))
    }
}

} // verus!
