//! The node graph that the declared links form: producers, consumers, order and reachability.
use vstd::prelude::*;
use vstd::string::*;
use crate::config::{DevelopmentConfig, PortDirection, PortSpec, SConfig, SLink};
use crate::config;
use crate::decode;
use crate::diagnostic::{DiagnosticView, ScientificDiagnostic};
use crate::links;
use crate::links::{first_node, split_endpoint};
use crate::session::{node_count, nodes};
use crate::session;
use crate::text::{concat2, concat3, decimal_string, owned, same_text};
use crate::validate;

verus! {

broadcast use vstd::string::group_string_axioms;

// ----- Producers and consumers -----

pub open spec fn endpoint_text(node: Seq<char>, port: Seq<char>) -> Seq<char> {
    node + ":"@ + port
}

/// The number of links from `i` on whose input (`input`) or output endpoint is `e`.
pub open spec fn count_from(links: Seq<SLink>, e: Seq<char>, input: bool, i: int) -> nat
    decreases links.len() - i,
{
    if i < 0 || i >= links.len() {
        0
    } else {
        (if (if input { links[i].input } else { links[i].output }) == e {
            1nat
        } else {
            0nat
        }) + count_from(links, e, input, i + 1)
    }
}

/// The problem with port `p` of node `k`: an input without exactly one producer
/// (`producer`), or an output without a consumer.
pub open spec fn port_flow_error(c: SConfig, k: int, p: int, producer: bool) -> Option<DiagnosticView> {
    let port = nodes(c)[k].ports[p];
    let e = endpoint_text(nodes(c)[k].node_name, port.name);
    if producer {
        if port.direction == PortDirection::Input && count_from(c.links, e, true, 0) != 1 {
            Some(
                validate::diag(
                    "port "@ + e,
                    "input requires exactly one producer, got "@ + crate::text::decimal(
                        count_from(c.links, e, true, 0),
                    ),
                ),
            )
        } else {
            None
        }
    } else {
        if port.direction == PortDirection::Output && count_from(c.links, e, false, 0) == 0 {
            Some(validate::diag("port "@ + e, "output requires at least one declared consumer"@))
        } else {
            None
        }
    }
}

pub open spec fn node_flow_error_from(c: SConfig, k: int, p: int, producer: bool) -> Option<
    DiagnosticView,
>
    decreases nodes(c)[k].ports.len() - p,
{
    if p < 0 || p >= nodes(c)[k].ports.len() {
        None
    } else if port_flow_error(c, k, p, producer) is Some {
        port_flow_error(c, k, p, producer)
    } else {
        node_flow_error_from(c, k, p + 1, producer)
    }
}

pub open spec fn flow_error_from(c: SConfig, k: int, hi: int, producer: bool) -> Option<DiagnosticView>
    decreases hi - k,
{
    if k < 0 || k >= hi || k >= node_count(c) {
        None
    } else if node_flow_error_from(c, k, 0, producer) is Some {
        node_flow_error_from(c, k, 0, producer)
    } else {
        flow_error_from(c, k + 1, hi, producer)
    }
}

/// Every graph and sink input needs exactly one producer; every source and graph output
/// needs a consumer.
pub open spec fn flows_error(c: SConfig) -> Option<DiagnosticView> {
    let ns = c.sources.len() as int;
    let ng = c.graphs.len() as int;
    if flow_error_from(c, ns, node_count(c) as int, true) is Some {
        flow_error_from(c, ns, node_count(c) as int, true)
    } else {
        flow_error_from(c, 0, ns + ng, false)
    }
}

fn count_exec(links: &Vec<crate::config::LinkSpec>, e: &String, input: bool) -> (r: usize)
    ensures
        r == count_from(config::links_view(links@), e@, input, 0),
{
    let ghost lv = config::links_view(links@);
    let mut total: usize = 0;
    let mut i: usize = links.len();
    while i > 0
        invariant
            i <= links.len(),
            lv == config::links_view(links@),
            total == count_from(lv, e@, input, i as int),
            total <= links.len() - i,
        decreases i,
    {
        i = i - 1;
        assert(lv[i as int] == links@[i as int]@);
        let hit = if input {
            same_text(&links[i].input, e)
        } else {
            same_text(&links[i].output, e)
        };
        if hit {
            total = total + 1;
        }
    }
    total
}

fn node_flow_check(c: &DevelopmentConfig, k: usize, producer: bool) -> (r: Result<(), ScientificDiagnostic>)
    requires
        node_count(c@) <= usize::MAX,
        k < node_count(c@),
    ensures
        validate::check_result(r) == node_flow_error_from(c@, k as int, 0, producer),
{
    let name = session::node_name_at(c, k);
    let ports = session::node_ports_at(c, k);
    let mut p: usize = 0;
    while p < ports.len()
        invariant
            node_count(c@) <= usize::MAX,
            k < node_count(c@),
            name@ == nodes(c@)[k as int].node_name,
            config::ports_view(ports@) == nodes(c@)[k as int].ports,
            p <= ports.len(),
            node_flow_error_from(c@, k as int, p as int, producer) == node_flow_error_from(
                c@,
                k as int,
                0,
                producer,
            ),
        decreases ports.len() - p,
    {
        let port = &ports[p];
        assert(nodes(c@)[k as int].ports[p as int] == port@);
        let e = concat3(name.as_str(), ":", port.name.as_str());
        if producer {
            if port.direction == PortDirection::Input {
                let n = count_exec(&c.links, &e, true);
                if n != 1 {
                    let got = decimal_string(n);
                    return Err(ScientificDiagnostic::from_parts(concat2("port ", e.as_str()), concat2("input requires exactly one producer, got ", got.as_str())));
                }
            }
        } else {
            if port.direction == PortDirection::Output {
                let n = count_exec(&c.links, &e, false);
                if n == 0 {
                    return Err(ScientificDiagnostic::from_parts(concat2("port ", e.as_str()), owned("output requires at least one declared consumer")));
                }
            }
        }
        p = p + 1;
    }
    Ok(())
}

fn flow_check(c: &DevelopmentConfig, lo: usize, hi: usize, producer: bool) -> (r: Result<(), ScientificDiagnostic>)
    requires
        node_count(c@) <= usize::MAX,
        hi <= node_count(c@),
    ensures
        validate::check_result(r) == flow_error_from(c@, lo as int, hi as int, producer),
{
    let mut k: usize = lo;
    while k < hi
        invariant
            node_count(c@) <= usize::MAX,
            hi <= node_count(c@),
            lo <= k,
            flow_error_from(c@, k as int, hi as int, producer) == flow_error_from(
                c@,
                lo as int,
                hi as int,
                producer,
            ),
        decreases hi - k,
    {
        node_flow_check(c, k, producer)?;
        k = k + 1;
    }
    Ok(())
}

/// Checks that every input has exactly one producer and every output a consumer.
pub fn flows_check(c: &DevelopmentConfig) -> (r: Result<(), ScientificDiagnostic>)
    requires
        node_count(c@) <= usize::MAX,
    ensures
        validate::check_result(r) == flows_error(c@),
{
    let n = session::count_nodes(c);
    let ns = c.sources.len();
    let ng = c.graphs.len();
    flow_check(c, ns, n, true)?;
    flow_check(c, 0, ns + ng, false)
}


// ----- Node edges -----

/// The position in [`nodes`] of the node that an endpoint names, or -1.
pub open spec fn endpoint_node(c: SConfig, e: Seq<char>) -> int {
    match split_endpoint(e) {
        Ok(p) => match first_node(c, p.0) {
            Some(k) => k,
            None => -1,
        },
        Err(_) => -1,
    }
}

/// The node-to-node edge of every declared link, as positions in [`nodes`].
pub open spec fn link_edges(c: SConfig) -> Seq<(int, int)> {
    Seq::new(
        c.links.len(),
        |i: int| (endpoint_node(c, c.links[i].output), endpoint_node(c, c.links[i].input)),
    )
}

/// Whether every declared link passes its own checks.
pub open spec fn links_admitted(c: SConfig) -> bool {
    links::links_error(c) is None
}

pub proof fn lemma_links_admitted(c: SConfig, i: int)
    requires
        links_admitted(c),
        0 <= i < c.links.len(),
    ensures
        links::link_error(c, i) is None,
        0 <= endpoint_node(c, c.links[i].output) < node_count(c),
        0 <= endpoint_node(c, c.links[i].input) < node_count(c),
{
    lemma_links_from(c, 0, i);
    let l = c.links[i];
    let op = split_endpoint(l.output)->Ok_0;
    let ip = split_endpoint(l.input)->Ok_0;
    links::lemma_first_node_bounds(c, op.0, 0);
    links::lemma_first_node_bounds(c, ip.0, 0);
}

proof fn lemma_links_from(c: SConfig, k: int, i: int)
    requires
        0 <= k <= i < c.links.len(),
        links::links_error_from(c, k) is None,
    ensures
        links::link_error(c, i) is None,
    decreases i - k,
{
    if k < i {
        lemma_links_from(c, k + 1, i);
    }
}

/// The node edges of admitted links.
pub fn link_edges_exec(c: &DevelopmentConfig) -> (r: Vec<(usize, usize)>)
    requires
        node_count(c@) <= usize::MAX,
        links_admitted(c@),
    ensures
        r.len() == c@.links.len(),
        forall|i: int|
            0 <= i < r.len() ==> r@[i].0 == link_edges(c@)[i].0 && r@[i].1 == link_edges(c@)[i].1,
        forall|i: int| 0 <= i < r.len() ==> r@[i].0 < node_count(c@) && r@[i].1 < node_count(c@),
{
    let mut r: Vec<(usize, usize)> = Vec::new();
    let mut i: usize = 0;
    while i < c.links.len()
        invariant
            node_count(c@) <= usize::MAX,
            links_admitted(c@),
            i <= c.links.len(),
            r.len() == i,
            forall|j: int|
                0 <= j < i ==> r@[j].0 == link_edges(c@)[j].0 && r@[j].1 == link_edges(c@)[j].1,
            forall|j: int| 0 <= j < i ==> r@[j].0 < node_count(c@) && r@[j].1 < node_count(c@),
        decreases c.links.len() - i,
    {
        proof {
            lemma_links_admitted(c@, i as int);
        }
        let l = &c.links[i];
        assert(c@.links[i as int] == l@);
        let a = match links::split_endpoint_exec(&l.output) {
            Ok((node, _)) => links::first_node_exec(c, &node),
            Err(_) => None,
        };
        let b = match links::split_endpoint_exec(&l.input) {
            Ok((node, _)) => links::first_node_exec(c, &node),
            Err(_) => None,
        };
        match (a, b) {
            (Some(x), Some(y)) => {
                r.push((x, y));
            },
            _ => {
                assert(false);
            },
        }
        i = i + 1;
    }
    r
}

// ----- Upstream-to-downstream order -----

/// Whether node `k` is not yet emitted and every node with an edge into it is.
pub open spec fn ready(edges: Seq<(int, int)>, emitted: Seq<bool>, k: int) -> bool {
    &&& !emitted[k]
    &&& forall|i: int|
        0 <= i < edges.len() && #[trigger] edges[i].1 == k ==> 0 <= edges[i].0 < emitted.len()
            && emitted[edges[i].0]
}

/// The place of node `k` in `order` from `i` on; the length of `order` when absent.
pub open spec fn place_from(order: Seq<int>, k: int, i: int) -> int
    decreases order.len() - i,
{
    if i < 0 || i >= order.len() {
        order.len() as int
    } else if order[i] == k {
        i
    } else {
        place_from(order, k, i + 1)
    }
}

/// The step at which node `k` became ready, from edge `i` on: one past the latest place in
/// `order` of a node with an edge into it, 0 when there is none.
pub open spec fn ready_time_from(edges: Seq<(int, int)>, order: Seq<int>, k: int, i: int) -> int
    decreases edges.len() - i,
{
    if i < 0 || i >= edges.len() {
        0
    } else {
        let rest = ready_time_from(edges, order, k, i + 1);
        if edges[i].1 == k {
            let t = place_from(order, edges[i].0, 0) + 1;
            if t > rest {
                t
            } else {
                rest
            }
        } else {
            rest
        }
    }
}

pub open spec fn ready_time(edges: Seq<(int, int)>, order: Seq<int>, k: int) -> int {
    ready_time_from(edges, order, k, 0)
}

/// Whether ready node `k` is taken before ready node `j`: it became ready at an earlier
/// step, or at the same step under a name that sorts no later.
pub open spec fn taken_before(
    edges: Seq<(int, int)>,
    order: Seq<int>,
    names: Seq<Seq<char>>,
    k: int,
    j: int,
) -> bool {
    ||| ready_time(edges, order, k) < ready_time(edges, order, j)
    ||| (ready_time(edges, order, k) == ready_time(edges, order, j) && !validate::text_less(
        names[j],
        names[k],
    ))
}

/// The ready node, from `k` on, that is taken first.
pub open spec fn next_ready_from(
    edges: Seq<(int, int)>,
    emitted: Seq<bool>,
    order: Seq<int>,
    names: Seq<Seq<char>>,
    k: int,
) -> Option<int>
    decreases emitted.len() - k,
{
    if k < 0 || k >= emitted.len() {
        None
    } else {
        let rest = next_ready_from(edges, emitted, order, names, k + 1);
        if ready(edges, emitted, k) {
            match rest {
                None => Some(k),
                Some(j) => if taken_before(edges, order, names, k, j) {
                    Some(k)
                } else {
                    Some(j)
                },
            }
        } else {
            rest
        }
    }
}

/// Emits up to `fuel` more nodes after `order`, each time the ready node taken first: the
/// nodes are taken in the order in which they became ready, those that became ready
/// together in the order of their names.
pub open spec fn emit_order(
    edges: Seq<(int, int)>,
    names: Seq<Seq<char>>,
    emitted: Seq<bool>,
    order: Seq<int>,
    fuel: nat,
) -> Seq<int>
    decreases fuel,
{
    if fuel == 0 {
        order
    } else {
        match next_ready_from(edges, emitted, order, names, 0) {
            None => order,
            Some(k) => emit_order(edges, names, emitted.update(k, true), order.push(k), (fuel - 1) as nat),
        }
    }
}

/// The upstream-to-downstream order of the nodes, as positions in [`nodes`]: the nodes
/// without producers by name, then each node once all its producers are placed, in the
/// order in which nodes became ready and, among those that became ready together, by name.
pub open spec fn topological_order(c: SConfig) -> Seq<int> {
    emit_order(
        link_edges(c),
        session::node_names(c),
        Seq::new(node_count(c), |k: int| false),
        Seq::empty(),
        node_count(c),
    )
}

/// Whether every node finds its place in the order, that is, the links form no cycle.
pub open spec fn acyclic(c: SConfig) -> bool {
    topological_order(c).len() == node_count(c)
}

fn ready_exec(edges: &Vec<(usize, usize)>, emitted: &Vec<bool>, k: usize) -> (r: bool)
    requires
        k < emitted.len(),
        forall|i: int| 0 <= i < edges.len() ==> edges@[i].0 < emitted.len(),
    ensures
        r == ready(edges@.map_values(|e: (usize, usize)| (e.0 as int, e.1 as int)), emitted@, k as int),
{
    let ghost ev = edges@.map_values(|e: (usize, usize)| (e.0 as int, e.1 as int));
    if emitted[k] {
        return false;
    }
    let mut i: usize = 0;
    while i < edges.len()
        invariant
            k < emitted.len(),
            forall|j: int| 0 <= j < edges.len() ==> edges@[j].0 < emitted.len(),
            ev == edges@.map_values(|e: (usize, usize)| (e.0 as int, e.1 as int)),
            i <= edges.len(),
            forall|j: int|
                0 <= j < i && #[trigger] ev[j].1 == k ==> 0 <= ev[j].0 < emitted.len() && emitted@[ev[j].0],
        decreases edges.len() - i,
    {
        let (a, b) = edges[i];
        assert(ev[i as int] == (a as int, b as int));
        if b == k && !emitted[a] {
            return false;
        }
        i = i + 1;
    }
    true
}

fn place_exec(order: &Vec<usize>, k: usize) -> (r: usize)
    ensures
        r == place_from(order@.map_values(|x: usize| x as int), k as int, 0),
{
    let ghost ov = order@.map_values(|x: usize| x as int);
    let mut i: usize = 0;
    while i < order.len()
        invariant
            ov == order@.map_values(|x: usize| x as int),
            i <= order.len(),
            place_from(ov, k as int, i as int) == place_from(ov, k as int, 0),
        decreases order.len() - i,
    {
        if order[i] == k {
            return i;
        }
        i = i + 1;
    }
    order.len()
}

fn ready_time_exec(edges: &Vec<(usize, usize)>, order: &Vec<usize>, k: usize) -> (r: usize)
    requires
        order.len() < usize::MAX,
    ensures
        r == ready_time(
            edges@.map_values(|e: (usize, usize)| (e.0 as int, e.1 as int)),
            order@.map_values(|x: usize| x as int),
            k as int,
        ),
{
    let ghost ev = edges@.map_values(|e: (usize, usize)| (e.0 as int, e.1 as int));
    let ghost ov = order@.map_values(|x: usize| x as int);
    let mut i: usize = edges.len();
    let mut t: usize = 0;
    while i > 0
        invariant
            order.len() < usize::MAX,
            ev == edges@.map_values(|e: (usize, usize)| (e.0 as int, e.1 as int)),
            ov == order@.map_values(|x: usize| x as int),
            i <= edges.len(),
            t == ready_time_from(ev, ov, k as int, i as int),
            t <= order.len() + 1,
        decreases i,
    {
        i = i - 1;
        let (a, b) = edges[i];
        assert(ev[i as int] == (a as int, b as int));
        if b == k {
            let p = place_exec(order, a);
            proof {
                lemma_place_bound(ov, a as int, 0);
            }
            let candidate = p + 1;
            if candidate > t {
                t = candidate;
            }
        }
    }
    t
}

proof fn lemma_place_bound(order: Seq<int>, k: int, i: int)
    ensures
        place_from(order, k, i) <= order.len(),
    decreases order.len() - i,
{
    if 0 <= i < order.len() && order[i] != k {
        lemma_place_bound(order, k, i + 1);
    }
}

/// The upstream-to-downstream order of the nodes of `c` joined by `edges`.
fn order_exec(c: &DevelopmentConfig, edges: &Vec<(usize, usize)>, n: usize) -> (r: Vec<usize>)
    requires
        n == node_count(c@),
        forall|i: int| 0 <= i < edges.len() ==> edges@[i].0 < n,
    ensures
        r@.map_values(|k: usize| k as int) == emit_order(
            edges@.map_values(|e: (usize, usize)| (e.0 as int, e.1 as int)),
            session::node_names(c@),
            Seq::new(n as nat, |k: int| false),
            Seq::empty(),
            n as nat,
        ),
{
    let ghost ev = edges@.map_values(|e: (usize, usize)| (e.0 as int, e.1 as int));
    let ghost names = session::node_names(c@);
    let mut emitted: Vec<bool> = Vec::new();
    let mut j: usize = 0;
    while j < n
        invariant
            j <= n,
            emitted.len() == j,
            forall|i: int| 0 <= i < j ==> !emitted@[i],
        decreases n - j,
    {
        emitted.push(false);
        j = j + 1;
    }
    assert(emitted@ =~= Seq::new(n as nat, |k: int| false));
    let mut order: Vec<usize> = Vec::new();
    let mut fuel: usize = n;
    assert(order@.map_values(|k: usize| k as int) =~= Seq::<int>::empty());
    while fuel > 0
        invariant
            n == node_count(c@),
            names == session::node_names(c@),
            forall|i: int| 0 <= i < edges.len() ==> edges@[i].0 < n,
            ev == edges@.map_values(|e: (usize, usize)| (e.0 as int, e.1 as int)),
            emitted.len() == n,
            fuel <= n,
            order.len() + fuel == n,
            emit_order(ev, names, emitted@, order@.map_values(|k: usize| k as int), fuel as nat)
                == emit_order(ev, names, Seq::new(n as nat, |k: int| false), Seq::empty(), n as nat),
        decreases fuel,
    {
        let ghost ov = order@.map_values(|k: usize| k as int);
        let mut k: usize = n;
        let mut best: Option<usize> = None;
        while k > 0
            invariant
                n == node_count(c@),
                names == session::node_names(c@),
                forall|i: int| 0 <= i < edges.len() ==> edges@[i].0 < n,
                ev == edges@.map_values(|e: (usize, usize)| (e.0 as int, e.1 as int)),
                ov == order@.map_values(|k: usize| k as int),
                emitted.len() == n,
                order.len() < n,
                k <= n,
                match best {
                    None => next_ready_from(ev, emitted@, ov, names, k as int) is None,
                    Some(x) => next_ready_from(ev, emitted@, ov, names, k as int) == Some(x as int)
                        && x < n,
                },
            decreases k,
        {
            k = k - 1;
            if ready_exec(edges, &emitted, k) {
                best = match best {
                    None => Some(k),
                    Some(x) => {
                        let tk = ready_time_exec(edges, &order, k);
                        let tx = ready_time_exec(edges, &order, x);
                        let first = if tk < tx {
                            true
                        } else if tk == tx {
                            let nk = session::node_name_at(c, k);
                            let nx = session::node_name_at(c, x);
                            !validate::text_less_exec(nx.as_str(), nk.as_str())
                        } else {
                            false
                        };
                        assert(first == taken_before(ev, ov, names, k as int, x as int));
                        if first {
                            Some(k)
                        } else {
                            Some(x)
                        }
                    },
                };
            }
        }
        match best {
            None => {
                return order;
            },
            Some(x) => {
                let ghost before = order@.map_values(|k: usize| k as int);
                emitted.set(x, true);
                order.push(x);
                assert(order@.map_values(|k: usize| k as int) =~= before.push(x as int));
            },
        }
        fuel = fuel - 1;
    }
    order
}


/// The upstream-to-downstream order of the nodes of a session whose links are admitted.
pub fn topological_order_exec(c: &DevelopmentConfig) -> (r: Vec<usize>)
    requires
        node_count(c@) <= usize::MAX,
        links_admitted(c@),
    ensures
        r@.map_values(|k: usize| k as int) == topological_order(c@),
{
    let edges = link_edges_exec(c);
    assert(edges@.map_values(|e: (usize, usize)| (e.0 as int, e.1 as int)) =~= link_edges(c@));
    let n = session::count_nodes(c);
    order_exec(c, &edges, n)
}

// ----- Reachability -----

/// Whether an edge carries the mark of `r` to node `k`, along (`forward`) or against it.
pub open spec fn carries(e: (int, int), r: Seq<bool>, k: int, forward: bool) -> bool {
    if forward {
        e.1 == k && 0 <= e.0 < r.len() && r[e.0]
    } else {
        e.0 == k && 0 <= e.1 < r.len() && r[e.1]
    }
}

/// The marked nodes after one step along the edges.
pub open spec fn reach_step(edges: Seq<(int, int)>, r: Seq<bool>, forward: bool) -> Seq<bool> {
    Seq::new(
        r.len(),
        |k: int| r[k] || exists|i: int| 0 <= i < edges.len() && carries(#[trigger] edges[i], r, k, forward),
    )
}

/// The marked nodes after `n` steps.
pub open spec fn reach(edges: Seq<(int, int)>, r: Seq<bool>, forward: bool, n: nat) -> Seq<bool>
    decreases n,
{
    if n == 0 {
        r
    } else {
        reach(edges, reach_step(edges, r, forward), forward, (n - 1) as nat)
    }
}

pub proof fn lemma_reach_len(edges: Seq<(int, int)>, r: Seq<bool>, forward: bool, n: nat)
    ensures
        reach(edges, r, forward, n).len() == r.len(),
    decreases n,
{
    if n > 0 {
        lemma_reach_len(edges, reach_step(edges, r, forward), forward, (n - 1) as nat);
    }
}

/// The nodes reachable from a declared source.
pub open spec fn from_sources(c: SConfig) -> Seq<bool> {
    reach(
        link_edges(c),
        Seq::new(node_count(c), |k: int| k < c.sources.len()),
        true,
        node_count(c),
    )
}

/// The nodes from which a declared sink is reachable.
pub open spec fn to_sinks(c: SConfig) -> Seq<bool> {
    reach(
        link_edges(c),
        Seq::new(node_count(c), |k: int| k >= c.sources.len() + c.graphs.len()),
        false,
        node_count(c),
    )
}

/// The first graph, from position `k` on, that no source reaches or that reaches no sink.
pub open spec fn reach_error_from(c: SConfig, k: int) -> Option<DiagnosticView>
    decreases c.sources.len() + c.graphs.len() - k,
{
    if k < c.sources.len() || k >= c.sources.len() + c.graphs.len() {
        None
    } else if !from_sources(c)[k] {
        Some(
            validate::diag(
                "graph "@ + nodes(c)[k].node_name,
                "graph is not reachable from a declared source"@,
            ),
        )
    } else if !to_sinks(c)[k] {
        Some(
            validate::diag(
                "graph "@ + nodes(c)[k].node_name,
                "graph does not reach a declared non-actuating sink"@,
            ),
        )
    } else {
        reach_error_from(c, k + 1)
    }
}

fn reach_step_exec(edges: &Vec<(usize, usize)>, r: &Vec<bool>, forward: bool) -> (out: Vec<bool>)
    requires
        forall|i: int| 0 <= i < edges.len() ==> edges@[i].0 < r.len() && edges@[i].1 < r.len(),
    ensures
        out@ == reach_step(edges@.map_values(|e: (usize, usize)| (e.0 as int, e.1 as int)), r@, forward),
{
    let ghost ev = edges@.map_values(|e: (usize, usize)| (e.0 as int, e.1 as int));
    let mut out: Vec<bool> = r.clone();
    let mut i: usize = 0;
    while i < edges.len()
        invariant
            forall|j: int| 0 <= j < edges.len() ==> edges@[j].0 < r.len() && edges@[j].1 < r.len(),
            ev == edges@.map_values(|e: (usize, usize)| (e.0 as int, e.1 as int)),
            i <= edges.len(),
            out.len() == r.len(),
            forall|k: int|
                0 <= k < r.len() ==> out@[k] == (r@[k] || exists|j: int|
                    0 <= j < i && carries(#[trigger] ev[j], r@, k, forward)),
        decreases edges.len() - i,
    {
        let (a, b) = edges[i];
        assert(ev[i as int] == (a as int, b as int));
        let ghost prev = out@;
        if forward {
            if r[a] {
                out.set(b, true);
            }
        } else {
            if r[b] {
                out.set(a, true);
            }
        }
        assert forall|k: int| 0 <= k < r.len() implies out@[k] == (r@[k] || exists|j: int|
            0 <= j < i + 1 && carries(#[trigger] ev[j], r@, k, forward)) by {
            if carries(ev[i as int], r@, k, forward) {
                assert(out@[k]);
            } else {
                assert(out@[k] == prev[k]);
                if exists|j: int| 0 <= j < i + 1 && carries(#[trigger] ev[j], r@, k, forward) {
                    let j = choose|j: int| 0 <= j < i + 1 && carries(#[trigger] ev[j], r@, k, forward);
                    assert(j < i);
                }
            }
        }
        i = i + 1;
    }
    assert(out@ =~= reach_step(ev, r@, forward));
    out
}

fn reach_exec(edges: &Vec<(usize, usize)>, init: Vec<bool>, forward: bool) -> (out: Vec<bool>)
    requires
        forall|i: int| 0 <= i < edges.len() ==> edges@[i].0 < init.len() && edges@[i].1 < init.len(),
    ensures
        out@ == reach(
            edges@.map_values(|e: (usize, usize)| (e.0 as int, e.1 as int)),
            init@,
            forward,
            init.len() as nat,
        ),
{
    let ghost ev = edges@.map_values(|e: (usize, usize)| (e.0 as int, e.1 as int));
    let n = init.len();
    let mut r = init;
    let mut steps: usize = n;
    while steps > 0
        invariant
            r.len() == n,
            forall|i: int| 0 <= i < edges.len() ==> edges@[i].0 < n && edges@[i].1 < n,
            ev == edges@.map_values(|e: (usize, usize)| (e.0 as int, e.1 as int)),
            reach(ev, r@, forward, steps as nat) == reach(ev, init@, forward, n as nat),
        decreases steps,
    {
        let next = reach_step_exec(edges, &r, forward);
        r = next;
        steps = steps - 1;
    }
    r
}

/// Checks that a source reaches every graph and that every graph reaches a sink.
pub fn reach_check(c: &DevelopmentConfig) -> (r: Result<(), ScientificDiagnostic>)
    requires
        node_count(c@) <= usize::MAX,
        links_admitted(c@),
    ensures
        validate::check_result(r) == reach_error_from(c@, c@.sources.len() as int),
{
    let edges = link_edges_exec(c);
    let ghost ev = edges@.map_values(|e: (usize, usize)| (e.0 as int, e.1 as int));
    assert(ev =~= link_edges(c@));
    let n = session::count_nodes(c);
    let ns = c.sources.len();
    let ng = c.graphs.len();
    let mut sources_mask: Vec<bool> = Vec::new();
    let mut sinks_mask: Vec<bool> = Vec::new();
    let mut k: usize = 0;
    while k < n
        invariant
            n == node_count(c@),
            ns == c@.sources.len(),
            ng == c@.graphs.len(),
            k <= n,
            sources_mask.len() == k,
            sinks_mask.len() == k,
            forall|j: int| 0 <= j < k ==> sources_mask@[j] == (j < ns),
            forall|j: int| 0 <= j < k ==> sinks_mask@[j] == (j >= ns + ng),
        decreases n - k,
    {
        sources_mask.push(k < ns);
        sinks_mask.push(k >= ns + ng);
        k = k + 1;
    }
    assert(sources_mask@ =~= Seq::new(node_count(c@), |k: int| k < c@.sources.len()));
    assert(sinks_mask@ =~= Seq::new(node_count(c@), |k: int| k >= c@.sources.len() + c@.graphs.len()));
    let forward = reach_exec(&edges, sources_mask, true);
    let backward = reach_exec(&edges, sinks_mask, false);
    assert(forward@ == from_sources(c@));
    assert(backward@ == to_sinks(c@));
    proof {
        lemma_reach_len(ev, Seq::new(node_count(c@), |k: int| k < c@.sources.len()), true, node_count(c@));
        lemma_reach_len(ev, Seq::new(node_count(c@), |k: int| k >= c@.sources.len() + c@.graphs.len()), false, node_count(c@));
    }
    let mut g: usize = ns;
    while g < ns + ng
        invariant
            n == node_count(c@),
            node_count(c@) <= usize::MAX,
            ns == c@.sources.len(),
            ng == c@.graphs.len(),
            ns <= g <= ns + ng,
            forward@ == from_sources(c@),
            backward@ == to_sinks(c@),
            forward.len() == n,
            backward.len() == n,
            reach_error_from(c@, g as int) == reach_error_from(c@, ns as int),
        decreases ns + ng - g,
    {
        if !forward[g] {
            let name = session::node_name_at(c, g);
            return Err(ScientificDiagnostic::from_parts(concat2("graph ", name.as_str()), owned("graph is not reachable from a declared source")));
        }
        if !backward[g] {
            let name = session::node_name_at(c, g);
            return Err(ScientificDiagnostic::from_parts(concat2("graph ", name.as_str()), owned("graph does not reach a declared non-actuating sink")));
        }
        g = g + 1;
    }
    Ok(())
}


pub proof fn lemma_next_ready_bounds(
    edges: Seq<(int, int)>,
    emitted: Seq<bool>,
    order: Seq<int>,
    names: Seq<Seq<char>>,
    k: int,
)
    requires
        0 <= k,
    ensures
        match next_ready_from(edges, emitted, order, names, k) {
            Some(j) => k <= j < emitted.len() && ready(edges, emitted, j),
            None => forall|j: int| k <= j < emitted.len() ==> !ready(edges, emitted, j),
        },
    decreases emitted.len() - k,
{
    if k < emitted.len() {
        lemma_next_ready_bounds(edges, emitted, order, names, k + 1);
    }
}

pub proof fn lemma_emit_order_bounds(
    edges: Seq<(int, int)>,
    names: Seq<Seq<char>>,
    emitted: Seq<bool>,
    order: Seq<int>,
    fuel: nat,
)
    requires
        forall|i: int| 0 <= i < order.len() ==> 0 <= #[trigger] order[i] < emitted.len(),
    ensures
        forall|i: int|
            0 <= i < emit_order(edges, names, emitted, order, fuel).len() ==> 0 <= #[trigger] emit_order(
                edges,
                names,
                emitted,
                order,
                fuel,
            )[i] < emitted.len(),
    decreases fuel,
{
    if fuel > 0 {
        lemma_next_ready_bounds(edges, emitted, order, names, 0);
        match next_ready_from(edges, emitted, order, names, 0) {
            None => {},
            Some(k) => {
                let next = order.push(k);
                assert forall|i: int| 0 <= i < next.len() implies 0 <= #[trigger] next[i] < emitted.update(k, true).len() by {
                    if i < order.len() {
                        assert(next[i] == order[i]);
                    }
                }
                lemma_emit_order_bounds(edges, names, emitted.update(k, true), next, (fuel - 1) as nat);
                assert(emit_order(edges, names, emitted, order, fuel) == emit_order(
                    edges,
                    names,
                    emitted.update(k, true),
                    next,
                    (fuel - 1) as nat,
                ));
            },
        }
    }
}

/// Every position in the upstream-to-downstream order names a node.
pub proof fn lemma_order_bounds(c: SConfig)
    ensures
        forall|i: int|
            0 <= i < topological_order(c).len() ==> 0 <= #[trigger] topological_order(c)[i]
                < node_count(c),
{
    lemma_emit_order_bounds(
        link_edges(c),
        session::node_names(c),
        Seq::new(node_count(c), |k: int| false),
        Seq::empty(),
        node_count(c),
    );
}


// ----- The order is a permutation that respects every edge -----

/// What every prefix of the emitted order satisfies.
pub open spec fn order_invariant(edges: Seq<(int, int)>, emitted: Seq<bool>, order: Seq<int>) -> bool {
    &&& order.no_duplicates()
    &&& forall|i: int| 0 <= i < order.len() ==> 0 <= #[trigger] order[i] < emitted.len()
    &&& forall|k: int| 0 <= k < emitted.len() ==> (emitted[k] <==> order.contains(k))
    &&& forall|q: int, i: int|
        0 <= q < order.len() && 0 <= i < edges.len() && #[trigger] edges[i].1 == #[trigger] order[q]
            ==> exists|p: int| 0 <= p < q && order[p] == edges[i].0
}

/// Whether every edge joins two of the first `n` nodes.
pub open spec fn edges_within(edges: Seq<(int, int)>, n: int) -> bool {
    forall|i: int| 0 <= i < edges.len() ==> 0 <= #[trigger] edges[i].0 < n && 0 <= edges[i].1 < n
}

/// Whether every node outside `order` has an edge into it from another node outside it.
pub open spec fn stuck(edges: Seq<(int, int)>, order: Seq<int>, n: int) -> bool {
    forall|k: int|
        0 <= k < n && !order.contains(k) ==> exists|i: int|
            0 <= i < edges.len() && #[trigger] edges[i].1 == k && !order.contains(edges[i].0)
}

/// Whether `w` follows the edges backwards and returns where it started: each node of the
/// walk has an edge into it from the node after it, and the last node is the first.
pub open spec fn closed_walk(edges: Seq<(int, int)>, w: Seq<int>) -> bool {
    &&& w.len() >= 2
    &&& w[0] == w[w.len() - 1]
    &&& forall|t: int| 0 <= t < w.len() - 1 ==> linked(edges, w[t + 1], #[trigger] w[t])
}

/// Whether some edge goes from node `a` to node `b`.
pub open spec fn linked(edges: Seq<(int, int)>, a: int, b: int) -> bool {
    exists|i: int| 0 <= i < edges.len() && #[trigger] edges[i] == (a, b)
}

pub proof fn lemma_emit_order_invariant(
    edges: Seq<(int, int)>,
    names: Seq<Seq<char>>,
    emitted: Seq<bool>,
    order: Seq<int>,
    fuel: nat,
)
    requires
        order_invariant(edges, emitted, order),
    ensures
        ({
            let r = emit_order(edges, names, emitted, order, fuel);
            &&& r.no_duplicates()
            &&& forall|i: int| 0 <= i < r.len() ==> 0 <= #[trigger] r[i] < emitted.len()
            &&& forall|q: int, i: int|
                0 <= q < r.len() && 0 <= i < edges.len() && #[trigger] edges[i].1 == #[trigger] r[q]
                    ==> exists|p: int| 0 <= p < q && r[p] == edges[i].0
            &&& (order.len() + fuel >= emitted.len() && edges_within(edges, emitted.len() as int)
                && r.len() < emitted.len()) ==> stuck(edges, r, emitted.len() as int)
        }),
    decreases fuel,
{
    if fuel > 0 {
        lemma_next_ready_bounds(edges, emitted, order, names, 0);
        match next_ready_from(edges, emitted, order, names, 0) {
            None => {
                assert forall|k: int| 0 <= k < emitted.len() && !order.contains(k) implies exists|i: int|
                    0 <= i < edges.len() && #[trigger] edges[i].1 == k && !order.contains(edges[i].0) by {
                    assert(!emitted[k]);
                    assert(!ready(edges, emitted, k));
                    let i = choose|i: int|
                        0 <= i < edges.len() && #[trigger] edges[i].1 == k && !(0 <= edges[i].0
                            < emitted.len() && emitted[edges[i].0]);
                    if edges_within(edges, emitted.len() as int) {
                        assert(0 <= edges[i].0 < emitted.len());
                    }
                }
            },
            Some(k) => {
                let e2 = emitted.update(k, true);
                let o2 = order.push(k);
                assert(!order.contains(k));
                assert(o2.no_duplicates()) by {
                    assert forall|a: int, b: int| 0 <= a < o2.len() && 0 <= b < o2.len() && a != b implies o2[a] != o2[b] by {
                        if a < order.len() && b < order.len() {
                        } else if a == order.len() {
                            assert(o2[a] == k);
                            assert(o2[b] == order[b]);
                        } else {
                            assert(o2[b] == k);
                            assert(o2[a] == order[a]);
                        }
                    }
                }
                assert forall|j: int| 0 <= j < e2.len() implies (e2[j] <==> o2.contains(j)) by {
                    if j == k {
                        assert(o2[order.len() as int] == k);
                    } else {
                        if o2.contains(j) {
                            let w = choose|w: int| 0 <= w < o2.len() && o2[w] == j;
                            assert(w < order.len());
                            assert(order[w] == j);
                        }
                        if order.contains(j) {
                            let w = choose|w: int| 0 <= w < order.len() && order[w] == j;
                            assert(o2[w] == j);
                        }
                    }
                }
                assert forall|q: int, i: int|
                    0 <= q < o2.len() && 0 <= i < edges.len() && #[trigger] edges[i].1 == #[trigger] o2[q]
                        implies exists|p: int| 0 <= p < q && o2[p] == edges[i].0 by {
                    if q < order.len() {
                        assert(o2[q] == order[q]);
                        let p = choose|p: int| 0 <= p < q && order[p] == edges[i].0;
                        assert(o2[p] == order[p]);
                    } else {
                        assert(o2[q] == k);
                        assert(ready(edges, emitted, k));
                        assert(emitted[edges[i].0]);
                        assert(order.contains(edges[i].0));
                        let p = choose|p: int| 0 <= p < order.len() && order[p] == edges[i].0;
                        assert(o2[p] == order[p]);
                    }
                }
                assert forall|i: int| 0 <= i < o2.len() implies 0 <= #[trigger] o2[i] < e2.len() by {
                    if i < order.len() {
                        assert(o2[i] == order[i]);
                    }
                }
                lemma_emit_order_invariant(edges, names, e2, o2, (fuel - 1) as nat);
                assert(emit_order(edges, names, emitted, order, fuel) == emit_order(edges, names, e2, o2, (fuel - 1) as nat));
            },
        }
    }
}

} // verus!
