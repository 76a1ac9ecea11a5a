//! Properties that hold across calls: of every dispatch, of every parsed session.
use vstd::prelude::*;
use crate::dispatcher::{
    allocate, dispatch_spec, initial, prepare, prepare_and_handle, unload_origin, well_formed,
    SDispatcher,
};
use crate::dispatcher::{configured_group_names, group_lookup, stopped_groups};
use crate::lifecycle::{EffectOrigin, ExecutionGroupState};
use crate::diagnostic::DiagnosticView;
use crate::dispatcher::{empty_or_repeated, insert_place, supersedes};
use crate::validate::{text_less, text_less_from};
use crate::lifecycle::{
    completion_of, effect_kind, effect_origin, effect_target, effect_token, SInput, SResult, SSuccess,
    EffectKind, LifecycleState, SEffect, SEvent,
};
use crate::runner::runner_dispatch;
use crate::config::SConfig;
use crate::development::{admitted, downstream_first, downstream_from_top, link_rank, links_at_rank, parse_result, position_in, positions_where, validation_error};
use crate::session::node_count;
use crate::validate::{first_repeated_key, keys_distinct};
use crate::topology::{
    closed_walk, edges_within, emit_order, link_edges, linked, links_admitted, order_invariant,
    place_from, stuck, topological_order,
};
use crate::topology::acyclic;

verus! {

/// The dispatcher starts well formed.
pub proof fn lemma_initial_well_formed()
    ensures
        well_formed(initial()),
{
}

/// Every dispatch keeps the dispatcher well formed.
pub proof fn lemma_dispatch_keeps_well_formed(d: SDispatcher, e: SEvent)
    requires
        well_formed(d),
    ensures
        well_formed(dispatch_spec(d, e).0),
{
}

/// Tokens are never reused: the next token never decreases, and an emitted effect carries
/// the token that was next, after which the next token is larger.
pub proof fn lemma_tokens_increase(d: SDispatcher, e: SEvent)
    ensures
        dispatch_spec(d, e).0.next_token >= d.next_token,
        match dispatch_spec(d, e).1 {
            Ok((_, Some(effect))) => effect_token(effect) == d.next_token
                && dispatch_spec(d, e).0.next_token == d.next_token + 1,
            _ => true,
        },
{
}


/// Whether the lifecycle admits request `e` in the state of `d`.
pub open spec fn legal_request(d: SDispatcher, e: SEvent) -> bool {
    match (d.state, e) {
        (LifecycleState::Offline, SEvent::Load(_)) => true,
        (LifecycleState::Ready, SEvent::Start) => true,
        (LifecycleState::Ready, SEvent::Reload(_)) => true,
        (LifecycleState::Ready, SEvent::RequiredObjectFailed(_)) => true,
        (LifecycleState::Running, SEvent::Stop) => true,
        (LifecycleState::Running, SEvent::FiniteSourceCompleted) => true,
        (LifecycleState::Running, SEvent::RequiredObjectFailed(_)) => true,
        (LifecycleState::Running, SEvent::StartGroup(n)) => group_lookup(d.groups, n) == Some(
            ExecutionGroupState::Stopped,
        ),
        (LifecycleState::Running, SEvent::StopGroup(n)) => group_lookup(d.groups, n) == Some(
            ExecutionGroupState::Running,
        ),
        (LifecycleState::Fault, SEvent::Retry) => true,
        (LifecycleState::Offline, SEvent::Unload) => false,
        (_, SEvent::Unload) => true,
        _ => false,
    }
}

/// With no effect pending and tokens left, a request is accepted exactly when the
/// lifecycle admits it in the current state; in particular a faulted session can always
/// retry its last configuration.
pub proof fn lemma_legal_requests_accepted(d: SDispatcher, e: SEvent)
    requires
        well_formed(d),
        d.pending is None,
        !(e is EffectCompleted),
        d.next_token < u64::MAX,
    ensures
        dispatch_spec(d, e).1 is Ok <==> legal_request(d, e),
{
}

/// The dispatcher after the events `events`, dispatched in order from `d`.
pub open spec fn run(d: SDispatcher, events: Seq<SEvent>) -> SDispatcher
    decreases events.len(),
{
    if events.len() == 0 {
        d
    } else {
        dispatch_spec(run(d, events.drop_last()), events.last()).0
    }
}

/// The effect that the `i`-th of `events` emits, dispatched in order from `d`.
pub open spec fn emitted_at(d: SDispatcher, events: Seq<SEvent>, i: int) -> Option<SEffect> {
    match dispatch_spec(run(d, events.take(i)), events[i]).1 {
        Ok((_, Some(effect))) => Some(effect),
        _ => None,
    }
}

proof fn lemma_next_token_grows(d: SDispatcher, events: Seq<SEvent>, i: int, j: int)
    requires
        0 <= i <= j <= events.len(),
    ensures
        run(d, events.take(i)).next_token <= run(d, events.take(j)).next_token,
    decreases j - i,
{
    if i < j {
        lemma_next_token_grows(d, events, i, j - 1);
        assert(events.take(j).drop_last() =~= events.take(j - 1));
        lemma_tokens_increase(run(d, events.take(j - 1)), events[j - 1]);
    }
}

/// Over any sequence of dispatches, the effects handed out carry strictly increasing
/// tokens: a token, once handed out, never names a later effect.
pub proof fn lemma_tokens_increase_over_runs(d: SDispatcher, events: Seq<SEvent>, i: int, j: int)
    requires
        0 <= i < j < events.len(),
        emitted_at(d, events, i) is Some,
        emitted_at(d, events, j) is Some,
    ensures
        effect_token(emitted_at(d, events, i)->0) < effect_token(emitted_at(d, events, j)->0),
{
    lemma_tokens_increase(run(d, events.take(i)), events[i]);
    lemma_tokens_increase(run(d, events.take(j)), events[j]);
    assert(events.take(i + 1).drop_last() =~= events.take(i));
    assert(events.take(i + 1).last() == events[i]);
    lemma_next_token_grows(d, events, i + 1, j);
}

/// The state a request leaves the lifecycle in and the kind and origin of the effect it
/// emits, when the dispatcher accepts it with no effect pending.
pub open spec fn request_result(d: SDispatcher, e: SEvent) -> (LifecycleState, Option<(EffectKind, EffectOrigin)>) {
    match e {
        SEvent::Load(_) => (LifecycleState::Configuring, Some((EffectKind::Realize, EffectOrigin::OfflineLoad))),
        SEvent::Reload(_) => (LifecycleState::Configuring, Some((EffectKind::Realize, EffectOrigin::ReadyReload))),
        SEvent::Retry => (LifecycleState::Configuring, Some((EffectKind::Realize, EffectOrigin::FaultRetry))),
        SEvent::Start => (LifecycleState::Ready, Some((EffectKind::Start, EffectOrigin::ReadyStart))),
        SEvent::Stop => (LifecycleState::Running, Some((EffectKind::Stop, EffectOrigin::RunningStop))),
        SEvent::FiniteSourceCompleted => (
            LifecycleState::Running,
            Some((EffectKind::Stop, EffectOrigin::FiniteSourceCompletion)),
        ),
        SEvent::StartGroup(_) => (
            LifecycleState::Running,
            Some((EffectKind::StartExecutionGroup, EffectOrigin::RunningExecutionGroupStart)),
        ),
        SEvent::StopGroup(_) => (
            LifecycleState::Running,
            Some((EffectKind::StopExecutionGroup, EffectOrigin::RunningExecutionGroupStop)),
        ),
        SEvent::Unload => (d.state, Some((EffectKind::Cleanup, unload_origin(d.state)))),
        SEvent::RequiredObjectFailed(_) => (LifecycleState::Fault, None),
        SEvent::EffectCompleted(_) => (d.state, None),
    }
}

/// An accepted request, with no effect pending, leaves the lifecycle in the state of
/// [`request_result`] and emits the effect of that kind and origin under the next token; a
/// retry realizes the configuration last loaded, and a required-object failure records its
/// diagnostic.
pub proof fn lemma_accepted_request_outcome(d: SDispatcher, e: SEvent)
    requires
        well_formed(d),
        d.pending is None,
        !(e is EffectCompleted),
        dispatch_spec(d, e).1 is Ok,
    ensures
        ({
            let (d2, o) = dispatch_spec(d, e);
            &&& o matches Ok((s, effect)) && s == request_result(d, e).0 && d2.state == s
                && d2.pending == effect && match effect {
                None => request_result(d, e).1 is None,
                Some(p) => request_result(d, e).1 == Some((effect_kind(p), effect_origin(p)))
                    && effect_token(p) == d.next_token,
            }
            &&& e is Retry ==> (d2.pending matches Some(SEffect::Realize { config, .. }) && d.last_config
                == Some(config))
            &&& e matches SEvent::RequiredObjectFailed(x) ==> d2.diagnostic == Some(x)
        }),
{
}

/// A request that supersedes the pending effect (an unload, a required-object failure
/// while ready or running, or a session stop while group work is pending) is accepted and
/// removes that effect; a late completion of it is then refused without change.
pub proof fn lemma_superseding_request(
    d: SDispatcher,
    p: SEffect,
    e: SEvent,
    outcome: Result<SSuccess, DiagnosticView>,
)
    requires
        well_formed(d),
        d.pending == Some(p),
        !(e is EffectCompleted),
        supersedes(d, p, e),
        d.next_token < u64::MAX,
    ensures
        dispatch_spec(d, e).1 is Ok,
        dispatch_spec(d, e).0.pending != Some(p),
        dispatch_spec(dispatch_spec(d, e).0, SEvent::EffectCompleted(completion_of(p, outcome))).1 is Err,
        dispatch_spec(dispatch_spec(d, e).0, SEvent::EffectCompleted(completion_of(p, outcome))).0
            == dispatch_spec(d, e).0,
{
    let d1 = dispatch_spec(d, e).0;
    match d1.pending {
        None => {},
        Some(q) => {
            assert(effect_token(q) == d.next_token);
            lemma_mismatched_completion_refused(d1, completion_of(p, outcome));
        },
    }
}

/// While an effect is pending, every request that does not supersede it is refused and
/// changes nothing.
pub proof fn lemma_pending_blocks_requests(d: SDispatcher, p: SEffect, e: SEvent)
    requires
        d.pending == Some(p),
        !(e is EffectCompleted),
        !supersedes(d, p, e),
    ensures
        dispatch_spec(d, e).1 is Err,
        dispatch_spec(d, e).0 == d,
{
}

/// The state that the successful completion of an effect of kind `k` reaches.
pub open spec fn completed_state(k: EffectKind) -> LifecycleState {
    match k {
        EffectKind::Realize => LifecycleState::Ready,
        EffectKind::Start => LifecycleState::Running,
        EffectKind::Stop => LifecycleState::Ready,
        EffectKind::StartExecutionGroup => LifecycleState::Running,
        EffectKind::StopExecutionGroup => LifecycleState::Running,
        EffectKind::Cleanup => LifecycleState::Offline,
    }
}

/// Whether `outcome` is a well-formed report of effect `p`: a realization names distinct,
/// non-empty execution groups (or, for a resolved session, completes plainly), and every
/// other effect completes plainly.
pub open spec fn proper_outcome(d: SDispatcher, p: SEffect, outcome: Result<SSuccess, DiagnosticView>) -> bool {
    match outcome {
        Err(_) => true,
        Ok(SSuccess::Realized(names)) => effect_kind(p) == EffectKind::Realize && !empty_or_repeated(names),
        Ok(SSuccess::Completed) => effect_kind(p) != EffectKind::Realize || d.last_config matches Some(
            SInput::Resolved(_),
        ),
    }
}

/// The matching completion of the pending effect is accepted and leaves nothing pending:
/// success reaches the state of [`completed_state`] (a cleanup clears the diagnostic), and a
/// failure reaches `Fault` with the reported diagnostic.
pub proof fn lemma_completion_outcome(d: SDispatcher, p: SEffect, outcome: Result<SSuccess, DiagnosticView>)
    requires
        well_formed(d),
        d.pending == Some(p),
        proper_outcome(d, p, outcome),
    ensures
        ({
            let (d2, o) = dispatch_spec(d, SEvent::EffectCompleted(completion_of(p, outcome)));
            &&& o == Ok::<(LifecycleState, Option<SEffect>), Seq<char>>((d2.state, None))
            &&& d2.pending is None
            &&& match outcome {
                Ok(_) => d2.state == completed_state(effect_kind(p)) && (effect_kind(p)
                    == EffectKind::Cleanup ==> d2.diagnostic is None),
                Err(x) => d2.state == LifecycleState::Fault && d2.diagnostic == Some(x),
            }
        }),
{
}

proof fn lemma_text_less_asymmetric(a: Seq<char>, b: Seq<char>, k: int)
    requires
        0 <= k,
        text_less_from(a, b, k),
    ensures
        !text_less_from(b, a, k),
    decreases a.len() - k,
{
    if k < a.len() && k < b.len() && a[k] == b[k] {
        lemma_text_less_asymmetric(a, b, k + 1);
    }
}

proof fn lemma_text_less_transitive(a: Seq<char>, b: Seq<char>, c: Seq<char>, k: int)
    requires
        0 <= k,
        text_less_from(a, b, k),
        text_less_from(b, c, k),
    ensures
        text_less_from(a, c, k),
    decreases a.len() - k,
{
    if k < a.len() && k < b.len() && k < c.len() && a[k] == b[k] && b[k] == c[k] {
        lemma_text_less_transitive(a, b, c, k + 1);
    }
}

proof fn lemma_text_less_total(a: Seq<char>, b: Seq<char>, k: int)
    requires
        0 <= k,
        k <= a.len(),
        k <= b.len(),
        forall|j: int| 0 <= j < k ==> a[j] == b[j],
        a != b,
    ensures
        text_less_from(a, b, k) || text_less_from(b, a, k),
    decreases a.len() - k,
{
    if k == a.len() && k == b.len() {
        assert(a =~= b);
    } else if k < a.len() && k < b.len() && a[k] == b[k] {
        lemma_text_less_total(a, b, k + 1);
    } else if k < a.len() && k < b.len() {
        let x = a[k];
        let y = b[k];
        assert(x != y);
        vstd::utf8::char_u32_cast(x, x as u32);
        vstd::utf8::char_u32_cast(y, y as u32);
        assert((x as u32) != (y as u32));
    }
}

/// Whether the names of `groups` strictly increase in key order.
pub open spec fn names_sorted(groups: Seq<(Seq<char>, ExecutionGroupState)>) -> bool {
    forall|i: int, j: int| 0 <= i < j < groups.len() ==> text_less(groups[i].0, groups[j].0)
}

proof fn lemma_insert_place(groups: Seq<(Seq<char>, ExecutionGroupState)>, name: Seq<char>, j: int)
    requires
        0 <= j <= groups.len(),
        forall|i: int| 0 <= i < j ==> text_less(groups[i].0, name),
    ensures
        j <= insert_place(groups, name, j) <= groups.len(),
        forall|i: int| 0 <= i < insert_place(groups, name, j) ==> text_less(groups[i].0, name),
        insert_place(groups, name, j) < groups.len() ==> !text_less(
            groups[insert_place(groups, name, j)].0,
            name,
        ),
    decreases groups.len() - j,
{
    if j < groups.len() && text_less(groups[j].0, name) {
        lemma_insert_place(groups, name, j + 1);
    }
}

proof fn lemma_sorted_insert(groups: Seq<(Seq<char>, ExecutionGroupState)>, name: Seq<char>, s: ExecutionGroupState)
    requires
        names_sorted(groups),
        group_lookup(groups, name) is None,
    ensures
        names_sorted(groups.insert(insert_place(groups, name, 0), (name, s))),
{
    lemma_insert_place(groups, name, 0);
    let p = insert_place(groups, name, 0);
    let g2 = groups.insert(p, (name, s));
    assert forall|i: int| 0 <= i < groups.len() implies groups[i].0 != name by {
        lemma_lookup_absent(groups, name, 0, i);
    }
    if p < groups.len() {
        lemma_text_less_total(groups[p].0, name, 0);
    }
    assert forall|i: int, j: int| 0 <= i < j < g2.len() implies text_less(g2[i].0, g2[j].0) by {
        if j < p {
        } else if j == p {
            assert(g2[j].0 == name);
        } else if i == p {
            assert(g2[i].0 == name);
            assert(g2[j] == groups[j - 1]);
            if j - 1 > p {
                assert(text_less(groups[p].0, groups[j - 1].0));
                lemma_text_less_transitive(name, groups[p].0, groups[j - 1].0, 0);
            }
        } else if i < p {
            assert(g2[j] == groups[j - 1]);
        } else {
            assert(g2[i] == groups[i - 1]);
            assert(g2[j] == groups[j - 1]);
        }
    }
}

proof fn lemma_lookup_absent(groups: Seq<(Seq<char>, ExecutionGroupState)>, name: Seq<char>, k: int, i: int)
    requires
        0 <= k <= i < groups.len(),
        crate::dispatcher::group_lookup_from(groups, name, k) is None,
    ensures
        groups[i].0 != name,
    decreases i - k,
{
    if k < i {
        lemma_lookup_absent(groups, name, k + 1, i);
    }
}

/// The execution groups a realization creates are kept in key order of their names, each
/// name once, as an ordered map keeps them.
pub proof fn lemma_groups_sorted(names: Seq<Seq<char>>, i: int)
    ensures
        names_sorted(stopped_groups(names, i)),
    decreases i,
{
    if i > 0 {
        lemma_groups_sorted(names, i - 1);
        let before = stopped_groups(names, i - 1);
        if group_lookup(before, names[i - 1]) is None {
            lemma_sorted_insert(before, names[i - 1], ExecutionGroupState::Stopped);
        }
    }
}

proof fn lemma_lookup_set_named(
    g: Seq<(Seq<char>, ExecutionGroupState)>,
    n: Seq<char>,
    st: ExecutionGroupState,
    m: Seq<char>,
    i: int,
)
    requires
        0 <= i <= g.len(),
    ensures
        crate::dispatcher::group_lookup_from(crate::dispatcher::set_named(g, n, st), m, i) == (
        match crate::dispatcher::group_lookup_from(g, m, i) {
            Some(x) => if m == n {
                Some(st)
            } else {
                Some(x)
            },
            None => None,
        }),
    decreases g.len() - i,
{
    if i < g.len() {
        lemma_lookup_set_named(g, n, st, m, i + 1);
    }
}

proof fn lemma_lookup_set_all(
    g: Seq<(Seq<char>, ExecutionGroupState)>,
    st: ExecutionGroupState,
    m: Seq<char>,
    i: int,
)
    requires
        0 <= i <= g.len(),
    ensures
        crate::dispatcher::group_lookup_from(crate::dispatcher::set_all(g, st), m, i) == (
        match crate::dispatcher::group_lookup_from(g, m, i) {
            Some(_) => Some(st),
            None => None,
        }),
    decreases g.len() - i,
{
    if i < g.len() {
        lemma_lookup_set_all(g, st, m, i + 1);
    }
}

/// A successful completion of pending work sets the execution groups it acted on: a
/// started group runs and a stopped group stops, every other group keeping its state; a
/// started session runs every group and a stopped session stops every group. No group
/// appears or disappears.
pub proof fn lemma_completion_sets_group_states(d: SDispatcher, p: SEffect, m: Seq<char>)
    requires
        well_formed(d),
        d.pending == Some(p),
        effect_kind(p) != EffectKind::Realize,
        effect_kind(p) != EffectKind::Cleanup,
    ensures
        ({
            let d2 = dispatch_spec(d, SEvent::EffectCompleted(completion_of(p, Ok(SSuccess::Completed)))).0;
            let before = group_lookup(d.groups, m);
            let after = group_lookup(d2.groups, m);
            &&& (before is Some <==> after is Some)
            &&& before is Some ==> match p {
                SEffect::StartGroup { name, .. } => after == (if m == name {
                    Some(ExecutionGroupState::Running)
                } else {
                    before
                }),
                SEffect::StopGroup { name, .. } => after == (if m == name {
                    Some(ExecutionGroupState::Stopped)
                } else {
                    before
                }),
                SEffect::Start { .. } => after == Some(ExecutionGroupState::Running),
                SEffect::Stop { .. } => after == Some(ExecutionGroupState::Stopped),
                _ => true,
            }
        }),
{
    lemma_completion_outcome(d, p, Ok(SSuccess::Completed));
    match p {
        SEffect::StartGroup { name, .. } => {
            lemma_lookup_set_named(d.groups, name, ExecutionGroupState::Running, m, 0);
        },
        SEffect::StopGroup { name, .. } => {
            lemma_lookup_set_named(d.groups, name, ExecutionGroupState::Stopped, m, 0);
        },
        SEffect::Start { .. } => {
            lemma_lookup_set_all(d.groups, ExecutionGroupState::Running, m, 0);
        },
        SEffect::Stop { .. } => {
            lemma_lookup_set_all(d.groups, ExecutionGroupState::Stopped, m, 0);
        },
        _ => {},
    }
}

proof fn lemma_expected_args_present(
    args: Seq<(Seq<char>, Seq<char>)>,
    expected: Seq<(Seq<char>, Seq<char>)>,
    f: Seq<char>,
    k: int,
    j: int,
)
    requires
        0 <= k <= j < expected.len(),
        crate::validate::expected_args_error_from(args, expected, f, k) is None,
    ensures
        crate::validate::arg_lookup(args, expected[j].0) == Some(expected[j].1),
    decreases j - k,
{
    if k < j {
        lemma_expected_args_present(args, expected, f, k + 1, j);
    }
}

proof fn lemma_lookup_found(args: Seq<(Seq<char>, Seq<char>)>, name: Seq<char>, v: Seq<char>, i: int)
    requires
        0 <= i,
        crate::validate::arg_lookup_from(args, name, i) == Some(v),
    ensures
        exists|w: int| i <= w < args.len() && args[w] == (name, v),
    decreases args.len() - i,
{
    if i < args.len() && args[i].0 != name {
        lemma_lookup_found(args, name, v, i + 1);
    } else if i < args.len() {
        assert(args[i] == (name, v));
    }
}

/// The fixed factory arguments every recorded FITS source of this fixture carries.
pub open spec fn fits_fixed_arguments() -> Seq<(Seq<char>, Seq<char>)> {
    seq![
        ("api.fits.hdu"@, "1"@),
        ("api.fits.io-mode"@, "file"@),
        ("api.fits.loop"@, "true"@),
        ("api.fits.output-mode"@, "frame"@),
        ("api.fits.prefault"@, "false"@),
        ("api.fits.rate"@, "1000/1"@),
        ("api.fits.readiness"@, "timerfd"@),
        ("api.fits.sample-rank"@, "1"@),
    ]
}

/// Every runner-owned FITS source of an admitted session has one output port and
/// announces that port's schema: its factory arguments hold `api.fits.schema` with the
/// port's schema as value, together with every fixed argument of the fixture.
pub proof fn lemma_fits_sources_announce_their_schema(c: SConfig, k: int)
    requires
        admitted(c),
        0 <= k < c.sources.len(),
        c.sources[k].realization == crate::config::SRealization::Fits,
    ensures
        c.sources[k].ports.len() == 1,
        c.sources[k].ports[0].direction == crate::config::PortDirection::Output,
        exists|i: int|
            0 <= i < c.sources[k].args.len() && c.sources[k].args[i] == (
                "api.fits.schema"@,
                c.sources[k].ports[0].schema,
            ),
        forall|j: int|
            0 <= j < 8 ==> exists|i: int|
                0 <= i < c.sources[k].args.len() && c.sources[k].args[i] == #[trigger] fits_fixed_arguments()[j],
{
    lemma_object_admitted(c, 0, k);
    let o = c.sources[k];
    assert(crate::session::nodes(c)[k] == o);
    assert(crate::session::role_at(c, k) == crate::config::ObjectRole::Source);
    let f = crate::session::object_field(c, k);
    assert(crate::validate::fits_source_error(o, f) is None);
    assert(crate::validate::ports_error(f, o.ports, seq![crate::config::PortDirection::Output]) is None);
    assert(o.ports.len() == 1);
    assert(crate::validate::fits_args_error(o.args, o.ports[0].schema, f) is None);
    let expected = crate::validate::fits_expected(o.ports[0].schema);
    assert(crate::validate::expected_args_error_from(o.args, expected, f, 0) is None);
    lemma_expected_args_present(o.args, expected, f, 0, 8);
    assert(expected[8] == ("api.fits.schema"@, o.ports[0].schema));
    lemma_lookup_found(o.args, "api.fits.schema"@, o.ports[0].schema, 0);
    assert forall|j: int| 0 <= j < 8 implies exists|i: int|
        0 <= i < o.args.len() && o.args[i] == #[trigger] fits_fixed_arguments()[j] by {
        lemma_expected_args_present(o.args, expected, f, 0, j);
        assert(expected[j] == fits_fixed_arguments()[j]);
        lemma_lookup_found(o.args, expected[j].0, expected[j].1, 0);
    }
    assert(crate::validate::ports_error_from(f, o.ports, seq![crate::config::PortDirection::Output], 0) is None);
    assert(crate::validate::port_error(f, o.ports, seq![crate::config::PortDirection::Output], 0) is None);
}

/// A live port passes its contract only if it advertises exactly what was declared: an
/// EnumFormat object whose ndarray format has element type F32_LE, the declared shape
/// extent for extent, row-major layout, 1000/1 frames per second, and the declared schema
/// as its single fixed-string schema; a runner-owned sink port must instead advertise an
/// unconstrained EnumFormat object.
pub proof fn lemma_admitted_live_port_matches_declaration(
    role: crate::config::ObjectRole,
    owned_sink: bool,
    f: crate::port_contract::SFormat,
    port: crate::config::SPort,
)
    requires
        crate::port_contract::live_port_error(role, owned_sink, f, port) is None,
    ensures
        f.is_enum_format,
        role == crate::config::ObjectRole::Sink && owned_sink ==> f.property_count == 0,
        !(role == crate::config::ObjectRole::Sink && owned_sink) ==> {
            &&& f.ndarray is Ok
            &&& f.ndarray->Ok_0.element_type == "F32_LE"@
            &&& f.ndarray->Ok_0.shape.len() == port.shape.len()
            &&& forall|i: int| 0 <= i < port.shape.len() ==> f.ndarray->Ok_0.shape[i] == port.shape[i]
            &&& f.ndarray->Ok_0.row_major
            &&& f.ndarray->Ok_0.rate == Some((1000u32, 1u32))
            &&& f.schema_properties.len() == 1
            &&& f.schema_properties[0] == crate::port_contract::SProperty::Text(port.schema)
        },
{
}

/// A run-control request is built exactly for a positive token and a state that can be
/// asked for; it lists the version, the token and the requested state under their keys, and
/// the requested-state value reads back as the state that was asked for.
pub proof fn lemma_request_asks_for_its_state(token: i64, state: crate::run_control::RunState)
    ensures
        crate::run_control::request_fields(token, state) is Ok <==> (token > 0 && state
            != crate::run_control::RunState::Unknown),
        crate::run_control::request_fields(token, state) matches Ok(f) ==> {
            &&& f.len() == 6
            &&& f[0] == crate::run_control::SField::String("pipewireao.run-control.version"@)
            &&& f[1] == crate::run_control::SField::Int(1)
            &&& f[2] == crate::run_control::SField::String("pipewireao.run-control.request-token"@)
            &&& f[3] == crate::run_control::SField::Long(token)
            &&& f[4] == crate::run_control::SField::String("pipewireao.run-control.requested-state"@)
            &&& f[5] == crate::run_control::SField::String(
                if state == crate::run_control::RunState::Stopped {
                    "stopped"@
                } else {
                    "running"@
                },
            )
            &&& f[5] matches crate::run_control::SField::String(v)
                && crate::run_control::parse_run_state(v) == Ok::<crate::run_control::RunState, Seq<char>>(state)
        },
{
    reveal_strlit("unknown");
    reveal_strlit("stopped");
    reveal_strlit("running");
    assert("stopped"@[0] != "unknown"@[0]);
    assert("running"@[0] != "unknown"@[0]);
    assert("running"@[0] != "stopped"@[0]);
    match crate::run_control::request_fields(token, state) {
        Ok(f) => {
            assert(f[5] == crate::run_control::SField::String(crate::run_control::wire_name(state)));
            if state == crate::run_control::RunState::Stopped {
                assert(crate::run_control::wire_name(state) == "stopped"@);
            } else {
                assert(state == crate::run_control::RunState::Running);
                assert(crate::run_control::wire_name(state) == "running"@);
            }
        },
        Err(_) => {},
    }
}

/// A reported run-control status carries exactly the values of the status fields: the
/// version 1, the nonnegative Long after the completed-token key, the Int after the result
/// key, and the state named after the actual-state key.
pub proof fn lemma_status_reports_its_fields(
    p: crate::run_control::SProps,
    st: crate::run_control::RunControlStatus,
)
    requires
        crate::run_control::status(p) == Ok::<Option<crate::run_control::RunControlStatus>, Seq<char>>(Some(st)),
    ensures
        p.is_props,
        p.params.len() == 1,
        p.params[0] matches crate::run_control::SParams::Struct(f) && {
            &&& f.len() == 8
            &&& f[0] == crate::run_control::SField::String("pipewireao.run-control.version"@)
            &&& f[1] == crate::run_control::SField::Int(1)
            &&& f[2] == crate::run_control::SField::String("pipewireao.run-control.completed-token"@)
            &&& f[3] == crate::run_control::SField::Long(st.completed_token)
            &&& f[4] == crate::run_control::SField::String("pipewireao.run-control.result"@)
            &&& f[5] == crate::run_control::SField::Int(st.result)
            &&& f[6] == crate::run_control::SField::String("pipewireao.run-control.actual-state"@)
            &&& f[7] matches crate::run_control::SField::String(a)
                && crate::run_control::parse_run_state(a) == Ok::<crate::run_control::RunState, Seq<char>>(
                st.actual_state,
            )
        },
        st.completed_token >= 0,
{
}

/// A request that the dispatcher refuses changes neither the state, nor the pending
/// effect, nor the diagnostic, the configuration or the execution groups (it may have
/// used up a token).
pub proof fn lemma_refused_request_changes_nothing(d: SDispatcher, e: SEvent)
    requires
        well_formed(d),
        !(e is EffectCompleted),
        d.next_token < u64::MAX,
        dispatch_spec(d, e).1 is Err,
    ensures
        dispatch_spec(d, e).0.state == d.state,
        dispatch_spec(d, e).0.pending == d.pending,
        dispatch_spec(d, e).0.diagnostic == d.diagnostic,
        dispatch_spec(d, e).0.last_config == d.last_config,
        dispatch_spec(d, e).0.groups == d.groups,
{
}

/// A completion that the dispatcher refuses leaves it exactly as it was.
pub proof fn lemma_refused_completion_changes_nothing(d: SDispatcher, r: SResult)
    requires
        well_formed(d),
        dispatch_spec(d, SEvent::EffectCompleted(r)).1 is Err,
    ensures
        dispatch_spec(d, SEvent::EffectCompleted(r)).0 == d,
{
}

/// A stale, duplicate, wrong-kind, wrong-origin or wrong-target completion is refused.
pub proof fn lemma_mismatched_completion_refused(d: SDispatcher, r: SResult)
    requires
        match d.pending {
            None => true,
            Some(p) => r.token != effect_token(p) || r.kind != effect_kind(p) || r.origin
                != effect_origin(p) || r.target != effect_target(p),
        },
    ensures
        dispatch_spec(d, SEvent::EffectCompleted(r)).1 is Err,
        dispatch_spec(d, SEvent::EffectCompleted(r)).0 == d,
{
}

/// Every state below the managed superstate accepts an unload: it emits a cleanup with
/// the next token and an origin that names the state, and the state stays.
pub proof fn lemma_unload_accepted_when_managed(d: SDispatcher)
    requires
        well_formed(d),
        d.state != LifecycleState::Offline,
        d.next_token < u64::MAX,
    ensures
        dispatch_spec(d, SEvent::Unload).1 == Ok::<(LifecycleState, Option<SEffect>), Seq<char>>(
            (d.state, Some(SEffect::Cleanup { token: d.next_token, origin: unload_origin(d.state) })),
        ),
        dispatch_spec(d, SEvent::Unload).0.state == d.state,
{
}

/// A successful cleanup leaves the session offline, without diagnostic or groups.
pub proof fn lemma_cleanup_goes_offline(d: SDispatcher, p: SEffect)
    requires
        well_formed(d),
        d.pending == Some(p),
        p is Cleanup,
    ensures
        dispatch_spec(d, SEvent::EffectCompleted(completion_of(p, Ok(SSuccess::Completed)))).1
            == Ok::<(LifecycleState, Option<SEffect>), Seq<char>>((LifecycleState::Offline, None)),
        dispatch_spec(d, SEvent::EffectCompleted(completion_of(p, Ok(SSuccess::Completed)))).0.diagnostic
            is None,
        dispatch_spec(d, SEvent::EffectCompleted(completion_of(p, Ok(SSuccess::Completed)))).0.groups
            == Seq::<(Seq<char>, crate::lifecycle::ExecutionGroupState)>::empty(),
{
}

/// A successful realization of a resolved session makes the session ready with every
/// configured execution group stopped.
pub proof fn lemma_realization_stops_configured_groups(d: SDispatcher, p: SEffect)
    requires
        well_formed(d),
        d.pending == Some(p),
        p matches SEffect::Realize { config: SInput::Resolved(_), .. },
    ensures
        ({
            let c = p->Realize_config->Resolved_0;
            let (d2, o) = dispatch_spec(
                d,
                SEvent::EffectCompleted(completion_of(p, Ok(SSuccess::Completed))),
            );
            &&& o == Ok::<(LifecycleState, Option<SEffect>), Seq<char>>((LifecycleState::Ready, None))
            &&& d2.groups == stopped_groups(
                configured_group_names(c),
                configured_group_names(c).len() as int,
            )
            &&& d2.pending is None
        }),
{
}

/// A runner dispatch that succeeds leaves no effect pending: whatever an event emits is
/// executed and completed before the dispatch returns.
pub proof fn lemma_runner_leaves_nothing_pending<E: crate::runner::EffectExecutor>(
    d0: SDispatcher,
    e: SEvent,
    d: SDispatcher,
    s: LifecycleState,
    x0: E,
    x: E,
)
    requires
        runner_dispatch(d0, e, d, Ok(s), x0, x),
    ensures
        d.pending is None,
        s == d.state,
{
}


proof fn lemma_position_found(order: Seq<int>, k: int, i: int, w: int)
    requires
        0 <= i <= w < order.len(),
        order[w] == k,
    ensures
        i <= position_in(order, k, i) <= w,
        order[position_in(order, k, i)] == k,
    decreases w - i,
{
    if order[i] != k {
        lemma_position_found(order, k, i + 1, w);
    }
}

/// The upstream-to-downstream order of an admitted session names every node exactly
/// once, and the output node of every link comes before its input node.
pub proof fn lemma_topological_order(c: SConfig)
    requires
        admitted(c),
    ensures
        topological_order(c).len() == node_count(c),
        topological_order(c).no_duplicates(),
        forall|k: int| 0 <= k < node_count(c) ==> topological_order(c).contains(k),
        forall|i: int|
            0 <= i < c.links.len() ==> position_in(topological_order(c), link_edges(c)[i].0, 0)
                < position_in(topological_order(c), link_edges(c)[i].1, 0),
{
    let n = node_count(c);
    let edges = link_edges(c);
    let start = Seq::new(n, |k: int| false);
    let empty = Seq::<int>::empty();
    assert(crate::topology::order_invariant(edges, start, empty));
    crate::topology::lemma_emit_order_invariant(edges, crate::session::node_names(c), start, empty, n);
    let r = topological_order(c);
    assert(r.len() == n);
    assert forall|k: int| 0 <= k < n implies r.contains(k) by {
        r.unique_seq_to_set();
        vstd::set_lib::lemma_int_range(0, n as int);
        let range = vstd::set_lib::set_int_range(0, n as int);
        assert(r.to_set().subset_of(range)) by {
            assert forall|x: int| r.to_set().contains(x) implies range.contains(x) by {
                let w = choose|w: int| 0 <= w < r.len() && r[w] == x;
                assert(0 <= r[w] < n);
            }
        }
        vstd::set_lib::lemma_subset_equality(r.to_set(), range);
        assert(range.contains(k));
        assert(r.to_set().contains(k));
    }
    assert forall|i: int| 0 <= i < c.links.len() implies position_in(r, edges[i].0, 0) < position_in(
        r,
        edges[i].1,
        0,
    ) by {
        crate::topology::lemma_links_admitted(c, i);
        let b = edges[i].1;
        assert(r.contains(b));
        let wb = choose|w: int| 0 <= w < r.len() && r[w] == b;
        lemma_position_found(r, b, 0, wb);
        let q = position_in(r, b, 0);
        assert(r[q] == b);
        let p = choose|p: int| 0 <= p < q && r[p] == edges[i].0;
        lemma_position_found(r, edges[i].0, 0, p);
    }
}


/// Parsing returns only sessions that are admitted.
pub proof fn lemma_parsed_sessions_are_admitted(text: Seq<char>)
    ensures
        parse_result(text) matches Ok(c) ==> admitted(c) && validation_error(c) is None,
{
}

proof fn lemma_names_from(c: SConfig, k: int, i: int)
    requires
        0 <= k <= i < node_count(c),
        crate::session::objects_error_from(c, k) is None,
    ensures
        crate::session::node_name_error(c, i) is None,
    decreases i - k,
{
    if k < i {
        lemma_names_from(c, k + 1, i);
    }
}

/// The node names of an admitted session are pairwise distinct.
pub proof fn lemma_node_names_distinct(c: SConfig)
    requires
        admitted(c),
    ensures
        crate::session::node_names(c).no_duplicates(),
{
    let names = crate::session::node_names(c);
    assert forall|a: int, b: int| 0 <= a < names.len() && 0 <= b < names.len() && a != b implies names[a] != names[b] by {
        let (lo, hi) = if a < b { (a, b) } else { (b, a) };
        lemma_names_from(c, 0, hi);
        assert(crate::session::nodes(c)[lo].node_name == names[lo]);
        assert(crate::session::nodes(c)[hi].node_name == names[hi]);
    }
}

proof fn lemma_positions_count(c: SConfig, k: int)
    requires
        0 <= k <= node_count(c),
    ensures
        positions_where(c, false, k).len() + positions_where(c, true, k).len() == node_count(c) - k,
    decreases node_count(c) - k,
{
    if k < node_count(c) {
        lemma_positions_count(c, k + 1);
    }
}

proof fn lemma_no_repeated_key(args: Seq<(Seq<char>, Seq<char>)>, j: int)
    requires
        0 <= j <= args.len(),
        first_repeated_key(args, j) is None,
        forall|a: int, b: int| 0 <= a < b < j ==> args[a].0 != args[b].0,
    ensures
        keys_distinct(args),
    decreases args.len() - j,
{
    if j < args.len() {
        assert forall|a: int, b: int| 0 <= a < b < j + 1 implies args[a].0 != args[b].0 by {
            if b == j && args[a].0 == args[j].0 {
                assert(exists|i: int| 0 <= i < j && #[trigger] args[i].0 == args[j].0);
            }
        }
        lemma_no_repeated_key(args, j + 1);
    }
}

proof fn lemma_object_admitted(c: SConfig, i: int, k: int)
    requires
        0 <= i <= k < node_count(c),
        crate::session::objects_error_from(c, i) is None,
    ensures
        crate::validate::object_error(
            crate::session::role_at(c, k),
            crate::session::nodes(c)[k],
            crate::session::object_field(c, k),
        ) is None,
    decreases k - i,
{
    if i < k {
        lemma_object_admitted(c, i + 1, k);
    }
}

/// In an admitted session no map names a key twice: the factory arguments of every
/// object have distinct keys, and the property and parameter maps (which an admitted
/// session leaves empty) do too.
pub proof fn lemma_admitted_keys_distinct(c: SConfig, k: int)
    requires
        admitted(c),
        0 <= k < node_count(c),
    ensures
        keys_distinct(crate::session::nodes(c)[k].args),
        keys_distinct(c.properties),
        keys_distinct(c.parameters),
{
    lemma_object_admitted(c, 0, k);
    let o = crate::session::nodes(c)[k];
    if o.args.len() > 0 {
        lemma_no_repeated_key(o.args, 0);
    }
}

proof fn lemma_place_at(r: Seq<int>, q: int, i: int)
    requires
        r.no_duplicates(),
        0 <= i <= q < r.len(),
    ensures
        place_from(r, r[q], i) == q,
    decreases q - i,
{
    if i < q {
        assert(r[i] != r[q]);
        lemma_place_at(r, q, i + 1);
    }
}

proof fn lemma_edges_within(c: SConfig)
    requires
        links_admitted(c),
    ensures
        edges_within(link_edges(c), node_count(c) as int),
{
    assert forall|i: int| 0 <= i < link_edges(c).len() implies 0 <= #[trigger] link_edges(c)[i].0 < node_count(
        c,
    ) && 0 <= link_edges(c)[i].1 < node_count(c) by {
        crate::topology::lemma_links_admitted(c, i);
    }
}

proof fn lemma_covers_range(r: Seq<int>, n: int)
    requires
        0 <= n,
        r.no_duplicates(),
        forall|i: int| 0 <= i < r.len() ==> 0 <= #[trigger] r[i] < n,
    ensures
        r.len() <= n,
        r.len() == n ==> forall|k: int| 0 <= k < n ==> r.contains(k),
        r.len() < n ==> exists|k: int| 0 <= k < n && !r.contains(k),
{
    r.unique_seq_to_set();
    vstd::set_lib::lemma_int_range(0, n);
    let range = vstd::set_lib::set_int_range(0, n);
    assert(r.to_set().subset_of(range)) by {
        assert forall|x: int| r.to_set().contains(x) implies range.contains(x) by {
            let w = choose|w: int| 0 <= w < r.len() && r[w] == x;
            assert(0 <= r[w] < n);
        }
    }
    vstd::set_lib::lemma_len_subset(r.to_set(), range);
    if r.len() == n {
        vstd::set_lib::lemma_subset_equality(r.to_set(), range);
        assert forall|k: int| 0 <= k < n implies r.contains(k) by {
            assert(range.contains(k));
            assert(r.to_set().contains(k));
        }
    }
    if r.len() < n && forall|k: int| 0 <= k < n ==> r.contains(k) {
        assert(range.subset_of(r.to_set())) by {
            assert forall|x: int| range.contains(x) implies r.to_set().contains(x) by {
                assert(r.contains(x));
            }
        }
        vstd::set_lib::lemma_len_subset(range, r.to_set());
    }
}

/// A node outside `r` fed by another node outside `r`, as `stuck` promises.
spec fn feeder(edges: Seq<(int, int)>, r: Seq<int>, u: int) -> int {
    choose|p: int| #[trigger] linked(edges, p, u) && !r.contains(p)
}

/// The walk of `m` steps back from `u` through nodes outside `r`.
spec fn back_walk(edges: Seq<(int, int)>, r: Seq<int>, u: int, m: nat) -> Seq<int>
    decreases m,
{
    if m == 0 {
        seq![u]
    } else {
        seq![u] + back_walk(edges, r, feeder(edges, r, u), (m - 1) as nat)
    }
}

proof fn lemma_back_walk(edges: Seq<(int, int)>, r: Seq<int>, n: int, u: int, m: nat)
    requires
        stuck(edges, r, n),
        edges_within(edges, n),
        0 <= u < n,
        !r.contains(u),
    ensures
        back_walk(edges, r, u, m).len() == m + 1,
        back_walk(edges, r, u, m)[0] == u,
        forall|t: int| 0 <= t <= m ==> 0 <= #[trigger] back_walk(edges, r, u, m)[t] < n,
        forall|t: int|
            0 <= t < m ==> linked(edges, back_walk(edges, r, u, m)[t + 1], #[trigger] back_walk(edges, r, u, m)[t]),
    decreases m,
{
    if m > 0 {
        let i = choose|i: int| 0 <= i < edges.len() && #[trigger] edges[i].1 == u && !r.contains(edges[i].0);
        assert(edges[i] == (edges[i].0, u));
        assert(linked(edges, edges[i].0, u));
        let p = feeder(edges, r, u);
        assert(linked(edges, p, u) && !r.contains(p));
        let j = choose|j: int| 0 <= j < edges.len() && #[trigger] edges[j] == (p, u);
        assert(0 <= edges[j].0 < n);
        lemma_back_walk(edges, r, n, p, (m - 1) as nat);
        let rest = back_walk(edges, r, p, (m - 1) as nat);
        let w = back_walk(edges, r, u, m);
        assert(w == seq![u] + rest);
        assert forall|t: int| 0 <= t <= m implies 0 <= #[trigger] w[t] < n by {
            if t > 0 {
                assert(w[t] == rest[t - 1]);
            }
        }
        assert forall|t: int| 0 <= t < m implies linked(edges, w[t + 1], #[trigger] w[t]) by {
            if t == 0 {
                assert(w[1] == rest[0]);
                assert(edges[j] == (w[1], w[0]));
            } else {
                assert(w[t] == rest[t - 1]);
                assert(w[t + 1] == rest[t]);
            }
        }
    }
}

proof fn lemma_repeat(w: Seq<int>, n: int)
    requires
        0 <= n,
        w.len() == n + 1,
        forall|t: int| 0 <= t < w.len() ==> 0 <= #[trigger] w[t] < n,
    ensures
        exists|i: int, j: int| 0 <= i < j < w.len() && w[i] == w[j],
{
    if w.no_duplicates() {
        lemma_covers_range(w, n);
    } else {
        let (a, b) = choose|a: int, b: int| 0 <= a < w.len() && 0 <= b < w.len() && a != b && w[a] == w[b];
        if a < b {
            assert(w[a] == w[b]);
        } else {
            assert(w[b] == w[a]);
        }
    }
}

proof fn lemma_descends(r: Seq<int>, w: Seq<int>, t: int)
    requires
        1 <= t < w.len(),
        forall|s: int| 0 <= s < w.len() - 1 ==> place_from(r, w[s + 1], 0) < place_from(r, #[trigger] w[s], 0),
    ensures
        place_from(r, w[t], 0) < place_from(r, w[0], 0),
    decreases t,
{
    if t > 1 {
        lemma_descends(r, w, t - 1);
        assert(place_from(r, w[t], 0) < place_from(r, w[t - 1], 0));
    } else {
        assert(place_from(r, w[1], 0) < place_from(r, w[0], 0));
    }
}

proof fn lemma_order_facts(c: SConfig)
    requires
        links_admitted(c),
    ensures
        ({
            let r = topological_order(c);
            let n = node_count(c) as int;
            let edges = link_edges(c);
            &&& r.no_duplicates()
            &&& forall|i: int| 0 <= i < r.len() ==> 0 <= #[trigger] r[i] < n
            &&& forall|q: int, i: int|
                0 <= q < r.len() && 0 <= i < edges.len() && #[trigger] edges[i].1 == #[trigger] r[q]
                    ==> exists|p: int| 0 <= p < q && r[p] == edges[i].0
            &&& r.len() < n ==> stuck(edges, r, n)
            &&& edges_within(edges, n)
        }),
{
    let n = node_count(c);
    let edges = link_edges(c);
    let names = crate::session::node_names(c);
    let start = Seq::new(n, |k: int| false);
    let empty = Seq::<int>::empty();
    assert(order_invariant(edges, start, empty));
    crate::topology::lemma_emit_order_invariant(edges, names, start, empty, n);
    lemma_edges_within(c);
    assert(topological_order(c) == emit_order(edges, names, start, empty, n));
}

proof fn lemma_no_walk_when_ordered(c: SConfig, w: Seq<int>)
    requires
        links_admitted(c),
        acyclic(c),
    ensures
        !closed_walk(link_edges(c), w),
{
    let n = node_count(c);
    let edges = link_edges(c);
    lemma_order_facts(c);
    let r = topological_order(c);
    lemma_covers_range(r, n as int);
    if closed_walk(edges, w) {
        assert forall|s: int| 0 <= s < w.len() - 1 implies place_from(r, w[s + 1], 0) < place_from(
            r,
            #[trigger] w[s],
            0,
        ) by {
            assert(linked(edges, w[s + 1], w[s]));
            let i = choose|i: int| 0 <= i < edges.len() && #[trigger] edges[i] == (w[s + 1], w[s]);
            assert(0 <= edges[i].0 < n && 0 <= edges[i].1 < n);
            assert(r.contains(w[s]));
            let q = choose|q: int| 0 <= q < r.len() && r[q] == w[s];
            assert(edges[i].1 == r[q]);
            let p = choose|p: int| 0 <= p < q && r[p] == edges[i].0;
            lemma_place_at(r, q, 0);
            lemma_place_at(r, p, 0);
        }
        lemma_descends(r, w, w.len() - 1);
    }
}

#[verifier::spinoff_prover]
#[verifier::rlimit(40)]
proof fn lemma_closed_walk_from(edges: Seq<(int, int)>, r: Seq<int>, n: int, u: int) -> (cw: Seq<int>)
    requires
        stuck(edges, r, n),
        edges_within(edges, n),
        0 <= u < n,
        !r.contains(u),
    ensures
        closed_walk(edges, cw),
{
    lemma_back_walk(edges, r, n, u, n as nat);
    let w = back_walk(edges, r, u, n as nat);
    lemma_repeat(w, n);
    let (i, j) = choose|i: int, j: int| 0 <= i < j < w.len() && w[i] == w[j];
    let cw = w.subrange(i, j + 1);
    assert forall|t: int| 0 <= t < cw.len() - 1 implies linked(edges, cw[t + 1], #[trigger] cw[t]) by {
        assert(cw[t] == w[i + t]);
        assert(cw[t + 1] == w[i + t + 1]);
        assert(linked(edges, w[i + t + 1], w[i + t]));
    }
    cw
}

proof fn lemma_walk_when_unordered(c: SConfig) -> (w: Seq<int>)
    requires
        links_admitted(c),
        !acyclic(c),
    ensures
        closed_walk(link_edges(c), w),
{
    let n = node_count(c);
    lemma_order_facts(c);
    let r = topological_order(c);
    lemma_covers_range(r, n as int);
    let u = choose|k: int| 0 <= k < n && !r.contains(k);
    lemma_closed_walk_from(link_edges(c), r, n as int, u)
}

/// The links of a session whose links are admitted form no cycle exactly when the
/// upstream-to-downstream order places every node: the acyclicity check accepts a session
/// if and only if no walk along its links returns to where it started.
pub proof fn lemma_acyclic_means_no_cycle(c: SConfig)
    requires
        links_admitted(c),
    ensures
        acyclic(c) <==> !(exists|w: Seq<int>| closed_walk(link_edges(c), w)),
{
    if acyclic(c) {
        assert forall|w: Seq<int>| !closed_walk(link_edges(c), w) by {
            lemma_no_walk_when_ordered(c, w);
        }
    } else {
        let w = lemma_walk_when_unordered(c);
        assert(closed_walk(link_edges(c), w));
    }
}

/// Every object is either owned by the runner or owned elsewhere: the two counts add up
/// to the number of objects.
pub proof fn lemma_owned_and_external_partition(c: SConfig)
    ensures
        positions_where(c, false, 0).len() + positions_where(c, true, 0).len() == node_count(c),
{
    lemma_positions_count(c, 0);
}

proof fn lemma_links_at_rank(c: SConfig, r: int, i: int)
    requires
        0 <= i,
    ensures
        forall|x: int| #[trigger] links_at_rank(c, r, i).contains(x) <==> (0 <= x < i && link_rank(c, x) == r),
        forall|a: int, b: int|
            0 <= a < b < links_at_rank(c, r, i).len() ==> links_at_rank(c, r, i)[a] < links_at_rank(
                c,
                r,
                i,
            )[b],
    decreases i,
{
    if i > 0 {
        lemma_links_at_rank(c, r, i - 1);
        let before = links_at_rank(c, r, i - 1);
        let now = links_at_rank(c, r, i);
        if link_rank(c, i - 1) == r {
            assert(now == before + seq![i - 1]);
            assert forall|x: int| now.contains(x) <==> (0 <= x < i && link_rank(c, x) == r) by {
                if now.contains(x) {
                    let w = choose|w: int| 0 <= w < now.len() && now[w] == x;
                    if w < before.len() {
                        assert(before[w] == x);
                        assert(before.contains(x));
                    } else {
                        assert(x == i - 1);
                    }
                }
                if 0 <= x < i && link_rank(c, x) == r {
                    if x < i - 1 {
                        assert(before.contains(x));
                        let w = choose|w: int| 0 <= w < before.len() && before[w] == x;
                        assert(now[w] == x);
                    } else {
                        assert(now[before.len() as int] == x);
                    }
                }
            }
            assert forall|a: int, b: int| 0 <= a < b < now.len() implies now[a] < now[b] by {
                if b == before.len() {
                    assert(now[a] == before[a]);
                    assert(before.contains(before[a]));
                    assert(now[b] == i - 1);
                } else {
                    assert(now[a] == before[a] && now[b] == before[b]);
                }
            }
        } else {
            assert(now =~= before);
        }
    }
}

/// Every link of an admitted session has a rank, the place of its output node.
proof fn lemma_link_rank_bounds(c: SConfig, i: int)
    requires
        admitted(c),
        0 <= i < c.links.len(),
    ensures
        0 <= link_rank(c, i) < node_count(c),
{
    lemma_topological_order(c);
    crate::topology::lemma_links_admitted(c, i);
    let r = topological_order(c);
    let a = link_edges(c)[i].0;
    assert(r.contains(a));
    let w = choose|w: int| 0 <= w < r.len() && r[w] == a;
    lemma_position_found(r, a, 0, w);
}

proof fn lemma_downstream_from_top(c: SConfig, m: int)
    requires
        admitted(c),
        0 <= m <= node_count(c),
    ensures
        forall|x: int|
            #[trigger] downstream_from_top(c, m).contains(x) <==> (0 <= x < c.links.len() && node_count(c) - m
                <= link_rank(c, x)),
        downstream_from_top(c, m).no_duplicates(),
        forall|a: int, b: int|
            0 <= a < b < downstream_from_top(c, m).len() ==> link_rank(c, downstream_from_top(c, m)[a])
                >= link_rank(c, downstream_from_top(c, m)[b]),
        forall|a: int, b: int|
            0 <= a < b < downstream_from_top(c, m).len() && link_rank(c, downstream_from_top(c, m)[a])
                == link_rank(c, downstream_from_top(c, m)[b]) ==> downstream_from_top(c, m)[a]
                < downstream_from_top(c, m)[b],
    decreases m,
{
    let n = node_count(c);
    let l = c.links.len() as int;
    if m == 0 {
        assert forall|x: int| 0 <= x < l implies !(n - m <= link_rank(c, x)) by {
            lemma_link_rank_bounds(c, x);
        }
    } else {
        lemma_downstream_from_top(c, m - 1);
        lemma_links_at_rank(c, n - m, l);
        let before = downstream_from_top(c, m - 1);
        let tail = links_at_rank(c, n - m, l);
        let now = downstream_from_top(c, m);
        assert(now == before + tail);
        assert forall|x: int| now.contains(x) <==> (0 <= x < l && n - m <= link_rank(c, x)) by {
            if now.contains(x) {
                let w = choose|w: int| 0 <= w < now.len() && now[w] == x;
                if w < before.len() {
                    assert(before[w] == x);
                    assert(before.contains(x));
                } else {
                    assert(tail[w - before.len()] == x);
                    assert(tail.contains(x));
                }
            }
            if 0 <= x < l && n - m <= link_rank(c, x) {
                if link_rank(c, x) == n - m {
                    assert(tail.contains(x));
                    let w = choose|w: int| 0 <= w < tail.len() && tail[w] == x;
                    assert(now[before.len() + w] == x);
                } else {
                    assert(before.contains(x));
                    let w = choose|w: int| 0 <= w < before.len() && before[w] == x;
                    assert(now[w] == x);
                }
            }
        }
        assert forall|a: int, b: int| 0 <= a < now.len() && 0 <= b < now.len() && a != b implies now[a] != now[b] by {
            if a < before.len() && b < before.len() {
                assert(now[a] == before[a] && now[b] == before[b]);
            } else if a >= before.len() && b >= before.len() {
                assert(now[a] == tail[a - before.len()] && now[b] == tail[b - before.len()]);
            } else if a < before.len() {
                assert(now[a] == before[a]);
                assert(before.contains(before[a]));
                assert(now[b] == tail[b - before.len()]);
                assert(tail.contains(tail[b - before.len()]));
            } else {
                assert(now[b] == before[b]);
                assert(before.contains(before[b]));
                assert(now[a] == tail[a - before.len()]);
                assert(tail.contains(tail[a - before.len()]));
            }
        }
        assert forall|a: int, b: int| 0 <= a < b < now.len() implies link_rank(c, now[a]) >= link_rank(c, now[b]) by {
            if b < before.len() {
                assert(now[a] == before[a] && now[b] == before[b]);
            } else if a >= before.len() {
                assert(now[a] == tail[a - before.len()] && now[b] == tail[b - before.len()]);
                assert(tail.contains(tail[a - before.len()]));
                assert(tail.contains(tail[b - before.len()]));
            } else {
                assert(now[a] == before[a]);
                assert(before.contains(before[a]));
                assert(now[b] == tail[b - before.len()]);
                assert(tail.contains(tail[b - before.len()]));
            }
        }
        assert forall|a: int, b: int|
            0 <= a < b < now.len() && link_rank(c, now[a]) == link_rank(c, now[b]) implies now[a] < now[b] by {
            if b < before.len() {
                assert(now[a] == before[a] && now[b] == before[b]);
            } else if a >= before.len() {
                assert(now[a] == tail[a - before.len()] && now[b] == tail[b - before.len()]);
            } else {
                assert(now[a] == before[a]);
                assert(before.contains(before[a]));
                assert(now[b] == tail[b - before.len()]);
                assert(tail.contains(tail[b - before.len()]));
            }
        }
    }
}

/// The downstream-first order of an admitted session lists every link exactly once, a
/// link never comes before one whose output node lies further downstream, and links whose
/// output nodes share a place keep their declaration order.
pub proof fn lemma_links_downstream_first(c: SConfig)
    requires
        admitted(c),
    ensures
        downstream_first(c).len() == c.links.len(),
        downstream_first(c).no_duplicates(),
        forall|i: int| 0 <= i < c.links.len() ==> downstream_first(c).contains(i),
        forall|a: int, b: int|
            0 <= a < b < downstream_first(c).len() ==> link_rank(c, downstream_first(c)[a]) >= link_rank(
                c,
                downstream_first(c)[b],
            ),
        forall|a: int, b: int|
            0 <= a < b < downstream_first(c).len() && link_rank(c, downstream_first(c)[a]) == link_rank(
                c,
                downstream_first(c)[b],
            ) ==> downstream_first(c)[a] < downstream_first(c)[b],
{
    let n = node_count(c);
    lemma_downstream_from_top(c, n as int);
    let d = downstream_first(c);
    assert forall|i: int| 0 <= i < c.links.len() implies d.contains(i) by {
        lemma_link_rank_bounds(c, i);
    }
    d.unique_seq_to_set();
    vstd::set_lib::lemma_int_range(0, c.links.len() as int);
    let range = vstd::set_lib::set_int_range(0, c.links.len() as int);
    assert(d.to_set() =~= range);
}

} // verus!
