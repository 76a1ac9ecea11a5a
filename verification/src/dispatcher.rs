//! The lifecycle machine and the dispatcher that serializes events through it.
use vstd::prelude::*;
use vstd::string::*;
use crate::config::SConfig;
use crate::decode;
use crate::diagnostic::{DiagnosticView, ScientificDiagnostic};
use crate::lifecycle::{
    completion_of, effect_kind, effect_origin, effect_target, effect_token, ConfigurationInput,
    DispatchError, DispatchOutcome, EffectKind, EffectOrigin, EffectTarget, EffectToken,
    ExecutionGroupState, LifecycleEffect, LifecycleEffectResult, LifecycleEffectSuccess,
    LifecycleEvent, LifecycleState, SEffect, SEvent, SInput, SResult, SSuccess, STarget,
};
use crate::text::{concat2, concat3, decimal_u64, owned, same_text};

verus! {

broadcast use vstd::string::group_string_axioms;

// ----- Names used in refusals -----

pub open spec fn state_name(s: LifecycleState) -> Seq<char> {
    match s {
        LifecycleState::Offline => "Offline"@,
        LifecycleState::Configuring => "Configuring"@,
        LifecycleState::Ready => "Ready"@,
        LifecycleState::Running => "Running"@,
        LifecycleState::Fault => "Fault"@,
    }
}

pub fn state_name_exec(s: LifecycleState) -> (r: &'static str)
    ensures
        r@ == state_name(s),
{
    match s {
        LifecycleState::Offline => "Offline",
        LifecycleState::Configuring => "Configuring",
        LifecycleState::Ready => "Ready",
        LifecycleState::Running => "Running",
        LifecycleState::Fault => "Fault",
    }
}

pub open spec fn kind_name(k: EffectKind) -> Seq<char> {
    match k {
        EffectKind::Realize => "Realize"@,
        EffectKind::Start => "Start"@,
        EffectKind::Stop => "Stop"@,
        EffectKind::StartExecutionGroup => "StartExecutionGroup"@,
        EffectKind::StopExecutionGroup => "StopExecutionGroup"@,
        EffectKind::Cleanup => "Cleanup"@,
    }
}

fn kind_name_exec(k: EffectKind) -> (r: &'static str)
    ensures
        r@ == kind_name(k),
{
    match k {
        EffectKind::Realize => "Realize",
        EffectKind::Start => "Start",
        EffectKind::Stop => "Stop",
        EffectKind::StartExecutionGroup => "StartExecutionGroup",
        EffectKind::StopExecutionGroup => "StopExecutionGroup",
        EffectKind::Cleanup => "Cleanup",
    }
}

pub open spec fn origin_name(o: EffectOrigin) -> Seq<char> {
    match o {
        EffectOrigin::OfflineLoad => "OfflineLoad"@,
        EffectOrigin::ReadyReload => "ReadyReload"@,
        EffectOrigin::FaultRetry => "FaultRetry"@,
        EffectOrigin::ReadyStart => "ReadyStart"@,
        EffectOrigin::RunningStop => "RunningStop"@,
        EffectOrigin::RunningExecutionGroupStart => "RunningExecutionGroupStart"@,
        EffectOrigin::RunningExecutionGroupStop => "RunningExecutionGroupStop"@,
        EffectOrigin::FiniteSourceCompletion => "FiniteSourceCompletion"@,
        EffectOrigin::ConfiguringUnload => "ConfiguringUnload"@,
        EffectOrigin::ReadyUnload => "ReadyUnload"@,
        EffectOrigin::RunningUnload => "RunningUnload"@,
        EffectOrigin::FaultUnload => "FaultUnload"@,
    }
}

fn origin_name_exec(o: EffectOrigin) -> (r: &'static str)
    ensures
        r@ == origin_name(o),
{
    match o {
        EffectOrigin::OfflineLoad => "OfflineLoad",
        EffectOrigin::ReadyReload => "ReadyReload",
        EffectOrigin::FaultRetry => "FaultRetry",
        EffectOrigin::ReadyStart => "ReadyStart",
        EffectOrigin::RunningStop => "RunningStop",
        EffectOrigin::RunningExecutionGroupStart => "RunningExecutionGroupStart",
        EffectOrigin::RunningExecutionGroupStop => "RunningExecutionGroupStop",
        EffectOrigin::FiniteSourceCompletion => "FiniteSourceCompletion",
        EffectOrigin::ConfiguringUnload => "ConfiguringUnload",
        EffectOrigin::ReadyUnload => "ReadyUnload",
        EffectOrigin::RunningUnload => "RunningUnload",
        EffectOrigin::FaultUnload => "FaultUnload",
    }
}

pub open spec fn target_name(t: STarget) -> Seq<char> {
    match t {
        STarget::Session => "Session"@,
        STarget::Group(n) => "ExecutionGroup("@ + decode::quoted(n) + ")"@,
    }
}

fn target_name_exec(t: &EffectTarget) -> (r: String)
    ensures
        r@ == target_name(t@),
{
    match t {
        EffectTarget::Session => owned("Session"),
        EffectTarget::ExecutionGroup(n) => {
            let q = decode::quoted_text(n.as_str());
            concat3("ExecutionGroup(", q.as_str(), ")")
        },
    }
}

pub open spec fn group_state_name(s: ExecutionGroupState) -> Seq<char> {
    match s {
        ExecutionGroupState::Stopped => "Stopped"@,
        ExecutionGroupState::Running => "Running"@,
    }
}

/// The name of an event in refusals.
pub open spec fn event_name(e: SEvent) -> Seq<char> {
    match e {
        SEvent::Load(_) => "load"@,
        SEvent::Start => "start"@,
        SEvent::Stop => "stop"@,
        SEvent::StartGroup(_) => "start-execution-group"@,
        SEvent::StopGroup(_) => "stop-execution-group"@,
        SEvent::Reload(_) => "reload"@,
        SEvent::Retry => "retry"@,
        SEvent::Unload => "unload"@,
        SEvent::RequiredObjectFailed(_) => "required-object-failed"@,
        SEvent::FiniteSourceCompleted => "finite-source-completed"@,
        SEvent::EffectCompleted(_) => "effect-completed"@,
    }
}

fn event_name_exec(e: &LifecycleEvent) -> (r: &'static str)
    ensures
        r@ == event_name(e@),
{
    match e {
        LifecycleEvent::Load(_) => "load",
        LifecycleEvent::Start => "start",
        LifecycleEvent::Stop => "stop",
        LifecycleEvent::StartExecutionGroup(_) => "start-execution-group",
        LifecycleEvent::StopExecutionGroup(_) => "stop-execution-group",
        LifecycleEvent::Reload(_) => "reload",
        LifecycleEvent::Retry => "retry",
        LifecycleEvent::Unload => "unload",
        LifecycleEvent::RequiredObjectFailed(_) => "required-object-failed",
        LifecycleEvent::FiniteSourceCompleted => "finite-source-completed",
        LifecycleEvent::EffectCompleted(_) => "effect-completed",
    }
}

// ----- The hierarchical machine -----

/// What the machine receives: an event with the effect prepared for it.
pub enum SMachineEvent {
    Load(SEffect),
    Start(SEffect),
    Stop(SEffect),
    StartGroup(SEffect),
    StopGroup(SEffect),
    Reload(SEffect),
    Retry(SEffect),
    Unload(SEffect),
    RequiredObjectFailed(DiagnosticView),
    FiniteSourceCompleted(SEffect),
    EffectCompleted(SResult),
}

/// The machine after one event: its state and diagnostic, the effect it emitted, and
/// whether it refused the event.
pub struct SMachine {
    pub state: LifecycleState,
    pub diagnostic: Option<DiagnosticView>,
    pub emitted: Option<SEffect>,
    pub rejected: bool,
}

pub open spec fn emit(state: LifecycleState, diagnostic: Option<DiagnosticView>, e: SEffect) -> SMachine {
    SMachine { state, diagnostic, emitted: Some(e), rejected: false }
}

pub open spec fn reject(state: LifecycleState, diagnostic: Option<DiagnosticView>) -> SMachine {
    SMachine { state, diagnostic, emitted: None, rejected: true }
}

/// An accepted completion: success leads to `next`, failure to `Fault` with its
/// diagnostic.
pub open spec fn settle(diagnostic: Option<DiagnosticView>, r: SResult, next: LifecycleState) -> SMachine {
    match r.result {
        Ok(_) => SMachine { state: next, diagnostic, emitted: None, rejected: false },
        Err(d) => SMachine {
            state: LifecycleState::Fault,
            diagnostic: Some(d),
            emitted: None,
            rejected: false,
        },
    }
}

/// The superstate of every state but `Offline`: it handles unload and cleanup.
pub open spec fn managed(state: LifecycleState, diagnostic: Option<DiagnosticView>, e: SMachineEvent) -> SMachine {
    match e {
        SMachineEvent::Unload(x) => emit(state, diagnostic, x),
        SMachineEvent::EffectCompleted(r) => if r.kind == EffectKind::Cleanup {
            match r.result {
                Ok(_) => SMachine {
                    state: LifecycleState::Offline,
                    diagnostic: None,
                    emitted: None,
                    rejected: false,
                },
                Err(d) => SMachine {
                    state: LifecycleState::Fault,
                    diagnostic: Some(d),
                    emitted: None,
                    rejected: false,
                },
            }
        } else {
            reject(state, diagnostic)
        },
        _ => reject(state, diagnostic),
    }
}

/// One step of the lifecycle machine.
pub open spec fn machine_step(state: LifecycleState, diagnostic: Option<DiagnosticView>, e: SMachineEvent) -> SMachine {
    match state {
        LifecycleState::Offline => match e {
            SMachineEvent::Load(x) => emit(LifecycleState::Configuring, diagnostic, x),
            _ => reject(state, diagnostic),
        },
        LifecycleState::Configuring => match e {
            SMachineEvent::EffectCompleted(r) => if r.kind == EffectKind::Realize {
                settle(diagnostic, r, LifecycleState::Ready)
            } else {
                managed(state, diagnostic, e)
            },
            _ => managed(state, diagnostic, e),
        },
        LifecycleState::Ready => match e {
            SMachineEvent::Start(x) => emit(state, diagnostic, x),
            SMachineEvent::Reload(x) => emit(LifecycleState::Configuring, diagnostic, x),
            SMachineEvent::RequiredObjectFailed(d) => SMachine {
                state: LifecycleState::Fault,
                diagnostic: Some(d),
                emitted: None,
                rejected: false,
            },
            SMachineEvent::EffectCompleted(r) => if r.kind == EffectKind::Start {
                settle(diagnostic, r, LifecycleState::Running)
            } else {
                managed(state, diagnostic, e)
            },
            _ => managed(state, diagnostic, e),
        },
        LifecycleState::Running => match e {
            SMachineEvent::Stop(x) => emit(state, diagnostic, x),
            SMachineEvent::FiniteSourceCompleted(x) => emit(state, diagnostic, x),
            SMachineEvent::StartGroup(x) => emit(state, diagnostic, x),
            SMachineEvent::StopGroup(x) => emit(state, diagnostic, x),
            SMachineEvent::RequiredObjectFailed(d) => SMachine {
                state: LifecycleState::Fault,
                diagnostic: Some(d),
                emitted: None,
                rejected: false,
            },
            SMachineEvent::EffectCompleted(r) => if r.kind == EffectKind::Stop {
                settle(diagnostic, r, LifecycleState::Ready)
            } else if r.kind == EffectKind::StartExecutionGroup || r.kind
                == EffectKind::StopExecutionGroup {
                settle(diagnostic, r, LifecycleState::Running)
            } else {
                managed(state, diagnostic, e)
            },
            _ => managed(state, diagnostic, e),
        },
        LifecycleState::Fault => match e {
            SMachineEvent::Retry(x) => emit(LifecycleState::Configuring, diagnostic, x),
            _ => managed(state, diagnostic, e),
        },
    }
}

// ----- The dispatcher -----

/// The abstract dispatcher: the machine's state and diagnostic, the next token, the
/// pending effect, the configuration last realized, and the execution-group states.
pub struct SDispatcher {
    pub state: LifecycleState,
    pub diagnostic: Option<DiagnosticView>,
    pub next_token: u64,
    pub pending: Option<SEffect>,
    pub last_config: Option<SInput>,
    pub groups: Seq<(Seq<char>, ExecutionGroupState)>,
}

/// The outcome of a dispatch: the state and emitted effect, or the refusal's message.
pub type SOutcome = Result<(LifecycleState, Option<SEffect>), Seq<char>>;

pub open spec fn exhausted_message() -> Seq<char> {
    "lifecycle effect token space exhausted; tokens cannot be reused"@
}

/// The dispatcher with the next token taken, and that token.
pub open spec fn allocate(d: SDispatcher) -> (SDispatcher, Result<u64, Seq<char>>) {
    if d.next_token == u64::MAX {
        (d, Err(exhausted_message()))
    } else {
        (SDispatcher { next_token: (d.next_token + 1) as u64, ..d }, Ok(d.next_token))
    }
}

/// The state of the first group named `name`.
pub open spec fn group_lookup_from(groups: Seq<(Seq<char>, ExecutionGroupState)>, name: Seq<char>, i: int) -> Option<
    ExecutionGroupState,
>
    decreases groups.len() - i,
{
    if i < 0 || i >= groups.len() {
        None
    } else if groups[i].0 == name {
        Some(groups[i].1)
    } else {
        group_lookup_from(groups, name, i + 1)
    }
}

pub open spec fn group_lookup(groups: Seq<(Seq<char>, ExecutionGroupState)>, name: Seq<char>) -> Option<
    ExecutionGroupState,
> {
    group_lookup_from(groups, name, 0)
}

/// The machine event for a request on an execution group, with its effect prepared.
pub open spec fn prepare_group(d: SDispatcher, name: Seq<char>, start: bool) -> (SDispatcher, Result<
    SMachineEvent,
    Seq<char>,
>) {
    let what = if start { "start-execution-group"@ } else { "stop-execution-group"@ };
    if d.state != LifecycleState::Running {
        (d, Err("event "@ + what + " is invalid in "@ + state_name(d.state)))
    } else {
        match group_lookup(d.groups, name) {
            None => (d, Err("execution group "@ + decode::quoted(name) + " is not configured"@)),
            Some(current) => if current != (if start {
                ExecutionGroupState::Stopped
            } else {
                ExecutionGroupState::Running
            }) {
                (
                    d,
                    Err(
                        "execution group "@ + decode::quoted(name) + (if start {
                            " cannot start while "@
                        } else {
                            " cannot stop while "@
                        }) + group_state_name(current),
                    ),
                )
            } else {
                match allocate(d) {
                    (d1, Err(m)) => (d1, Err(m)),
                    (d1, Ok(t)) => (
                        d1,
                        Ok(
                            if start {
                                SMachineEvent::StartGroup(
                                    SEffect::StartGroup {
                                        token: t,
                                        origin: EffectOrigin::RunningExecutionGroupStart,
                                        name,
                                    },
                                )
                            } else {
                                SMachineEvent::StopGroup(
                                    SEffect::StopGroup {
                                        token: t,
                                        origin: EffectOrigin::RunningExecutionGroupStop,
                                        name,
                                    },
                                )
                            },
                        ),
                    ),
                }
            },
        }
    }
}

pub open spec fn unload_origin(s: LifecycleState) -> EffectOrigin {
    match s {
        LifecycleState::Configuring => EffectOrigin::ConfiguringUnload,
        LifecycleState::Offline => EffectOrigin::ConfiguringUnload,
        LifecycleState::Ready => EffectOrigin::ReadyUnload,
        LifecycleState::Running => EffectOrigin::RunningUnload,
        LifecycleState::Fault => EffectOrigin::FaultUnload,
    }
}

/// The machine event for a request, with its effect and token prepared.
pub open spec fn prepare(d: SDispatcher, e: SEvent) -> (SDispatcher, Result<SMachineEvent, Seq<char>>) {
    match e {
        SEvent::StartGroup(name) => prepare_group(d, name, true),
        SEvent::StopGroup(name) => prepare_group(d, name, false),
        SEvent::RequiredObjectFailed(x) => (d, Ok(SMachineEvent::RequiredObjectFailed(x))),
        SEvent::Retry => match d.last_config {
            None => (d, Err("retry rejected because no configuration has been loaded"@)),
            Some(c) => match allocate(d) {
                (d1, Err(m)) => (d1, Err(m)),
                (d1, Ok(t)) => (
                    d1,
                    Ok(
                        SMachineEvent::Retry(
                            SEffect::Realize { token: t, origin: EffectOrigin::FaultRetry, config: c },
                        ),
                    ),
                ),
            },
        },
        _ => match allocate(d) {
            (d1, Err(m)) => (d1, Err(m)),
            (d1, Ok(t)) => (d1, Ok(request_event(d.state, e, t))),
        },
    }
}

/// The machine event for a request that only needs a token.
pub open spec fn request_event(state: LifecycleState, e: SEvent, t: u64) -> SMachineEvent {
    match e {
        SEvent::Load(c) => SMachineEvent::Load(
            SEffect::Realize { token: t, origin: EffectOrigin::OfflineLoad, config: c },
        ),
        SEvent::Start => SMachineEvent::Start(
            SEffect::Start { token: t, origin: EffectOrigin::ReadyStart },
        ),
        SEvent::Stop => SMachineEvent::Stop(SEffect::Stop { token: t, origin: EffectOrigin::RunningStop }),
        SEvent::Reload(c) => SMachineEvent::Reload(
            SEffect::Realize { token: t, origin: EffectOrigin::ReadyReload, config: c },
        ),
        SEvent::Unload => SMachineEvent::Unload(
            SEffect::Cleanup { token: t, origin: unload_origin(state) },
        ),
        _ => SMachineEvent::FiniteSourceCompleted(
            SEffect::Stop { token: t, origin: EffectOrigin::FiniteSourceCompletion },
        ),
    }
}

/// Prepares a request and hands it to the machine.
pub open spec fn prepare_and_handle(d: SDispatcher, e: SEvent) -> (SDispatcher, SOutcome) {
    match prepare(d, e) {
        (d1, Err(m)) => (d1, Err(m)),
        (d1, Ok(me)) => {
            let m = machine_step(d1.state, d1.diagnostic, me);
            if m.rejected {
                (d1, Err("event "@ + event_name(e) + " is invalid in "@ + state_name(d1.state)))
            } else {
                (
                    SDispatcher {
                        state: m.state,
                        diagnostic: m.diagnostic,
                        pending: m.emitted,
                        last_config: match m.emitted {
                            Some(SEffect::Realize { config, .. }) => Some(config),
                            _ => d1.last_config,
                        },
                        ..d1
                    },
                    Ok((m.state, m.emitted)),
                )
            }
        },
    }
}

/// Whether a request replaces the pending effect instead of waiting for it.
pub open spec fn supersedes(d: SDispatcher, p: SEffect, e: SEvent) -> bool {
    ||| e is Unload
    ||| (e is RequiredObjectFailed && (d.state == LifecycleState::Ready || d.state
        == LifecycleState::Running))
    ||| ((effect_kind(p) == EffectKind::StartExecutionGroup || effect_kind(p)
        == EffectKind::StopExecutionGroup) && d.state == LifecycleState::Running && e is Stop)
}

/// Whether a sequence of names has an empty or a repeated name.
pub open spec fn empty_or_repeated(names: Seq<Seq<char>>) -> bool {
    exists|i: int, j: int|
        0 <= i < names.len() && 0 <= j < names.len() && (names[i].len() == 0 || (i < j
            && names[i] == names[j]))
}

/// The names of the groups of a configuration.
pub open spec fn configured_group_names(c: SConfig) -> Seq<Seq<char>> {
    Seq::new(c.groups.len(), |j: int| c.groups[j].name)
}

/// The execution groups that a completion realizes, if it is a realization.
pub open spec fn realized_groups(d: SDispatcher, r: SResult) -> Result<Option<Seq<Seq<char>>>, Seq<char>> {
    match r.result {
        Ok(SSuccess::Realized(names)) => if r.kind == EffectKind::Realize {
            if empty_or_repeated(names) {
                Err("realize completion contains an empty or duplicate execution-group name"@)
            } else {
                Ok(Some(names))
            }
        } else {
            Err("non-realize completion returned realized execution groups"@)
        },
        Ok(SSuccess::Completed) => if r.kind == EffectKind::Realize {
            match d.last_config {
                None => Err("realize completion has no configuration"@),
                Some(SInput::File(_)) => Err(
                    "file realization must return configured execution-group names"@,
                ),
                Some(SInput::Resolved(c)) => Ok(Some(configured_group_names(c))),
            }
        } else {
            Ok(None)
        },
        Err(_) => Ok(None),
    }
}

/// The place, from `j` on, of the first group whose name does not sort before `name`.
pub open spec fn insert_place(groups: Seq<(Seq<char>, ExecutionGroupState)>, name: Seq<char>, j: int) -> int
    decreases groups.len() - j,
{
    if j < 0 || j >= groups.len() {
        groups.len() as int
    } else if crate::validate::text_less(groups[j].0, name) {
        insert_place(groups, name, j + 1)
    } else {
        j
    }
}

/// Each distinct name among the first `i`, stopped, kept in the order of their names.
pub open spec fn stopped_groups(names: Seq<Seq<char>>, i: int) -> Seq<(Seq<char>, ExecutionGroupState)>
    decreases i,
{
    if i <= 0 {
        Seq::empty()
    } else {
        let before = stopped_groups(names, i - 1);
        if group_lookup(before, names[i - 1]) is Some {
            before
        } else {
            before.insert(insert_place(before, names[i - 1], 0), (names[i - 1], ExecutionGroupState::Stopped))
        }
    }
}

/// Every group set to `s`.
pub open spec fn set_all(groups: Seq<(Seq<char>, ExecutionGroupState)>, s: ExecutionGroupState) -> Seq<
    (Seq<char>, ExecutionGroupState),
> {
    Seq::new(groups.len(), |i: int| (groups[i].0, s))
}

/// The groups named `name` set to `s`.
pub open spec fn set_named(
    groups: Seq<(Seq<char>, ExecutionGroupState)>,
    name: Seq<char>,
    s: ExecutionGroupState,
) -> Seq<(Seq<char>, ExecutionGroupState)> {
    Seq::new(groups.len(), |i: int| if groups[i].0 == name { (groups[i].0, s) } else { groups[i] })
}

/// The execution-group states after a successful effect other than a realization.
pub open spec fn after_success(
    groups: Seq<(Seq<char>, ExecutionGroupState)>,
    kind: EffectKind,
    target: STarget,
) -> Seq<(Seq<char>, ExecutionGroupState)> {
    match target {
        STarget::Session => if kind == EffectKind::Start {
            set_all(groups, ExecutionGroupState::Running)
        } else if kind == EffectKind::Stop {
            set_all(groups, ExecutionGroupState::Stopped)
        } else if kind == EffectKind::Cleanup {
            Seq::empty()
        } else {
            groups
        },
        STarget::Group(name) => if kind == EffectKind::StartExecutionGroup {
            set_named(groups, name, ExecutionGroupState::Running)
        } else if kind == EffectKind::StopExecutionGroup {
            set_named(groups, name, ExecutionGroupState::Stopped)
        } else {
            groups
        },
    }
}

/// Handles the completion of the pending effect.
pub open spec fn complete(d: SDispatcher, r: SResult) -> (SDispatcher, SOutcome) {
    match d.pending {
        None => (
            d,
            Err(
                "stale or duplicate completion token "@ + crate::text::decimal(r.token as nat)
                    + " has no pending effect"@,
            ),
        ),
        Some(p) => if r.token != effect_token(p) {
            (
                d,
                Err(
                    "stale completion token "@ + crate::text::decimal(r.token as nat) + ", expected "@
                        + crate::text::decimal(effect_token(p) as nat),
                ),
            )
        } else if r.kind != effect_kind(p) {
            (
                d,
                Err(
                    "completion kind "@ + kind_name(r.kind) + " does not match pending "@ + kind_name(
                        effect_kind(p),
                    ),
                ),
            )
        } else if r.origin != effect_origin(p) {
            (
                d,
                Err(
                    "completion origin "@ + origin_name(r.origin) + " does not match pending "@
                        + origin_name(effect_origin(p)),
                ),
            )
        } else if r.target != effect_target(p) {
            (
                d,
                Err(
                    "completion target "@ + target_name(r.target) + " does not match pending "@
                        + target_name(effect_target(p)),
                ),
            )
        } else {
            match realized_groups(d, r) {
                Err(m) => (d, Err(m)),
                Ok(realized) => {
                    let m = machine_step(d.state, d.diagnostic, SMachineEvent::EffectCompleted(r));
                    if m.rejected {
                        (
                            SDispatcher { pending: None, ..d },
                            Err("validated completion was not accepted by the originating transition"@),
                        )
                    } else {
                        let groups = if r.kind == EffectKind::Realize {
                            match realized {
                                Some(names) => stopped_groups(names, names.len() as int),
                                None => Seq::empty(),
                            }
                        } else if r.result is Ok {
                            after_success(d.groups, r.kind, r.target)
                        } else {
                            d.groups
                        };
                        (
                            SDispatcher {
                                state: m.state,
                                diagnostic: m.diagnostic,
                                pending: None,
                                groups,
                                ..d
                            },
                            Ok((m.state, None)),
                        )
                    }
                },
            }
        },
    }
}

/// What one dispatch does to the dispatcher, and what it answers.
pub open spec fn dispatch_spec(d: SDispatcher, e: SEvent) -> (SDispatcher, SOutcome) {
    match e {
        SEvent::EffectCompleted(r) => complete(d, r),
        _ => match d.pending {
            Some(p) => if supersedes(d, p, e) {
                prepare_and_handle(SDispatcher { pending: None, ..d }, e)
            } else {
                (
                    d,
                    Err(
                        "event "@ + event_name(e) + " rejected while Some("@ + kind_name(
                            effect_kind(p),
                        ) + ") effect is pending"@,
                    ),
                )
            },
            None => prepare_and_handle(d, e),
        },
    }
}

/// The invariant of every reachable dispatcher: the pending effect was emitted with a
/// token below the next one, by the state the machine is in, and a pending realization
/// realizes the configuration last loaded.
pub open spec fn well_formed(d: SDispatcher) -> bool {
    &&& d.state != LifecycleState::Offline ==> d.last_config is Some
    &&& match d.pending {
        None => true,
        Some(p) => {
            &&& effect_token(p) < d.next_token
            &&& match p {
                SEffect::Realize { config, .. } => d.state == LifecycleState::Configuring
                    && d.last_config == Some(config),
                SEffect::Start { .. } => d.state == LifecycleState::Ready,
                SEffect::Stop { .. } => d.state == LifecycleState::Running,
                SEffect::StartGroup { .. } => d.state == LifecycleState::Running,
                SEffect::StopGroup { .. } => d.state == LifecycleState::Running,
                SEffect::Cleanup { .. } => d.state != LifecycleState::Offline,
            }
        },
    }
}

/// The dispatcher before any event.
pub open spec fn initial() -> SDispatcher {
    SDispatcher {
        state: LifecycleState::Offline,
        diagnostic: None,
        next_token: 1,
        pending: None,
        last_config: None,
        groups: Seq::empty(),
    }
}


// ----- The executable machine -----

enum MachineEvent {
    Load(LifecycleEffect),
    Start(LifecycleEffect),
    Stop(LifecycleEffect),
    StartGroup(LifecycleEffect),
    StopGroup(LifecycleEffect),
    Reload(LifecycleEffect),
    Retry(LifecycleEffect),
    Unload(LifecycleEffect),
    RequiredObjectFailed(ScientificDiagnostic),
    FiniteSourceCompleted(LifecycleEffect),
    EffectCompleted(LifecycleEffectResult),
}

impl View for MachineEvent {
    type V = SMachineEvent;

    closed spec fn view(&self) -> SMachineEvent {
        match self {
            MachineEvent::Load(x) => SMachineEvent::Load(x@),
            MachineEvent::Start(x) => SMachineEvent::Start(x@),
            MachineEvent::Stop(x) => SMachineEvent::Stop(x@),
            MachineEvent::StartGroup(x) => SMachineEvent::StartGroup(x@),
            MachineEvent::StopGroup(x) => SMachineEvent::StopGroup(x@),
            MachineEvent::Reload(x) => SMachineEvent::Reload(x@),
            MachineEvent::Retry(x) => SMachineEvent::Retry(x@),
            MachineEvent::Unload(x) => SMachineEvent::Unload(x@),
            MachineEvent::RequiredObjectFailed(d) => SMachineEvent::RequiredObjectFailed(d@),
            MachineEvent::FiniteSourceCompleted(x) => SMachineEvent::FiniteSourceCompleted(x@),
            MachineEvent::EffectCompleted(r) => SMachineEvent::EffectCompleted(r@),
        }
    }
}

struct Machine {
    state: LifecycleState,
    diagnostic: Option<ScientificDiagnostic>,
    emitted: Option<LifecycleEffect>,
    rejected: bool,
}

pub open spec fn opt_diag(d: Option<ScientificDiagnostic>) -> Option<DiagnosticView> {
    match d {
        Some(x) => Some(x@),
        None => None,
    }
}

pub open spec fn opt_effect(e: Option<LifecycleEffect>) -> Option<SEffect> {
    match e {
        Some(x) => Some(x@),
        None => None,
    }
}

impl View for Machine {
    type V = SMachine;

    closed spec fn view(&self) -> SMachine {
        SMachine {
            state: self.state,
            diagnostic: opt_diag(self.diagnostic),
            emitted: opt_effect(self.emitted),
            rejected: self.rejected,
        }
    }
}

fn emit_exec(state: LifecycleState, diagnostic: Option<ScientificDiagnostic>, e: LifecycleEffect) -> (m: Machine)
    ensures
        m@ == emit(state, opt_diag(diagnostic), e@),
{
    Machine { state, diagnostic, emitted: Some(e), rejected: false }
}

fn reject_exec(state: LifecycleState, diagnostic: Option<ScientificDiagnostic>) -> (m: Machine)
    ensures
        m@ == reject(state, opt_diag(diagnostic)),
{
    Machine { state, diagnostic, emitted: None, rejected: true }
}

fn settle_exec(diagnostic: Option<ScientificDiagnostic>, r: LifecycleEffectResult, next: LifecycleState) -> (m: Machine)
    ensures
        m@ == settle(opt_diag(diagnostic), r@, next),
{
    match r.result {
        Ok(_) => Machine { state: next, diagnostic, emitted: None, rejected: false },
        Err(d) => Machine { state: LifecycleState::Fault, diagnostic: Some(d), emitted: None, rejected: false },
    }
}

fn managed_exec(state: LifecycleState, diagnostic: Option<ScientificDiagnostic>, e: MachineEvent) -> (m: Machine)
    ensures
        m@ == managed(state, opt_diag(diagnostic), e@),
{
    match e {
        MachineEvent::Unload(x) => emit_exec(state, diagnostic, x),
        MachineEvent::EffectCompleted(r) => {
            if r.kind == EffectKind::Cleanup {
                match r.result {
                    Ok(_) => Machine { state: LifecycleState::Offline, diagnostic: None, emitted: None, rejected: false },
                    Err(d) => Machine { state: LifecycleState::Fault, diagnostic: Some(d), emitted: None, rejected: false },
                }
            } else {
                reject_exec(state, diagnostic)
            }
        },
        _ => reject_exec(state, diagnostic),
    }
}

fn machine_step_exec(state: LifecycleState, diagnostic: Option<ScientificDiagnostic>, e: MachineEvent) -> (m: Machine)
    ensures
        m@ == machine_step(state, opt_diag(diagnostic), e@),
{
    match state {
        LifecycleState::Offline => match e {
            MachineEvent::Load(x) => emit_exec(LifecycleState::Configuring, diagnostic, x),
            _ => reject_exec(state, diagnostic),
        },
        LifecycleState::Configuring => match e {
            MachineEvent::EffectCompleted(r) => {
                if r.kind == EffectKind::Realize {
                    settle_exec(diagnostic, r, LifecycleState::Ready)
                } else {
                    managed_exec(state, diagnostic, MachineEvent::EffectCompleted(r))
                }
            },
            other => managed_exec(state, diagnostic, other),
        },
        LifecycleState::Ready => match e {
            MachineEvent::Start(x) => emit_exec(state, diagnostic, x),
            MachineEvent::Reload(x) => emit_exec(LifecycleState::Configuring, diagnostic, x),
            MachineEvent::RequiredObjectFailed(d) => Machine {
                state: LifecycleState::Fault,
                diagnostic: Some(d),
                emitted: None,
                rejected: false,
            },
            MachineEvent::EffectCompleted(r) => {
                if r.kind == EffectKind::Start {
                    settle_exec(diagnostic, r, LifecycleState::Running)
                } else {
                    managed_exec(state, diagnostic, MachineEvent::EffectCompleted(r))
                }
            },
            other => managed_exec(state, diagnostic, other),
        },
        LifecycleState::Running => match e {
            MachineEvent::Stop(x) => emit_exec(state, diagnostic, x),
            MachineEvent::FiniteSourceCompleted(x) => emit_exec(state, diagnostic, x),
            MachineEvent::StartGroup(x) => emit_exec(state, diagnostic, x),
            MachineEvent::StopGroup(x) => emit_exec(state, diagnostic, x),
            MachineEvent::RequiredObjectFailed(d) => Machine {
                state: LifecycleState::Fault,
                diagnostic: Some(d),
                emitted: None,
                rejected: false,
            },
            MachineEvent::EffectCompleted(r) => {
                if r.kind == EffectKind::Stop {
                    settle_exec(diagnostic, r, LifecycleState::Ready)
                } else if r.kind == EffectKind::StartExecutionGroup || r.kind == EffectKind::StopExecutionGroup {
                    settle_exec(diagnostic, r, LifecycleState::Running)
                } else {
                    managed_exec(state, diagnostic, MachineEvent::EffectCompleted(r))
                }
            },
            other => managed_exec(state, diagnostic, other),
        },
        LifecycleState::Fault => match e {
            MachineEvent::Retry(x) => emit_exec(LifecycleState::Configuring, diagnostic, x),
            other => managed_exec(state, diagnostic, other),
        },
    }
}


// ----- The executable dispatcher -----

/// The only owner allowed to dispatch events into the lifecycle machine.
pub struct LifecycleDispatcher {
    state: LifecycleState,
    diagnostic: Option<ScientificDiagnostic>,
    next_token: u64,
    pending: Option<LifecycleEffect>,
    last_config: Option<ConfigurationInput>,
    execution_groups: Vec<(String, ExecutionGroupState)>,
}

pub open spec fn opt_input(c: Option<ConfigurationInput>) -> Option<SInput> {
    match c {
        Some(x) => Some(x@),
        None => None,
    }
}

pub open spec fn groups_view(g: Seq<(String, ExecutionGroupState)>) -> Seq<(Seq<char>, ExecutionGroupState)> {
    Seq::new(g.len(), |i: int| (g[i].0@, g[i].1))
}

impl View for LifecycleDispatcher {
    type V = SDispatcher;

    closed spec fn view(&self) -> SDispatcher {
        SDispatcher {
            state: self.state,
            diagnostic: opt_diag(self.diagnostic),
            next_token: self.next_token,
            pending: opt_effect(self.pending),
            last_config: opt_input(self.last_config),
            groups: groups_view(self.execution_groups@),
        }
    }
}

/// The abstract answer of a dispatch.
pub open spec fn outcome_view(r: Result<DispatchOutcome, DispatchError>) -> SOutcome {
    match r {
        Ok(o) => Ok((o.state, opt_effect(o.effect))),
        Err(e) => Err(e.spec_message()),
    }
}

fn group_lookup_exec(groups: &Vec<(String, ExecutionGroupState)>, name: &str) -> (r: Option<ExecutionGroupState>)
    ensures
        r == group_lookup(groups_view(groups@), name@),
{
    let ghost gv = groups_view(groups@);
    let mut i: usize = 0;
    while i < groups.len()
        invariant
            i <= groups.len(),
            gv == groups_view(groups@),
            group_lookup_from(gv, name@, i as int) == group_lookup(gv, name@),
        decreases groups.len() - i,
    {
        if crate::text::is_text(&groups[i].0, name) {
            return Some(groups[i].1);
        }
        i = i + 1;
    }
    None
}

fn set_all_exec(groups: &mut Vec<(String, ExecutionGroupState)>, s: ExecutionGroupState)
    ensures
        groups_view(final(groups)@) == set_all(groups_view(old(groups)@), s),
{
    let ghost g0 = groups_view(groups@);
    let mut i: usize = 0;
    while i < groups.len()
        invariant
            i <= groups.len(),
            groups.len() == g0.len(),
            forall|j: int| 0 <= j < i ==> groups_view(groups@)[j] == (g0[j].0, s),
            forall|j: int| i <= j < groups.len() ==> groups_view(groups@)[j] == g0[j],
        decreases groups.len() - i,
    {
        let name = groups[i].0.clone();
        let ghost before = groups@;
        groups.set(i, (name, s));
        assert forall|j: int| 0 <= j < i + 1 implies groups_view(groups@)[j] == (g0[j].0, s) by {
            if j < i {
                assert(groups@[j] == before[j]);
                assert(groups_view(before)[j] == (before[j].0@, before[j].1));
            }
        }
        assert forall|j: int| i + 1 <= j < groups.len() implies groups_view(groups@)[j] == g0[j] by {
            assert(groups@[j] == before[j]);
            assert(groups_view(before)[j] == (before[j].0@, before[j].1));
        }
        i = i + 1;
    }
    assert(groups_view(groups@) =~= set_all(g0, s));
}

fn set_named_exec(groups: &mut Vec<(String, ExecutionGroupState)>, name: &String, s: ExecutionGroupState)
    ensures
        groups_view(final(groups)@) == set_named(groups_view(old(groups)@), name@, s),
{
    let ghost g0 = groups_view(groups@);
    let mut i: usize = 0;
    while i < groups.len()
        invariant
            i <= groups.len(),
            groups.len() == g0.len(),
            forall|j: int| 0 <= j < i ==> groups_view(groups@)[j] == (if g0[j].0 == name@ { (g0[j].0, s) } else { g0[j] }),
            forall|j: int| i <= j < groups.len() ==> groups_view(groups@)[j] == g0[j],
        decreases groups.len() - i,
    {
        let ghost before = groups@;
        assert(groups_view(before)[i as int] == (before[i as int].0@, before[i as int].1));
        if same_text(&groups[i].0, name) {
            let n = groups[i].0.clone();
            groups.set(i, (n, s));
        }
        assert forall|j: int| 0 <= j < i + 1 implies groups_view(groups@)[j] == (if g0[j].0 == name@ { (g0[j].0, s) } else { g0[j] }) by {
            if j < i {
                assert(groups@[j] == before[j]);
                assert(groups_view(before)[j] == (before[j].0@, before[j].1));
            }
        }
        assert forall|j: int| i + 1 <= j < groups.len() implies groups_view(groups@)[j] == g0[j] by {
            assert(groups@[j] == before[j]);
            assert(groups_view(before)[j] == (before[j].0@, before[j].1));
        }
        i = i + 1;
    }
    assert(groups_view(groups@) =~= set_named(g0, name@, s));
}

fn stopped_groups_exec(names: &Vec<String>) -> (r: Vec<(String, ExecutionGroupState)>)
    ensures
        groups_view(r@) == stopped_groups(
            crate::config::texts_view(names@),
            names.len() as int,
        ),
{
    let ghost nv = crate::config::texts_view(names@);
    let mut r: Vec<(String, ExecutionGroupState)> = Vec::new();
    let mut i: usize = 0;
    assert(groups_view(r@) =~= stopped_groups(nv, 0));
    while i < names.len()
        invariant
            i <= names.len(),
            nv == crate::config::texts_view(names@),
            groups_view(r@) == stopped_groups(nv, i as int),
        decreases names.len() - i,
    {
        assert(nv[i as int] == names@[i as int]@);
        if group_lookup_exec(&r, names[i].as_str()).is_none() {
            let ghost before = groups_view(r@);
            let mut place: usize = 0;
            let mut searching = true;
            while searching && place < r.len()
                invariant
                    i < names.len(),
                    nv == crate::config::texts_view(names@),
                    place <= r.len(),
                    before == groups_view(r@),
                    searching ==> insert_place(before, nv[i as int], place as int) == insert_place(
                        before,
                        nv[i as int],
                        0,
                    ),
                    !searching ==> place < r.len() && place == insert_place(before, nv[i as int], 0),
                decreases r.len() - place + (if searching { 1int } else { 0int }),
            {
                assert(before[place as int].0 == r@[place as int].0@);
                if !crate::validate::text_less_exec(r[place].0.as_str(), names[i].as_str()) {
                    searching = false;
                } else {
                    place = place + 1;
                }
            }
            assert(place == insert_place(before, nv[i as int], 0));
            r.insert(place, (names[i].clone(), ExecutionGroupState::Stopped));
            assert(groups_view(r@) =~= before.insert(place as int, (nv[i as int], ExecutionGroupState::Stopped)));
        }
        i = i + 1;
    }
    r
}

fn empty_or_repeated_exec(names: &Vec<String>) -> (r: bool)
    ensures
        r == empty_or_repeated(crate::config::texts_view(names@)),
{
    let ghost nv = crate::config::texts_view(names@);
    let mut j: usize = 0;
    while j < names.len()
        invariant
            j <= names.len(),
            nv == crate::config::texts_view(names@),
            forall|a: int| 0 <= a < j ==> nv[a].len() != 0,
            forall|a: int, b: int| 0 <= a < b < j ==> nv[a] != nv[b],
        decreases names.len() - j,
    {
        assert(nv[j as int] == names@[j as int]@);
        if names[j].as_str().is_empty() {
            assert(nv[j as int].len() == 0);
            return true;
        }
        let mut i: usize = 0;
        while i < j
            invariant
                i <= j,
                j < names.len(),
                nv == crate::config::texts_view(names@),
                forall|a: int| 0 <= a < i ==> nv[a] != nv[j as int],
            decreases j - i,
        {
            assert(nv[i as int] == names@[i as int]@);
            if same_text(&names[i], &names[j]) {
                assert(nv[i as int] == nv[j as int]);
                return true;
            }
            i = i + 1;
        }
        j = j + 1;
    }
    false
}

fn targets_equal(a: &EffectTarget, b: &EffectTarget) -> (r: bool)
    ensures
        r == (a@ == b@),
{
    match (a, b) {
        (EffectTarget::Session, EffectTarget::Session) => true,
        (EffectTarget::ExecutionGroup(x), EffectTarget::ExecutionGroup(y)) => same_text(x, y),
        _ => false,
    }
}

fn refusal(message: String) -> (e: DispatchError)
    ensures
        e.spec_message() == message@,
{
    DispatchError::new(message)
}

impl LifecycleDispatcher {
    /// A dispatcher in `Offline` with no pending effect; the first token is 1.
    pub fn new() -> (d: LifecycleDispatcher)
        ensures
            d@ == initial(),
            well_formed(d@),
    {
        let d = LifecycleDispatcher {
            state: LifecycleState::Offline,
            diagnostic: None,
            next_token: 1,
            pending: None,
            last_config: None,
            execution_groups: Vec::new(),
        };
        assert(groups_view(d.execution_groups@) =~= Seq::<(Seq<char>, ExecutionGroupState)>::empty());
        d
    }

    pub fn state(&self) -> (s: LifecycleState)
        ensures
            s == self@.state,
    {
        self.state
    }

    /// The effect whose completion the dispatcher waits for.
    pub fn pending_effect(&self) -> (p: Option<&LifecycleEffect>)
        ensures
            match p {
                Some(e) => self@.pending == Some(e@),
                None => self@.pending is None,
            },
    {
        self.pending.as_ref()
    }

    /// The diagnostic of the last failure, kept until a successful cleanup.
    pub fn diagnostic(&self) -> (d: Option<&ScientificDiagnostic>)
        ensures
            match d {
                Some(x) => self@.diagnostic == Some(x@),
                None => self@.diagnostic is None,
            },
    {
        self.diagnostic.as_ref()
    }

    /// The realized execution groups and their states.
    pub fn execution_group_states(&self) -> (g: &Vec<(String, ExecutionGroupState)>)
        ensures
            groups_view(g@) == self@.groups,
    {
        &self.execution_groups
    }

    /// The state of the realized execution group `name`.
    pub fn execution_group_state(&self, name: &str) -> (s: Option<ExecutionGroupState>)
        ensures
            s == group_lookup(self@.groups, name@),
    {
        group_lookup_exec(&self.execution_groups, name)
    }

    fn allocate(&mut self) -> (r: Result<EffectToken, DispatchError>)
        ensures
            match allocate(old(self)@) {
                (d, Ok(t)) => final(self)@ == d && (r matches Ok(x) && x.spec_value() == t),
                (d, Err(m)) => final(self)@ == d && (r matches Err(e) && e.spec_message() == m),
            },
    {
        if self.next_token == u64::MAX {
            return Err(refusal(owned("lifecycle effect token space exhausted; tokens cannot be reused")));
        }
        let t = self.next_token;
        self.next_token = self.next_token + 1;
        Ok(EffectToken::new(t))
    }
}


spec fn machine_event_result(r: Result<MachineEvent, DispatchError>) -> Result<SMachineEvent, Seq<char>> {
    match r {
        Ok(e) => Ok(e@),
        Err(x) => Err(x.spec_message()),
    }
}

impl LifecycleDispatcher {
    fn prepare_group(&mut self, name: String, start: bool) -> (r: Result<MachineEvent, DispatchError>)
        ensures
            (final(self)@, machine_event_result(r)) == prepare_group(old(self)@, name@, start),
    {
        if self.state != LifecycleState::Running {
            let what = if start { "start-execution-group" } else { "stop-execution-group" };
            let mut m = concat3("event ", what, " is invalid in ");
            m.append(state_name_exec(self.state));
            return Err(refusal(m));
        }
        let q = decode::quoted_text(name.as_str());
        let current = match group_lookup_exec(&self.execution_groups, name.as_str()) {
            None => {
                return Err(refusal(concat3("execution group ", q.as_str(), " is not configured")));
            },
            Some(c) => c,
        };
        let expected = if start { ExecutionGroupState::Stopped } else { ExecutionGroupState::Running };
        if current != expected {
            let mut m = concat2("execution group ", q.as_str());
            m.append(if start { " cannot start while " } else { " cannot stop while " });
            m.append(match current {
                ExecutionGroupState::Stopped => "Stopped",
                ExecutionGroupState::Running => "Running",
            });
            return Err(refusal(m));
        }
        let token = self.allocate()?;
        if start {
            Ok(MachineEvent::StartGroup(LifecycleEffect::StartExecutionGroup {
                token,
                origin: EffectOrigin::RunningExecutionGroupStart,
                name,
            }))
        } else {
            Ok(MachineEvent::StopGroup(LifecycleEffect::StopExecutionGroup {
                token,
                origin: EffectOrigin::RunningExecutionGroupStop,
                name,
            }))
        }
    }

    fn prepare(&mut self, event: LifecycleEvent) -> (r: Result<MachineEvent, DispatchError>)
        requires
            !(event@ is EffectCompleted),
        ensures
            (final(self)@, machine_event_result(r)) == prepare(old(self)@, event@),
    {
        let state = self.state;
        match event {
            LifecycleEvent::StartExecutionGroup(name) => self.prepare_group(name, true),
            LifecycleEvent::StopExecutionGroup(name) => self.prepare_group(name, false),
            LifecycleEvent::RequiredObjectFailed(d) => Ok(MachineEvent::RequiredObjectFailed(d)),
            LifecycleEvent::Retry => {
                let config = match &self.last_config {
                    None => {
                        return Err(refusal(owned("retry rejected because no configuration has been loaded")));
                    },
                    Some(c) => c.duplicate(),
                };
                let token = self.allocate()?;
                Ok(MachineEvent::Retry(LifecycleEffect::Realize { token, origin: EffectOrigin::FaultRetry, config }))
            },
            LifecycleEvent::Load(config) => {
                let token = self.allocate()?;
                Ok(MachineEvent::Load(LifecycleEffect::Realize { token, origin: EffectOrigin::OfflineLoad, config }))
            },
            LifecycleEvent::Start => {
                let token = self.allocate()?;
                Ok(MachineEvent::Start(LifecycleEffect::Start { token, origin: EffectOrigin::ReadyStart }))
            },
            LifecycleEvent::Stop => {
                let token = self.allocate()?;
                Ok(MachineEvent::Stop(LifecycleEffect::Stop { token, origin: EffectOrigin::RunningStop }))
            },
            LifecycleEvent::Reload(config) => {
                let token = self.allocate()?;
                Ok(MachineEvent::Reload(LifecycleEffect::Realize { token, origin: EffectOrigin::ReadyReload, config }))
            },
            LifecycleEvent::Unload => {
                let origin = match state {
                    LifecycleState::Configuring => EffectOrigin::ConfiguringUnload,
                    LifecycleState::Offline => EffectOrigin::ConfiguringUnload,
                    LifecycleState::Ready => EffectOrigin::ReadyUnload,
                    LifecycleState::Running => EffectOrigin::RunningUnload,
                    LifecycleState::Fault => EffectOrigin::FaultUnload,
                };
                let token = self.allocate()?;
                Ok(MachineEvent::Unload(LifecycleEffect::Cleanup { token, origin }))
            },
            LifecycleEvent::FiniteSourceCompleted => {
                let token = self.allocate()?;
                Ok(MachineEvent::FiniteSourceCompleted(LifecycleEffect::Stop {
                    token,
                    origin: EffectOrigin::FiniteSourceCompletion,
                }))
            },
            LifecycleEvent::EffectCompleted(_) => {
                Err(refusal(owned("completions are handled before requests")))
            },
        }
    }

    fn prepare_and_handle(&mut self, event: LifecycleEvent) -> (r: Result<DispatchOutcome, DispatchError>)
        requires
            !(event@ is EffectCompleted),
        ensures
            (final(self)@, outcome_view(r)) == prepare_and_handle(old(self)@, event@),
    {
        let name = event_name_exec(&event);
        let machine_event = self.prepare(event)?;
        let diagnostic = self.diagnostic.take();
        let m = machine_step_exec(self.state, diagnostic, machine_event);
        self.diagnostic = m.diagnostic;
        if m.rejected {
            let mut message = concat3("event ", name, " is invalid in ");
            message.append(state_name_exec(self.state));
            return Err(refusal(message));
        }
        self.state = m.state;
        match &m.emitted {
            Some(LifecycleEffect::Realize { config, .. }) => {
                self.last_config = Some(config.duplicate());
            },
            _ => {},
        }
        self.pending = match &m.emitted {
            Some(e) => Some(e.duplicate()),
            None => None,
        };
        Ok(DispatchOutcome { state: m.state, effect: m.emitted })
    }

    fn realized_groups(&self, r: &LifecycleEffectResult) -> (g: Result<Option<Vec<String>>, DispatchError>)
        ensures
            match realized_groups(self@, r@) {
                Ok(None) => g matches Ok(None),
                Ok(Some(names)) => g matches Ok(Some(v)) && crate::config::texts_view(v@) == names,
                Err(m) => g matches Err(e) && e.spec_message() == m,
            },
    {
        match &r.result {
            Ok(LifecycleEffectSuccess::Realized { execution_groups }) => {
                if r.kind == EffectKind::Realize {
                    if empty_or_repeated_exec(execution_groups) {
                        Err(refusal(owned("realize completion contains an empty or duplicate execution-group name")))
                    } else {
                        Ok(Some(crate::config::clone_texts(execution_groups)))
                    }
                } else {
                    Err(refusal(owned("non-realize completion returned realized execution groups")))
                }
            },
            Ok(LifecycleEffectSuccess::Completed) => {
                if r.kind == EffectKind::Realize {
                    match &self.last_config {
                        None => Err(refusal(owned("realize completion has no configuration"))),
                        Some(ConfigurationInput::File(_)) => Err(refusal(owned("file realization must return configured execution-group names"))),
                        Some(ConfigurationInput::Resolved(c)) => {
                            let names = c.execution_group_names();
                            assert(crate::config::texts_view(names@) =~= configured_group_names((**c)@));
                            Ok(Some(names))
                        },
                    }
                } else {
                    Ok(None)
                }
            },
            Err(_) => Ok(None),
        }
    }

    fn complete(&mut self, r: LifecycleEffectResult) -> (out: Result<DispatchOutcome, DispatchError>)
        ensures
            (final(self)@, outcome_view(out)) == complete(old(self)@, r@),
    {
        let p = match &self.pending {
            None => {
                let t = decimal_u64(r.token.value());
                return Err(refusal(concat3("stale or duplicate completion token ", t.as_str(), " has no pending effect")));
            },
            Some(p) => p,
        };
        if r.token.value() != p.token().value() {
            let a = decimal_u64(r.token.value());
            let b = decimal_u64(p.token().value());
            let mut m = concat3("stale completion token ", a.as_str(), ", expected ");
            m.append(b.as_str());
            return Err(refusal(m));
        }
        if r.kind != p.kind() {
            let mut m = concat3("completion kind ", kind_name_exec(r.kind), " does not match pending ");
            m.append(kind_name_exec(p.kind()));
            return Err(refusal(m));
        }
        if r.origin != p.origin() {
            let mut m = concat3("completion origin ", origin_name_exec(r.origin), " does not match pending ");
            m.append(origin_name_exec(p.origin()));
            return Err(refusal(m));
        }
        let pending_target = p.target();
        if !targets_equal(&r.target, &pending_target) {
            let a = target_name_exec(&r.target);
            let b = target_name_exec(&pending_target);
            let mut m = concat3("completion target ", a.as_str(), " does not match pending ");
            m.append(b.as_str());
            return Err(refusal(m));
        }
        let realized = self.realized_groups(&r)?;
        let kind = r.kind;
        let target = r.target.duplicate();
        let succeeded = r.result.is_ok();
        self.pending = None;
        let diagnostic = self.diagnostic.take();
        let m = machine_step_exec(self.state, diagnostic, MachineEvent::EffectCompleted(r));
        self.diagnostic = m.diagnostic;
        if m.rejected {
            return Err(refusal(owned("validated completion was not accepted by the originating transition")));
        }
        self.state = m.state;
        if kind == EffectKind::Realize {
            self.execution_groups = match realized {
                Some(names) => stopped_groups_exec(&names),
                None => {
                    let v: Vec<(String, ExecutionGroupState)> = Vec::new();
                    assert(groups_view(v@) =~= Seq::<(Seq<char>, ExecutionGroupState)>::empty());
                    v
                },
            };
        } else if succeeded {
            match target {
                EffectTarget::Session => {
                    if kind == EffectKind::Start {
                        set_all_exec(&mut self.execution_groups, ExecutionGroupState::Running);
                    } else if kind == EffectKind::Stop {
                        set_all_exec(&mut self.execution_groups, ExecutionGroupState::Stopped);
                    } else if kind == EffectKind::Cleanup {
                        let v: Vec<(String, ExecutionGroupState)> = Vec::new();
                        assert(groups_view(v@) =~= Seq::<(Seq<char>, ExecutionGroupState)>::empty());
                        self.execution_groups = v;
                    }
                },
                EffectTarget::ExecutionGroup(name) => {
                    if kind == EffectKind::StartExecutionGroup {
                        set_named_exec(&mut self.execution_groups, &name, ExecutionGroupState::Running);
                    } else if kind == EffectKind::StopExecutionGroup {
                        set_named_exec(&mut self.execution_groups, &name, ExecutionGroupState::Stopped);
                    }
                },
            }
        }
        Ok(DispatchOutcome { state: self.state, effect: None })
    }

    /// Serializes one RTC-domain event through the lifecycle machine.
    pub fn dispatch(&mut self, event: LifecycleEvent) -> (r: Result<DispatchOutcome, DispatchError>)
        ensures
            (final(self)@, outcome_view(r)) == dispatch_spec(old(self)@, event@),
            well_formed(old(self)@) ==> well_formed(final(self)@),
    {
        proof {
            if well_formed(self@) {
                crate::laws::lemma_dispatch_keeps_well_formed(self@, event@);
            }
        }
        let event = match event {
            LifecycleEvent::EffectCompleted(completion) => {
                return self.complete(completion);
            },
            other => other,
        };
        let supersedes = match &self.pending {
            None => true,
            Some(p) => {
                let group_effect = p.kind() == EffectKind::StartExecutionGroup || p.kind() == EffectKind::StopExecutionGroup;
                let unload = match &event {
                    LifecycleEvent::Unload => true,
                    _ => false,
                };
                let failure = match &event {
                    LifecycleEvent::RequiredObjectFailed(_) => true,
                    _ => false,
                };
                let stop = match &event {
                    LifecycleEvent::Stop => true,
                    _ => false,
                };
                if unload || (failure && (self.state == LifecycleState::Ready || self.state == LifecycleState::Running))
                    || (group_effect && self.state == LifecycleState::Running && stop) {
                    true
                } else {
                    let mut m = concat3("event ", event_name_exec(&event), " rejected while Some(");
                    m.append(kind_name_exec(p.kind()));
                    m.append(") effect is pending");
                    return Err(refusal(m));
                }
            },
        };
        self.pending = None;
        self.prepare_and_handle(event)
    }
}

impl Default for LifecycleDispatcher {
    fn default() -> (d: Self)
        ensures
            d@ == initial(),
            well_formed(d@),
    {
        Self::new()
    }
}

} // verus!
