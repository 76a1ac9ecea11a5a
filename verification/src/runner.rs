//! One lifecycle owner that combines the dispatcher with an executor of blocking effects.
use vstd::prelude::*;
use crate::diagnostic::{DiagnosticView, ScientificDiagnostic};
use crate::dispatcher::{dispatch_spec, group_lookup, groups_view, initial, well_formed, LifecycleDispatcher, SDispatcher};
use crate::lifecycle::{
    completion_of, success_result, DispatchError, SEffect, ExecutionGroupState, LifecycleEffect, LifecycleEffectResult,
    LifecycleEffectSuccess, LifecycleEvent, LifecycleState, SEvent, SSuccess,
};

verus! {

/// Executes blocking graph work after the lifecycle handler has returned.
pub trait EffectExecutor: Sized {
    /// Whether performing `effect` on this executor may report `outcome` and leave the
    /// executor as `after`. An executor states what its own work does by defining it; one
    /// that does not claims nothing.
    open spec fn executes(&self, effect: SEffect, outcome: Result<SSuccess, DiagnosticView>, after: &Self) -> bool {
        true
    }

    /// Whether revalidating required objects on this executor may report `failure` (`None`
    /// when every object is intact) and leave the executor as `after`. An executor that
    /// does not define it claims nothing.
    open spec fn checks(&self, failure: Option<DiagnosticView>, after: &Self) -> bool {
        true
    }

    /// Performs one typed blocking effect outside the lifecycle handler.
    fn execute(&mut self, effect: &LifecycleEffect) -> (r: Result<LifecycleEffectSuccess, ScientificDiagnostic>)
        ensures
            old(self).executes(effect@, success_result(r), final(self)),
    ;

    /// Revalidates required objects while a realized session is idle or running;
    /// executors without externally owned objects need no monitoring work.
    fn check_required_objects(&mut self) -> (r: Result<(), ScientificDiagnostic>)
        ensures
            old(self).checks(failure_of(r), final(self)) || (r is Ok && *final(self) == *old(self)),
        default_ensures
            r is Ok,
            *final(self) == *old(self),
    {
        Ok(())
    }
}

/// The failure that a check reports, if any.
pub open spec fn failure_of(r: Result<(), ScientificDiagnostic>) -> Option<DiagnosticView> {
    match r {
        Ok(()) => None,
        Err(d) => Some(d@),
    }
}

/// What a runner's dispatch does, from dispatcher `d0` and executor `x0` to dispatcher `d`
/// and executor `x`: it dispatches the event; a refused event or one without effect leaves
/// the executor alone; an emitted effect is performed once by the executor, and its
/// completion, carrying exactly what the executor reported, is dispatched in turn.
pub open spec fn runner_dispatch<E: EffectExecutor>(
    d0: SDispatcher,
    e: SEvent,
    d: SDispatcher,
    r: Result<LifecycleState, Seq<char>>,
    x0: E,
    x: E,
) -> bool {
    match dispatch_spec(d0, e) {
        (d1, Err(m)) => d == d1 && r == Err::<LifecycleState, Seq<char>>(m) && x == x0,
        (d1, Ok((_, None))) => d == d1 && r == Ok::<LifecycleState, Seq<char>>(d1.state) && x == x0,
        (d1, Ok((_, Some(effect)))) => exists|outcome: Result<SSuccess, DiagnosticView>|
            {
                &&& #[trigger] x0.executes(effect, outcome, &x)
                &&& completed_as(d1, effect, outcome, d, r)
            },
    }
}

/// Dispatching the completion of `effect` with `outcome` from `d1` gives dispatcher `d`
/// and answer `r`.
pub open spec fn completed_as(
    d1: SDispatcher,
    effect: SEffect,
    outcome: Result<SSuccess, DiagnosticView>,
    d: SDispatcher,
    r: Result<LifecycleState, Seq<char>>,
) -> bool {
    let (d2, o2) = dispatch_spec(d1, SEvent::EffectCompleted(completion_of(effect, outcome)));
    &&& d == d2
    &&& match o2 {
        Ok(_) => r == Ok::<LifecycleState, Seq<char>>(d2.state),
        Err(m) => r == Err::<LifecycleState, Seq<char>>(m),
    }
}

/// One check of required objects on executor `x0`: what the executor reports, or an
/// executor left as it was that reports nothing.
pub open spec fn check_step<E: EffectExecutor>(x0: E, failure: Option<DiagnosticView>, x1: E) -> bool {
    x0.checks(failure, &x1) || (failure is None && x1 == x0)
}

/// What a poll of required objects does: outside `Ready` and `Running` nothing; otherwise
/// one check, whose success leaves the lifecycle as it is and whose failure is dispatched
/// as a required-object failure carrying the reported diagnostic.
pub open spec fn runner_poll<E: EffectExecutor>(
    d0: SDispatcher,
    x0: E,
    d: SDispatcher,
    x: E,
    r: Result<LifecycleState, Seq<char>>,
) -> bool {
    if d0.state == LifecycleState::Ready || d0.state == LifecycleState::Running {
        exists|failure: Option<DiagnosticView>, x1: E|
            {
                &&& #[trigger] check_step(x0, failure, x1)
                &&& match failure {
                    None => d == d0 && x == x1 && r == Ok::<LifecycleState, Seq<char>>(d0.state),
                    Some(dv) => runner_dispatch(d0, SEvent::RequiredObjectFailed(dv), d, r, x1, x),
                }
            }
    } else {
        d == d0 && x == x0 && r == Ok::<LifecycleState, Seq<char>>(d0.state)
    }
}

pub open spec fn state_result(r: Result<LifecycleState, DispatchError>) -> Result<LifecycleState, Seq<char>> {
    match r {
        Ok(s) => Ok(s),
        Err(e) => Err(e.spec_message()),
    }
}

/// One lifecycle owner combining the serialized dispatcher with one graph adapter.
pub struct Runner<E> {
    dispatcher: LifecycleDispatcher,
    executor: E,
}

impl<E: EffectExecutor> Runner<E> {
    /// The abstract dispatcher inside the runner.
    pub closed spec fn spec_dispatcher(&self) -> SDispatcher {
        self.dispatcher@
    }

    /// The executor inside the runner.
    pub closed spec fn spec_executor(&self) -> E {
        self.executor
    }

    pub fn new(executor: E) -> (r: Self)
        ensures
            r.spec_dispatcher() == initial(),
            well_formed(r.spec_dispatcher()),
            r.spec_executor() == executor,
    {
        Runner { dispatcher: LifecycleDispatcher::new(), executor }
    }

    pub fn state(&self) -> (s: LifecycleState)
        ensures
            s == self.spec_dispatcher().state,
    {
        self.dispatcher.state()
    }

    pub fn executor(&self) -> (e: &E)
        ensures
            *e == self.spec_executor(),
    {
        &self.executor
    }

    pub fn executor_mut(&mut self) -> (e: &mut E)
        ensures
            *e == old(self).spec_executor(),
            final(self).spec_dispatcher() == old(self).spec_dispatcher(),
            final(self).spec_executor() == *final(e),
    {
        &mut self.executor
    }

    pub fn diagnostic(&self) -> (d: Option<&ScientificDiagnostic>)
        ensures
            match d {
                Some(x) => self.spec_dispatcher().diagnostic == Some(x@),
                None => self.spec_dispatcher().diagnostic is None,
            },
    {
        self.dispatcher.diagnostic()
    }

    pub fn execution_group_states(&self) -> (g: &Vec<(String, ExecutionGroupState)>)
        ensures
            groups_view(g@) == self.spec_dispatcher().groups,
    {
        self.dispatcher.execution_group_states()
    }

    pub fn execution_group_state(&self, name: &str) -> (s: Option<ExecutionGroupState>)
        ensures
            s == group_lookup(self.spec_dispatcher().groups, name@),
    {
        self.dispatcher.execution_group_state(name)
    }

    /// Dispatches an event and synchronously executes any emitted effect.
    pub fn dispatch(&mut self, event: LifecycleEvent) -> (r: Result<LifecycleState, DispatchError>)
        ensures
            runner_dispatch(
                old(self).spec_dispatcher(),
                event@,
                final(self).spec_dispatcher(),
                state_result(r),
                old(self).spec_executor(),
                final(self).spec_executor(),
            ),
            well_formed(old(self).spec_dispatcher()) ==> well_formed(final(self).spec_dispatcher()),
    {
        let ghost d0 = self.dispatcher@;
        let outcome = self.dispatcher.dispatch(event)?;
        match outcome.effect {
            None => Ok(self.dispatcher.state()),
            Some(effect) => {
                let ghost d1 = self.dispatcher@;
                let ghost x0 = self.executor;
                let result = self.executor.execute(&effect);
                let ghost outcome_view = success_result(result);
                assert(x0.executes(effect@, outcome_view, &self.executor));
                let completion = LifecycleEffectResult::from_output(&effect, result);
                let second = self.dispatcher.dispatch(LifecycleEvent::EffectCompleted(completion));
                assert(dispatch_spec(d1, SEvent::EffectCompleted(completion_of(effect@, outcome_view))).0
                    == self.dispatcher@);
                proof {
                    if well_formed(d0) {
                        crate::laws::lemma_dispatch_keeps_well_formed(d0, event@);
                    }
                }
                match second {
                    Ok(_) => Ok(self.dispatcher.state()),
                    Err(e) => Err(e),
                }
            },
        }
    }

    /// Checks required objects while the session is ready or running, and serializes any
    /// failure through the lifecycle.
    pub fn poll_required_objects(&mut self) -> (r: Result<LifecycleState, DispatchError>)
        ensures
            runner_poll(
                old(self).spec_dispatcher(),
                old(self).spec_executor(),
                final(self).spec_dispatcher(),
                final(self).spec_executor(),
                state_result(r),
            ),
            well_formed(old(self).spec_dispatcher()) ==> well_formed(final(self).spec_dispatcher()),
    {
        let state = self.dispatcher.state();
        if !(state == LifecycleState::Ready || state == LifecycleState::Running) {
            return Ok(state);
        }
        let ghost x0 = self.executor;
        let checked = self.executor.check_required_objects();
        let ghost x1 = self.executor;
        assert(check_step(x0, failure_of(checked), x1));
        match checked {
            Err(d) => {
                let ghost dv = d@;
                let r = self.dispatch(LifecycleEvent::RequiredObjectFailed(d));
                assert(check_step(x0, Some(dv), x1));
                r
            },
            Ok(()) => {
                assert(check_step(x0, None, x1));
                Ok(state)
            },
        }
    }

    pub fn into_executor(self) -> (e: E)
        ensures
            e == self.spec_executor(),
    {
        self.executor
    }
}

} // verus!
