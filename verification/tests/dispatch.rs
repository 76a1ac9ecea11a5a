use pipewireao_rtc::{
    ConfigurationInput, DevelopmentConfig, EffectExecutor, EffectKind, EffectOrigin, EffectTarget,
    ExecutionGroupState, LifecycleDispatcher, LifecycleEffect, LifecycleEffectResult,
    LifecycleEffectSuccess, LifecycleEvent, LifecycleState, Runner, ScientificDiagnostic,
};

const VALID: &str = r##"{
    profile = development
    execution = complete-frame
    authority = none
    claim = development-characterization
    sources = [
        {
            factory = api.fits.source
            module = libpipewire-module-spa-node-factory
            node.name = pipewireao-rtc-source
            plugin.path = "${PIPEWIREAO_FITS_PLUGIN}"
            args = {
                api.fits.path = "${PIPEWIREAO_RTC_FITS_PATH}"
                api.fits.hdu = 1
                api.fits.io-mode = file
                api.fits.loop = true
                api.fits.output-mode = frame
                api.fits.prefault = false
                api.fits.rate = 1000/1
                api.fits.readiness = timerfd
                api.fits.sample-rank = 1
                api.fits.schema = org.calculon.ao.docrime-excitation/1
            }
            ports = [
                { name = output direction = output element-type = F32_LE shape = [ 2 ] schema = org.calculon.ao.docrime-excitation/1 }
            ]
        }
    ]
    graphs = [
        {
            factory = pipewireao.fgn-native
            module = libpipewire-module-ndarray-filter-chain
            node.name = pipewireao-rtc-graph
            config.path = "${PIPEWIREAO_RTC_GRAPH_MINIMAL}"
            ports = [
                { name = input direction = input element-type = F32_LE shape = [ 2 ] schema = org.calculon.ao.docrime-excitation/1 }
                { name = output direction = output element-type = F32_LE shape = [ 2 ] schema = org.calculon.ao.controller-command/1 }
            ]
        }
    ]
    sinks = [
        {
            factory = api.pipewireao.discard
            module = libpipewire-module-spa-node-factory
            node.name = pipewireao-rtc-sink
            plugin.path = "${PIPEWIREAO_DISCARD_PLUGIN}"
            ports = [
                { name = input direction = input element-type = F32_LE shape = [ 2 ] schema = org.calculon.ao.controller-command/1 }
            ]
        }
    ]
    properties = {}
    parameters = {}
    observations = []
    links = [
        { output = "pipewireao-rtc-source:output" input = "pipewireao-rtc-graph:input" passive = false }
        { output = "pipewireao-rtc-graph:output" input = "pipewireao-rtc-sink:input" passive = false }
    ]
    execution-groups = [
        { name = main nodes = [ pipewireao-rtc-source pipewireao-rtc-graph pipewireao-rtc-sink ] }
    ]
}
"##;

fn config() -> DevelopmentConfig {
    DevelopmentConfig::parse(VALID).expect("test configuration")
}

fn complete_with(
    dispatcher: &mut LifecycleDispatcher,
    effect: &LifecycleEffect,
    result: Result<LifecycleEffectSuccess, ScientificDiagnostic>,
) -> Result<LifecycleState, String> {
    dispatcher
        .dispatch(LifecycleEvent::EffectCompleted(LifecycleEffectResult::from_output(effect, result)))
        .map(|outcome| outcome.state)
        .map_err(|error| error.message().to_owned())
}

#[test]
fn refused_requests_still_use_up_their_token() {
    let mut dispatcher = LifecycleDispatcher::new();
    let error = dispatcher.dispatch(LifecycleEvent::Start).unwrap_err();
    assert_eq!(error.message(), "event start is invalid in Offline");
    let load = dispatcher
        .dispatch(LifecycleEvent::Load(config().into()))
        .unwrap()
        .effect
        .unwrap();
    assert_eq!(load.token().value(), 2);
    assert_eq!(load.origin(), EffectOrigin::OfflineLoad);
    assert_eq!(load.target(), EffectTarget::Session);
}

#[test]
fn refusals_explain_themselves() {
    let mut dispatcher = LifecycleDispatcher::new();
    assert_eq!(
        dispatcher.dispatch(LifecycleEvent::Retry).unwrap_err().message(),
        "retry rejected because no configuration has been loaded"
    );
    assert_eq!(
        dispatcher.dispatch(LifecycleEvent::Unload).unwrap_err().message(),
        "event unload is invalid in Offline"
    );
    let load = dispatcher
        .dispatch(LifecycleEvent::Load(config().into()))
        .unwrap()
        .effect
        .unwrap();
    assert_eq!(
        dispatcher.dispatch(LifecycleEvent::Start).unwrap_err().message(),
        "event start rejected while Some(Realize) effect is pending"
    );
    let mut wrong = LifecycleEffectResult::from_effect(&load, Ok(()));
    wrong.kind = EffectKind::Cleanup;
    assert_eq!(
        dispatcher.dispatch(LifecycleEvent::EffectCompleted(wrong)).unwrap_err().message(),
        "completion kind Cleanup does not match pending Realize"
    );
    let cleanup = dispatcher.dispatch(LifecycleEvent::Unload).unwrap().effect.unwrap();
    assert_eq!(cleanup.token().value(), 3);
    assert_eq!(dispatcher.state(), LifecycleState::Configuring);
    let late = LifecycleEffectResult::from_effect(&load, Ok(()));
    assert_eq!(
        dispatcher.dispatch(LifecycleEvent::EffectCompleted(late)).unwrap_err().message(),
        "stale completion token 2, expected 3"
    );
    assert_eq!(
        dispatcher
            .dispatch(LifecycleEvent::StartExecutionGroup("main".to_owned()))
            .unwrap_err()
            .message(),
        "event start-execution-group rejected while Some(Cleanup) effect is pending"
    );
}

#[test]
fn realizations_report_their_execution_groups() {
    let mut dispatcher = LifecycleDispatcher::new();
    let load = dispatcher
        .dispatch(LifecycleEvent::Load(ConfigurationInput::File("session.conf".to_owned())))
        .unwrap()
        .effect
        .unwrap();
    assert_eq!(
        complete_with(&mut dispatcher, &load, Ok(LifecycleEffectSuccess::Completed)),
        Err("file realization must return configured execution-group names".to_owned())
    );
    assert_eq!(
        complete_with(
            &mut dispatcher,
            &load,
            Ok(LifecycleEffectSuccess::Realized {
                execution_groups: vec!["a".to_owned(), "a".to_owned()]
            })
        ),
        Err("realize completion contains an empty or duplicate execution-group name".to_owned())
    );
    assert_eq!(dispatcher.pending_effect(), Some(&load));
    assert_eq!(
        complete_with(
            &mut dispatcher,
            &load,
            Ok(LifecycleEffectSuccess::Realized {
                execution_groups: vec!["b".to_owned(), "a".to_owned()]
            })
        ),
        Ok(LifecycleState::Ready)
    );
    assert_eq!(dispatcher.execution_group_state("a"), Some(ExecutionGroupState::Stopped));
    assert_eq!(dispatcher.execution_group_state("b"), Some(ExecutionGroupState::Stopped));
    assert_eq!(
        dispatcher.execution_group_states(),
        &vec![("a".to_owned(), ExecutionGroupState::Stopped), ("b".to_owned(), ExecutionGroupState::Stopped)]
    );
    let start = dispatcher.dispatch(LifecycleEvent::Start).unwrap().effect.unwrap();
    assert_eq!(
        complete_with(
            &mut dispatcher,
            &start,
            Ok(LifecycleEffectSuccess::Realized { execution_groups: vec![] })
        ),
        Err("non-realize completion returned realized execution groups".to_owned())
    );
    assert_eq!(
        complete_with(&mut dispatcher, &start, Ok(LifecycleEffectSuccess::Completed)),
        Ok(LifecycleState::Running)
    );
    assert_eq!(dispatcher.execution_group_state("b"), Some(ExecutionGroupState::Running));
}

#[test]
fn diagnostics_persist_until_a_successful_cleanup() {
    let mut dispatcher = LifecycleDispatcher::new();
    let load = dispatcher
        .dispatch(LifecycleEvent::Load(config().into()))
        .unwrap()
        .effect
        .unwrap();
    assert_eq!(
        complete_with(
            &mut dispatcher,
            &load,
            Err(ScientificDiagnostic::new("sources[0]", "creation failed"))
        ),
        Ok(LifecycleState::Fault)
    );
    assert_eq!(dispatcher.diagnostic().unwrap().field(), "sources[0]");
    assert!(dispatcher.execution_group_states().is_empty());
    let retry = dispatcher.dispatch(LifecycleEvent::Retry).unwrap().effect.unwrap();
    assert_eq!(retry.origin(), EffectOrigin::FaultRetry);
    assert_eq!(
        complete_with(&mut dispatcher, &retry, Ok(LifecycleEffectSuccess::Completed)),
        Ok(LifecycleState::Ready)
    );
    assert_eq!(dispatcher.diagnostic().unwrap().message(), "creation failed");
    let cleanup = dispatcher.dispatch(LifecycleEvent::Unload).unwrap().effect.unwrap();
    assert_eq!(cleanup.origin(), EffectOrigin::ReadyUnload);
    assert_eq!(
        complete_with(&mut dispatcher, &cleanup, Ok(LifecycleEffectSuccess::Completed)),
        Ok(LifecycleState::Offline)
    );
    assert!(dispatcher.diagnostic().is_none());
    assert!(dispatcher.execution_group_states().is_empty());
    assert!(dispatcher.pending_effect().is_none());
}

struct FailingMonitor {
    lost: bool,
}

impl EffectExecutor for FailingMonitor {
    fn execute(
        &mut self,
        _effect: &LifecycleEffect,
    ) -> Result<LifecycleEffectSuccess, ScientificDiagnostic> {
        Ok(LifecycleEffectSuccess::Completed)
    }

    fn check_required_objects(&mut self) -> Result<(), ScientificDiagnostic> {
        if self.lost {
            Err(ScientificDiagnostic::new("graph pipewireao-rtc-graph", "required object disappeared"))
        } else {
            Ok(())
        }
    }
}

#[test]
fn required_object_polling_faults_only_a_realized_session() {
    let mut runner = Runner::new(FailingMonitor { lost: true });
    assert_eq!(runner.poll_required_objects().unwrap(), LifecycleState::Offline);
    assert_eq!(
        runner.dispatch(LifecycleEvent::Load(config().into())).unwrap(),
        LifecycleState::Ready
    );
    runner.executor_mut().lost = false;
    assert_eq!(runner.poll_required_objects().unwrap(), LifecycleState::Ready);
    runner.executor_mut().lost = true;
    assert_eq!(runner.poll_required_objects().unwrap(), LifecycleState::Fault);
    assert_eq!(runner.diagnostic().unwrap().message(), "required object disappeared");
    assert_eq!(runner.dispatch(LifecycleEvent::Unload).unwrap(), LifecycleState::Offline);
    assert!(runner.execution_group_states().is_empty());
    assert!(runner.into_executor().lost);
}

#[test]
fn a_runner_dispatch_leaves_nothing_pending() {
    let mut runner = Runner::new(FailingMonitor { lost: false });
    assert_eq!(
        runner.dispatch(LifecycleEvent::Load(config().into())).unwrap(),
        LifecycleState::Ready
    );
    assert_eq!(runner.execution_group_state("main"), Some(ExecutionGroupState::Stopped));
    assert_eq!(runner.dispatch(LifecycleEvent::Start).unwrap(), LifecycleState::Running);
    assert_eq!(runner.state(), LifecycleState::Running);
    assert_eq!(runner.execution_group_state("main"), Some(ExecutionGroupState::Running));
    assert_eq!(runner.dispatch(LifecycleEvent::Start).unwrap_err().message(), "event start is invalid in Running");
}
