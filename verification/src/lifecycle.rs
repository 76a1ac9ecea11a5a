//! The lifecycle vocabulary: states, effects, their completions and the events.
use vstd::prelude::*;
use vstd::string::*;
use crate::config::{DevelopmentConfig, SConfig};
use crate::config;
use crate::diagnostic::{DiagnosticView, ScientificDiagnostic};

verus! {

broadcast use vstd::string::group_string_axioms;

/// Where the configuration of a realization comes from.
#[derive(Debug, PartialEq, Eq)]
pub enum ConfigurationInput {
    /// An already resolved session.
    Resolved(Box<DevelopmentConfig>),
    /// A relaxed SPA-JSON file for the executor to read and admit.
    File(String),
}

pub enum SInput {
    Resolved(SConfig),
    File(Seq<char>),
}

impl View for ConfigurationInput {
    type V = SInput;

    open spec fn view(&self) -> SInput {
        match self {
            ConfigurationInput::Resolved(c) => SInput::Resolved((**c)@),
            ConfigurationInput::File(p) => SInput::File(p@),
        }
    }
}

impl ConfigurationInput {
    pub fn duplicate(&self) -> (r: ConfigurationInput)
        ensures
            r@ == self@,
    {
        match self {
            ConfigurationInput::Resolved(c) => ConfigurationInput::Resolved(Box::new((**c).duplicate())),
            ConfigurationInput::File(p) => ConfigurationInput::File(p.clone()),
        }
    }
}

impl Clone for ConfigurationInput {
    fn clone(&self) -> (r: Self)
        ensures
            r@ == self@,
    {
        self.duplicate()
    }
}

impl From<DevelopmentConfig> for ConfigurationInput {
    fn from(config: DevelopmentConfig) -> (r: Self) {
        ConfigurationInput::Resolved(Box::new(config))
    }
}

impl vstd::std_specs::convert::FromSpecImpl<DevelopmentConfig> for ConfigurationInput {
    open spec fn obeys_from_spec() -> bool {
        true
    }

    open spec fn from_spec(config: DevelopmentConfig) -> ConfigurationInput {
        ConfigurationInput::Resolved(Box::new(config))
    }
}

/// The public lifecycle states.
#[derive(Clone, Copy, Debug, PartialEq, Eq, Structural)]
pub enum LifecycleState {
    Offline,
    Configuring,
    Ready,
    Running,
    Fault,
}

/// Whether an execution group is stopped or running.
#[derive(Clone, Copy, Debug, PartialEq, Eq, Structural)]
pub enum ExecutionGroupState {
    Stopped,
    Running,
}

/// The identity of one emitted effect; tokens are never reused.
#[derive(Clone, Copy, Debug, PartialEq, Eq, Hash, Structural)]
pub struct EffectToken(u64);

impl EffectToken {
    pub closed spec fn spec_value(self) -> u64 {
        self.0
    }

    pub(crate) fn new(v: u64) -> (t: EffectToken)
        ensures
            t.spec_value() == v,
    {
        EffectToken(v)
    }

    pub fn value(self) -> (v: u64)
        ensures
            v == self.spec_value(),
    {
        self.0
    }
}

/// What an effect does.
#[derive(Clone, Copy, Debug, PartialEq, Eq, Structural)]
pub enum EffectKind {
    Realize,
    Start,
    Stop,
    StartExecutionGroup,
    StopExecutionGroup,
    Cleanup,
}

/// The transition that emitted an effect.
#[derive(Clone, Copy, Debug, PartialEq, Eq, Structural)]
pub enum EffectOrigin {
    OfflineLoad,
    ReadyReload,
    FaultRetry,
    ReadyStart,
    RunningStop,
    RunningExecutionGroupStart,
    RunningExecutionGroupStop,
    FiniteSourceCompletion,
    ConfiguringUnload,
    ReadyUnload,
    RunningUnload,
    FaultUnload,
}

/// What an effect acts on.
#[derive(Debug, PartialEq, Eq)]
pub enum EffectTarget {
    Session,
    ExecutionGroup(String),
}

pub enum STarget {
    Session,
    Group(Seq<char>),
}

impl View for EffectTarget {
    type V = STarget;

    open spec fn view(&self) -> STarget {
        match self {
            EffectTarget::Session => STarget::Session,
            EffectTarget::ExecutionGroup(n) => STarget::Group(n@),
        }
    }
}

impl EffectTarget {
    pub fn duplicate(&self) -> (r: EffectTarget)
        ensures
            r@ == self@,
    {
        match self {
            EffectTarget::Session => EffectTarget::Session,
            EffectTarget::ExecutionGroup(n) => EffectTarget::ExecutionGroup(n.clone()),
        }
    }
}

impl Clone for EffectTarget {
    fn clone(&self) -> (r: Self)
        ensures
            r@ == self@,
    {
        self.duplicate()
    }
}

/// What a successful effect reports.
#[derive(Debug, PartialEq, Eq)]
pub enum LifecycleEffectSuccess {
    Completed,
    /// A realization that names the execution groups it created.
    Realized { execution_groups: Vec<String> },
}

pub enum SSuccess {
    Completed,
    Realized(Seq<Seq<char>>),
}

impl View for LifecycleEffectSuccess {
    type V = SSuccess;

    open spec fn view(&self) -> SSuccess {
        match self {
            LifecycleEffectSuccess::Completed => SSuccess::Completed,
            LifecycleEffectSuccess::Realized { execution_groups } => SSuccess::Realized(
                config::texts_view(execution_groups@),
            ),
        }
    }
}

impl LifecycleEffectSuccess {
    pub fn duplicate(&self) -> (r: LifecycleEffectSuccess)
        ensures
            r@ == self@,
    {
        match self {
            LifecycleEffectSuccess::Completed => LifecycleEffectSuccess::Completed,
            LifecycleEffectSuccess::Realized { execution_groups } => LifecycleEffectSuccess::Realized {
                execution_groups: config::clone_texts(execution_groups),
            },
        }
    }
}

impl Clone for LifecycleEffectSuccess {
    fn clone(&self) -> (r: Self)
        ensures
            r@ == self@,
    {
        self.duplicate()
    }
}

/// One typed blocking effect for an executor to perform after the handler returned.
#[derive(Debug, PartialEq, Eq)]
pub enum LifecycleEffect {
    Realize { token: EffectToken, origin: EffectOrigin, config: ConfigurationInput },
    Start { token: EffectToken, origin: EffectOrigin },
    Stop { token: EffectToken, origin: EffectOrigin },
    StartExecutionGroup { token: EffectToken, origin: EffectOrigin, name: String },
    StopExecutionGroup { token: EffectToken, origin: EffectOrigin, name: String },
    Cleanup { token: EffectToken, origin: EffectOrigin },
}

pub enum SEffect {
    Realize { token: u64, origin: EffectOrigin, config: SInput },
    Start { token: u64, origin: EffectOrigin },
    Stop { token: u64, origin: EffectOrigin },
    StartGroup { token: u64, origin: EffectOrigin, name: Seq<char> },
    StopGroup { token: u64, origin: EffectOrigin, name: Seq<char> },
    Cleanup { token: u64, origin: EffectOrigin },
}

impl View for LifecycleEffect {
    type V = SEffect;

    open spec fn view(&self) -> SEffect {
        match self {
            LifecycleEffect::Realize { token, origin, config } => SEffect::Realize {
                token: token.spec_value(),
                origin: *origin,
                config: config@,
            },
            LifecycleEffect::Start { token, origin } => SEffect::Start { token: token.spec_value(), origin: *origin },
            LifecycleEffect::Stop { token, origin } => SEffect::Stop { token: token.spec_value(), origin: *origin },
            LifecycleEffect::StartExecutionGroup { token, origin, name } => SEffect::StartGroup {
                token: token.spec_value(),
                origin: *origin,
                name: name@,
            },
            LifecycleEffect::StopExecutionGroup { token, origin, name } => SEffect::StopGroup {
                token: token.spec_value(),
                origin: *origin,
                name: name@,
            },
            LifecycleEffect::Cleanup { token, origin } => SEffect::Cleanup {
                token: token.spec_value(),
                origin: *origin,
            },
        }
    }
}

pub open spec fn effect_token(e: SEffect) -> u64 {
    match e {
        SEffect::Realize { token, .. } => token,
        SEffect::Start { token, .. } => token,
        SEffect::Stop { token, .. } => token,
        SEffect::StartGroup { token, .. } => token,
        SEffect::StopGroup { token, .. } => token,
        SEffect::Cleanup { token, .. } => token,
    }
}

pub open spec fn effect_kind(e: SEffect) -> EffectKind {
    match e {
        SEffect::Realize { .. } => EffectKind::Realize,
        SEffect::Start { .. } => EffectKind::Start,
        SEffect::Stop { .. } => EffectKind::Stop,
        SEffect::StartGroup { .. } => EffectKind::StartExecutionGroup,
        SEffect::StopGroup { .. } => EffectKind::StopExecutionGroup,
        SEffect::Cleanup { .. } => EffectKind::Cleanup,
    }
}

pub open spec fn effect_origin(e: SEffect) -> EffectOrigin {
    match e {
        SEffect::Realize { origin, .. } => origin,
        SEffect::Start { origin, .. } => origin,
        SEffect::Stop { origin, .. } => origin,
        SEffect::StartGroup { origin, .. } => origin,
        SEffect::StopGroup { origin, .. } => origin,
        SEffect::Cleanup { origin, .. } => origin,
    }
}

pub open spec fn effect_target(e: SEffect) -> STarget {
    match e {
        SEffect::StartGroup { name, .. } => STarget::Group(name),
        SEffect::StopGroup { name, .. } => STarget::Group(name),
        _ => STarget::Session,
    }
}

impl LifecycleEffect {
    pub fn token(&self) -> (t: EffectToken)
        ensures
            t.spec_value() == effect_token(self@),
    {
        match self {
            LifecycleEffect::Realize { token, .. } => *token,
            LifecycleEffect::Start { token, .. } => *token,
            LifecycleEffect::Stop { token, .. } => *token,
            LifecycleEffect::StartExecutionGroup { token, .. } => *token,
            LifecycleEffect::StopExecutionGroup { token, .. } => *token,
            LifecycleEffect::Cleanup { token, .. } => *token,
        }
    }

    pub fn kind(&self) -> (k: EffectKind)
        ensures
            k == effect_kind(self@),
    {
        match self {
            LifecycleEffect::Realize { .. } => EffectKind::Realize,
            LifecycleEffect::Start { .. } => EffectKind::Start,
            LifecycleEffect::Stop { .. } => EffectKind::Stop,
            LifecycleEffect::StartExecutionGroup { .. } => EffectKind::StartExecutionGroup,
            LifecycleEffect::StopExecutionGroup { .. } => EffectKind::StopExecutionGroup,
            LifecycleEffect::Cleanup { .. } => EffectKind::Cleanup,
        }
    }

    pub fn origin(&self) -> (o: EffectOrigin)
        ensures
            o == effect_origin(self@),
    {
        match self {
            LifecycleEffect::Realize { origin, .. } => *origin,
            LifecycleEffect::Start { origin, .. } => *origin,
            LifecycleEffect::Stop { origin, .. } => *origin,
            LifecycleEffect::StartExecutionGroup { origin, .. } => *origin,
            LifecycleEffect::StopExecutionGroup { origin, .. } => *origin,
            LifecycleEffect::Cleanup { origin, .. } => *origin,
        }
    }

    pub fn target(&self) -> (t: EffectTarget)
        ensures
            t@ == effect_target(self@),
    {
        match self {
            LifecycleEffect::StartExecutionGroup { name, .. } => EffectTarget::ExecutionGroup(name.clone()),
            LifecycleEffect::StopExecutionGroup { name, .. } => EffectTarget::ExecutionGroup(name.clone()),
            _ => EffectTarget::Session,
        }
    }

    pub fn duplicate(&self) -> (r: LifecycleEffect)
        ensures
            r@ == self@,
    {
        match self {
            LifecycleEffect::Realize { token, origin, config } => LifecycleEffect::Realize {
                token: *token,
                origin: *origin,
                config: config.duplicate(),
            },
            LifecycleEffect::Start { token, origin } => LifecycleEffect::Start { token: *token, origin: *origin },
            LifecycleEffect::Stop { token, origin } => LifecycleEffect::Stop { token: *token, origin: *origin },
            LifecycleEffect::StartExecutionGroup { token, origin, name } => LifecycleEffect::StartExecutionGroup {
                token: *token,
                origin: *origin,
                name: name.clone(),
            },
            LifecycleEffect::StopExecutionGroup { token, origin, name } => LifecycleEffect::StopExecutionGroup {
                token: *token,
                origin: *origin,
                name: name.clone(),
            },
            LifecycleEffect::Cleanup { token, origin } => LifecycleEffect::Cleanup { token: *token, origin: *origin },
        }
    }
}

impl Clone for LifecycleEffect {
    fn clone(&self) -> (r: Self)
        ensures
            r@ == self@,
    {
        self.duplicate()
    }
}

/// The typed completion of one effect, sent back to the dispatcher.
#[derive(Debug, PartialEq, Eq)]
pub struct LifecycleEffectResult {
    pub token: EffectToken,
    pub kind: EffectKind,
    pub origin: EffectOrigin,
    pub target: EffectTarget,
    pub result: Result<LifecycleEffectSuccess, ScientificDiagnostic>,
}

pub struct SResult {
    pub token: u64,
    pub kind: EffectKind,
    pub origin: EffectOrigin,
    pub target: STarget,
    pub result: Result<SSuccess, DiagnosticView>,
}

pub open spec fn success_result(r: Result<LifecycleEffectSuccess, ScientificDiagnostic>) -> Result<
    SSuccess,
    DiagnosticView,
> {
    match r {
        Ok(s) => Ok(s@),
        Err(d) => Err(d@),
    }
}

impl View for LifecycleEffectResult {
    type V = SResult;

    open spec fn view(&self) -> SResult {
        SResult {
            token: self.token.spec_value(),
            kind: self.kind,
            origin: self.origin,
            target: self.target@,
            result: success_result(self.result),
        }
    }
}

/// The completion of effect `e` with outcome `r`.
pub open spec fn completion_of(e: SEffect, r: Result<SSuccess, DiagnosticView>) -> SResult {
    SResult {
        token: effect_token(e),
        kind: effect_kind(e),
        origin: effect_origin(e),
        target: effect_target(e),
        result: r,
    }
}

impl LifecycleEffectResult {
    /// The completion of `effect`, which either completed or failed.
    pub fn from_effect(effect: &LifecycleEffect, result: Result<(), ScientificDiagnostic>) -> (r: Self)
        ensures
            r@ == completion_of(
                effect@,
                match result {
                    Ok(()) => Ok(SSuccess::Completed),
                    Err(d) => Err(d@),
                },
            ),
    {
        let output = match result {
            Ok(()) => Ok(LifecycleEffectSuccess::Completed),
            Err(d) => Err(d),
        };
        Self::from_output(effect, output)
    }

    /// The completion of `effect` with the executor's output.
    pub fn from_output(
        effect: &LifecycleEffect,
        result: Result<LifecycleEffectSuccess, ScientificDiagnostic>,
    ) -> (r: Self)
        ensures
            r@ == completion_of(effect@, success_result(result)),
    {
        LifecycleEffectResult {
            token: effect.token(),
            kind: effect.kind(),
            origin: effect.origin(),
            target: effect.target(),
            result,
        }
    }
}

/// An RTC-domain event for the dispatcher.
#[derive(Debug, PartialEq, Eq)]
pub enum LifecycleEvent {
    Load(ConfigurationInput),
    Start,
    Stop,
    StartExecutionGroup(String),
    StopExecutionGroup(String),
    Reload(ConfigurationInput),
    Retry,
    Unload,
    RequiredObjectFailed(ScientificDiagnostic),
    FiniteSourceCompleted,
    EffectCompleted(LifecycleEffectResult),
}

pub enum SEvent {
    Load(SInput),
    Start,
    Stop,
    StartGroup(Seq<char>),
    StopGroup(Seq<char>),
    Reload(SInput),
    Retry,
    Unload,
    RequiredObjectFailed(DiagnosticView),
    FiniteSourceCompleted,
    EffectCompleted(SResult),
}

impl View for LifecycleEvent {
    type V = SEvent;

    open spec fn view(&self) -> SEvent {
        match self {
            LifecycleEvent::Load(c) => SEvent::Load(c@),
            LifecycleEvent::Start => SEvent::Start,
            LifecycleEvent::Stop => SEvent::Stop,
            LifecycleEvent::StartExecutionGroup(n) => SEvent::StartGroup(n@),
            LifecycleEvent::StopExecutionGroup(n) => SEvent::StopGroup(n@),
            LifecycleEvent::Reload(c) => SEvent::Reload(c@),
            LifecycleEvent::Retry => SEvent::Retry,
            LifecycleEvent::Unload => SEvent::Unload,
            LifecycleEvent::RequiredObjectFailed(d) => SEvent::RequiredObjectFailed(d@),
            LifecycleEvent::FiniteSourceCompleted => SEvent::FiniteSourceCompleted,
            LifecycleEvent::EffectCompleted(r) => SEvent::EffectCompleted(r@),
        }
    }
}

/// The state after an accepted event, and the effect it emitted, if any.
#[derive(Debug, PartialEq, Eq)]
pub struct DispatchOutcome {
    pub state: LifecycleState,
    pub effect: Option<LifecycleEffect>,
}

/// Why the dispatcher refused an event.
#[derive(Debug, PartialEq, Eq)]
pub struct DispatchError(String);

impl DispatchError {
    pub closed spec fn spec_message(&self) -> Seq<char> {
        self.0@
    }

    /// The explanation of the refusal.
    pub fn message(&self) -> (m: &str)
        ensures
            m@ == self.spec_message(),
    {
        self.0.as_str()
    }

    pub fn new(message: String) -> (e: DispatchError)
        ensures
            e.spec_message() == message@,
    {
        DispatchError(message)
    }
}

} // verus!
