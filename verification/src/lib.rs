//! Non-actuating development runner library: configuration, topology and lifecycle.

mod diagnostic;
mod text;
mod spa_json;
mod config;
mod decode;
mod model;
mod validate;
mod session;
mod links;
mod topology;
mod groups;
mod development;
mod lifecycle;
mod dispatcher;
mod runner;
mod run_control;
mod status;
mod port_contract;
mod live_checks;
pub mod laws;

pub use config::{
    DevelopmentConfig, EndpointFactory, ExecutionGroupSpec, GraphFactory, LinkSpec,
    ObjectRealization, ObjectRole, ObjectSpec, PortDirection, PortSpec,
};
pub use diagnostic::{DiagnosticView, ScientificDiagnostic};
pub use dispatcher::LifecycleDispatcher;
pub use lifecycle::{
    ConfigurationInput, DispatchError, DispatchOutcome, EffectKind, EffectOrigin, EffectTarget,
    EffectToken, ExecutionGroupState, LifecycleEffect, LifecycleEffectResult,
    LifecycleEffectSuccess, LifecycleEvent, LifecycleState,
};
pub use run_control::{
    build_request, parse_status, ParamsValue, PodField, PropsObject, RunControlStatus, RunState,
};
pub use runner::{EffectExecutor, Runner};
pub use status::LiveGraphStatus;
pub use port_contract::{validate_live_port, ObservedFormat, ObservedNdArray, PropertyValue};
pub use live_checks::{
    admit_link, artifact_reference_check, discard_count, discard_sink_properties,
    fits_source_properties, link_properties, file_reference_variable, is_system_path,
    maintained_plugin_check, port_identity_matches, port_name_matches, realized_topology_check,
    sinks_advanced, start_topology_check, LinkAdmission, LinkObservation,
};
