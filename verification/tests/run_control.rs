use pipewireao_rtc::{
    build_request, parse_status, ParamsValue, PodField, PropsObject, RunControlStatus, RunState,
};

const VERSION: i32 = 1;
const VERSION_KEY: &str = "pipewireao.run-control.version";
const REQUEST_TOKEN_KEY: &str = "pipewireao.run-control.request-token";
const REQUESTED_STATE_KEY: &str = "pipewireao.run-control.requested-state";
const COMPLETED_TOKEN_KEY: &str = "pipewireao.run-control.completed-token";
const RESULT_KEY: &str = "pipewireao.run-control.result";
const ACTUAL_STATE_KEY: &str = "pipewireao.run-control.actual-state";

fn status_props(version: i32, token: i64, result: i32, state: &str) -> PropsObject {
    PropsObject {
        is_props: true,
        params: vec![ParamsValue::Struct(vec![
            PodField::String(VERSION_KEY.to_owned()),
            PodField::Int(version),
            PodField::String(COMPLETED_TOKEN_KEY.to_owned()),
            PodField::Long(token),
            PodField::String(RESULT_KEY.to_owned()),
            PodField::Int(result),
            PodField::String(ACTUAL_STATE_KEY.to_owned()),
            PodField::String(state.to_owned()),
        ])],
    }
}

#[test]
fn request_uses_the_versioned_props_contract() {
    let fields = build_request(23, RunState::Running).expect("request");
    assert_eq!(
        fields,
        vec![
            PodField::String(VERSION_KEY.to_owned()),
            PodField::Int(VERSION),
            PodField::String(REQUEST_TOKEN_KEY.to_owned()),
            PodField::Long(23),
            PodField::String(REQUESTED_STATE_KEY.to_owned()),
            PodField::String("running".to_owned()),
        ]
    );
    assert!(build_request(0, RunState::Stopped).is_err());
    assert!(build_request(1, RunState::Unknown).is_err());
}

#[test]
fn status_validation_distinguishes_scientific_props_and_protocol_errors() {
    assert_eq!(
        parse_status(&status_props(VERSION, 23, 0, "stopped")),
        Ok(Some(RunControlStatus {
            completed_token: 23,
            result: 0,
            actual_state: RunState::Stopped,
        }))
    );

    let scientific = PropsObject {
        is_props: true,
        params: vec![ParamsValue::Struct(vec![
            PodField::String("gain".to_owned()),
            PodField::Other,
        ])],
    };
    assert_eq!(parse_status(&scientific), Ok(None));

    assert!(parse_status(&status_props(2, 23, 0, "stopped"))
        .expect_err("unsupported version")
        .contains("unsupported"));
    assert!(parse_status(&status_props(VERSION, -1, 0, "stopped"))
        .expect_err("negative token")
        .contains("nonnegative"));
    assert!(parse_status(&status_props(VERSION, 23, 0, "paused"))
        .expect_err("unknown state")
        .contains("not defined"));
}

#[test]
fn request_errors_name_the_rejected_value() {
    assert_eq!(
        build_request(-5, RunState::Running),
        Err("request-token must be positive, got -5".to_owned())
    );
    assert_eq!(
        build_request(7, RunState::Unknown),
        Err("requested-state must be stopped or running".to_owned())
    );
    assert_eq!(RunState::Stopped.wire_name(), "stopped");
    assert_eq!(
        RunState::parse(&"running".to_owned()),
        Ok(RunState::Running)
    );
}

#[test]
fn status_errors_cover_every_protocol_violation() {
    let not_props = PropsObject { is_props: false, params: vec![] };
    assert_eq!(
        parse_status(&not_props),
        Err("Props has the wrong object type or parameter id".to_owned())
    );
    let empty = PropsObject { is_props: true, params: vec![] };
    assert_eq!(parse_status(&empty), Ok(None));
    let twice = PropsObject {
        is_props: true,
        params: vec![ParamsValue::Other, ParamsValue::Other],
    };
    assert_eq!(
        parse_status(&twice),
        Err("Props declares params more than once".to_owned())
    );
    let not_struct = PropsObject { is_props: true, params: vec![ParamsValue::Other] };
    assert_eq!(
        parse_status(&not_struct),
        Err("Props params is not a Struct".to_owned())
    );
    let short = PropsObject {
        is_props: true,
        params: vec![ParamsValue::Struct(vec![
            PodField::String(VERSION_KEY.to_owned()),
            PodField::Int(1),
        ])],
    };
    assert_eq!(
        parse_status(&short),
        Err("status must contain four key/value pairs, observed 2 fields".to_owned())
    );
    let mut wrong_kind = status_props(VERSION, 23, 0, "stopped");
    if let ParamsValue::Struct(fields) = &mut wrong_kind.params[0] {
        fields[3] = PodField::Int(23);
    }
    assert_eq!(
        parse_status(&wrong_kind),
        Err("pipewireao.run-control.completed-token is missing, duplicated, or not a Long".to_owned())
    );
    assert_eq!(
        parse_status(&status_props(-3, 23, 0, "stopped")),
        Err("version -3 is unsupported".to_owned())
    );
}
