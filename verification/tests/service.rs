use tower_lsp::jsonrpc::{ErrorCode, Id, Response, RpcError};
use tower_lsp::routes::method_kind;
use tower_lsp::service::{
    decide, initialize_finished, is_protocol_method, is_silenced, not_initialized_response,
    readiness, refuses_calls, service_response, Admission, ExitedError, MethodKind, Readiness,
    State,
};

fn error_code(a: &Admission) -> Option<ErrorCode> {
    match a {
        Admission::Answer(Some(r)) => r.error().map(|e| e.code),
        _ => None,
    }
}

#[test]
fn initializes_only_once() {
    let state = State::Uninitialized;
    let (state, admission) = decide(MethodKind::Initialize, Some(Id::Number(1)), state);
    assert_eq!(state, State::Initializing);
    assert!(matches!(admission, Admission::Forward));
    assert_eq!(readiness(state), Readiness::Pending);
    let state = initialize_finished(true);
    assert_eq!(state, State::Initialized);

    let (state, admission) = decide(MethodKind::Initialize, Some(Id::Number(1)), state);
    assert_eq!(state, State::Initialized);
    match admission {
        Admission::Answer(Some(r)) => {
            assert_eq!(r, Response::from_error(Id::Number(1), RpcError::invalid_request()))
        }
        _ => panic!("expected an answer"),
    }
}

#[test]
fn failed_initialize_can_be_retried() {
    assert_eq!(initialize_finished(false), State::Uninitialized);
}

#[test]
fn refuses_requests_after_shutdown() {
    let (state, admission) = decide(MethodKind::Shutdown, Some(Id::Number(1)), State::Initialized);
    assert_eq!(state, State::ShutDown);
    assert!(matches!(admission, Admission::Forward));
    let (state, admission) = decide(MethodKind::Shutdown, Some(Id::Number(1)), state);
    assert_eq!(state, State::ShutDown);
    assert_eq!(error_code(&admission), Some(ErrorCode::InvalidRequest));
    let (_, admission) = decide(MethodKind::Normal, Some(Id::Number(2)), state);
    assert_eq!(error_code(&admission), Some(ErrorCode::InvalidRequest));
}

#[test]
fn refuses_requests_before_initialize() {
    let (state, admission) = decide(MethodKind::Normal, Some(Id::Number(2)), State::Uninitialized);
    assert_eq!(state, State::Uninitialized);
    assert_eq!(error_code(&admission), Some(ErrorCode::ServerError(-32002)));
    let (_, admission) = decide(MethodKind::Normal, None, State::Uninitialized);
    assert!(matches!(admission, Admission::Answer(None)));
    assert_eq!(not_initialized_response(None, State::Initialized), None);
}

#[test]
fn exit_notification() {
    let (state, admission) = decide(MethodKind::Exit, None, State::Initialized);
    assert_eq!(state, State::Exited);
    assert!(matches!(admission, Admission::Forward));
    assert_eq!(readiness(state), Readiness::Exited);
    assert!(refuses_calls(state));
    assert!(!refuses_calls(State::Initialized));
    assert_eq!(ExitedError::new().message(), "language server has exited");
}

#[test]
fn silences_protocol_methods() {
    assert!(is_protocol_method("$/cancelRequest"));
    assert!(!is_protocol_method("initialize"));
    assert!(is_silenced(ErrorCode::MethodNotFound, Some("$/foo")));
    assert!(!is_silenced(ErrorCode::InvalidRequest, Some("$/foo")));
    let mut error = RpcError::method_not_found();
    error.data = Some(j(r#""$/progress""#));
    assert_eq!(service_response(Some(Response::from_error(Id::Number(1), error))), None);
    let mut error = RpcError::method_not_found();
    error.data = Some(j(r#""foo""#));
    let kept = Response::from_error(Id::Number(1), error);
    assert_eq!(service_response(Some(kept.clone())), Some(kept));
    assert_eq!(service_response(None), None);
}

#[test]
fn kinds_of_methods() {
    assert_eq!(method_kind("initialize"), MethodKind::Initialize);
    assert_eq!(method_kind("shutdown"), MethodKind::Shutdown);
    assert_eq!(method_kind("textDocument/hover"), MethodKind::Normal);
}

fn j(text: &str) -> serde_json::Value {
    serde_json::from_str(text).unwrap()
}

#[test]
fn keeps_other_method_not_found_errors() {
    let mut error = RpcError::method_not_found();
    error.data = Some(j(r#""textDocument/foo""#));
    let reply = Some(Response::from_error(Id::Number(2), error));
    assert_eq!(service_response(reply.clone()), reply);
    let mut error = RpcError::method_not_found();
    error.data = Some(j(r#"7"#));
    let reply = Some(Response::from_error(Id::Number(3), error));
    assert_eq!(service_response(reply.clone()), reply);
    let mut error = RpcError::method_not_found();
    error.data = Some(j(r#""$/progress""#));
    assert_eq!(service_response(Some(Response::from_error(Id::Number(4), error))), None);
}
