use tower_lsp::jsonrpc::router::{
    handler_step, HandlerStep,
    early_response, notification_into_response, params_error_response, request_into_response,
    required_from_params, unit_from_params, unknown_method_response,
};
use tower_lsp::jsonrpc::{ErrorCode, Id, Request, Response, Router, RpcError};

#[test]
fn responds_to_nonexistent_request() {
    let request = Request::build("foo").id(0i64).finish();
    let response = unknown_method_response(request);
    let mut error = RpcError::method_not_found();
    error.data = Some("foo".into());
    assert_eq!(response, Some(Response::from_error(Id::Number(0), error)));
}

#[test]
fn ignores_nonexistent_notification() {
    let request = Request::build("foo").finish();
    assert_eq!(unknown_method_response(request), None);
}

#[test]
fn handles_incorrect_request_types() {
    // A notification sent to a request handler is dropped.
    assert_eq!(early_response(&None, false), Some(None));
    // A request sent to a notification handler is an invalid request.
    assert_eq!(
        early_response(&Some(Id::Number(0)), true),
        Some(Some(Response::from_error(Id::Number(0), RpcError::invalid_request())))
    );
    // Matching kinds go on to the method.
    assert_eq!(early_response(&Some(Id::Number(0)), false), None);
    assert_eq!(early_response(&None, true), None);
}

#[test]
fn rejects_request_with_invalid_params() {
    let message = "invalid type: string \"wrong\", expected struct Params".to_owned();
    let parsed: Result<i32, RpcError> = required_from_params(Some(Err(message.clone())));
    let err = parsed.unwrap_err();
    assert_eq!(err, RpcError::invalid_params(message));
    assert_eq!(
        params_error_response(Some(Id::Number(0)), err),
        Some(Response::from_error(
            Id::Number(0),
            RpcError::invalid_params(
                "invalid type: string \"wrong\", expected struct Params".to_owned()
            )
        ))
    );
}

#[test]
fn ignores_notification_with_invalid_params() {
    assert_eq!(params_error_response(None, RpcError::invalid_params("x".to_owned())), None);
}

#[test]
fn reads_method_parameters() {
    assert_eq!(unit_from_params(None), Ok(()));
    let err = unit_from_params(Some(j(r#"[1]"#))).unwrap_err();
    assert_eq!(err.code, ErrorCode::InvalidParams);
    assert_eq!(err.message, "Unexpected params: [1]");
    let missing: Result<i32, RpcError> = required_from_params(None);
    assert_eq!(missing.unwrap_err().message, "Missing params field");
    assert_eq!(required_from_params(Some(Ok(5))), Ok(5));
}

#[test]
fn builds_method_responses() {
    assert_eq!(notification_into_response(None), None);
    assert_eq!(
        notification_into_response(Some(Id::Number(2))),
        Some(Response::from_error(Id::Number(2), RpcError::invalid_request()))
    );
    assert_eq!(
        request_into_response(Some(Id::Number(1)), Ok(Ok(j(r#"null"#)))),
        Some(Response::from_ok(Id::Number(1), j(r#"null"#)))
    );
    let internal = request_into_response(Some(Id::Number(1)), Ok(Err("boom".to_owned()))).unwrap();
    assert_eq!(internal.error().map(|e| (e.code, e.message.clone())), Some((ErrorCode::InternalError, "boom".to_owned())));
    assert_eq!(request_into_response(None, Ok(Ok(j(r#"1"#)))), None);
    assert_eq!(
        request_into_response(Some(Id::Number(3)), Err(RpcError::parse_error())),
        Some(Response::from_error(Id::Number(3), RpcError::parse_error()))
    );
}

#[test]
fn routes_to_first_registration() {
    let mut router: Router<u8, &'static str> = Router::new(9);
    router.method("first", "a");
    router.method("second", "b");
    router.method("first", "c");
    assert_eq!(router.lookup("first"), Some(0));
    assert_eq!(router.lookup("second"), Some(1));
    assert_eq!(router.lookup("third"), None);
    assert_eq!(*router.handler_mut(0), "a");
    assert_eq!(*router.inner(), 9);
    *router.inner_mut() = 10;
    assert_eq!(*router.inner(), 10);
}

fn j(text: &str) -> serde_json::Value {
    serde_json::from_str(text).unwrap()
}

#[test]
fn steps_method_handlers() {
    let never = |_: Option<serde_json::Value>| -> Result<i32, RpcError> { panic!("params read") };
    match handler_step(&Some(Id::Number(0)), true, None, never) {
        HandlerStep::Answer(a) => assert_eq!(a, Some(Response::from_error(Id::Number(0), RpcError::invalid_request()))),
        HandlerStep::Call(_) => panic!("called"),
    }
    assert!(matches!(handler_step(&None, false, None, never), HandlerStep::Answer(None)));
    let read = |p: Option<serde_json::Value>| -> Result<i32, RpcError> {
        match p {
            Some(v) => v.as_i64().map(|n| n as i32).ok_or_else(|| RpcError::invalid_params("bad".to_owned())),
            None => Err(RpcError::invalid_params("Missing params field".to_owned())),
        }
    };
    assert!(matches!(handler_step(&Some(Id::Number(1)), false, Some(j("5")), read), HandlerStep::Call(5)));
    match handler_step(&Some(Id::Number(2)), false, Some(j(r#""x""#)), read) {
        HandlerStep::Answer(a) => {
            assert_eq!(a, Some(Response::from_error(Id::Number(2), RpcError::invalid_params("bad".to_owned()))))
        }
        HandlerStep::Call(_) => panic!("called"),
    }
    assert!(matches!(handler_step(&None, true, Some(j(r#""x""#)), read), HandlerStep::Answer(None)));
}
