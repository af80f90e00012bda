use tower_lsp::jsonrpc::{
    id_of_field, not_initialized_error, ErrorCode, Id, IdField, JsonParts, Params, Request,
    Response, RpcError,
};

#[test]
fn error_codes_round_trip() {
    let codes = [
        (ErrorCode::ParseError, -32700),
        (ErrorCode::InvalidRequest, -32600),
        (ErrorCode::MethodNotFound, -32601),
        (ErrorCode::InvalidParams, -32602),
        (ErrorCode::InternalError, -32603),
        (ErrorCode::RequestCancelled, -32800),
        (ErrorCode::ContentModified, -32801),
        (ErrorCode::ServerError(-32002), -32002),
    ];
    for (code, number) in codes {
        assert_eq!(code.code(), number);
        assert_eq!(ErrorCode::from(number), code);
    }
    assert_eq!(ErrorCode::from(7), ErrorCode::ServerError(7));
    assert_eq!(ErrorCode::from(7).code(), 7);
}

#[test]
fn error_descriptions() {
    assert_eq!(ErrorCode::ParseError.description(), "Parse error");
    assert_eq!(ErrorCode::InvalidRequest.description(), "Invalid request");
    assert_eq!(ErrorCode::MethodNotFound.description(), "Method not found");
    assert_eq!(ErrorCode::InvalidParams.description(), "Invalid params");
    assert_eq!(ErrorCode::InternalError.description(), "Internal error");
    assert_eq!(ErrorCode::RequestCancelled.description(), "Canceled");
    assert_eq!(ErrorCode::ContentModified.description(), "Content modified");
    assert_eq!(ErrorCode::ServerError(1).description(), "Server error");
}

#[test]
fn error_constructors() {
    let e = RpcError::parse_error();
    assert_eq!(e.code, ErrorCode::ParseError);
    assert_eq!(e.message, "Parse error");
    assert_eq!(e.data, None);
    assert_eq!(RpcError::request_cancelled().message, "Canceled");
    assert_eq!(RpcError::invalid_params("bad".to_owned()).code, ErrorCode::InvalidParams);
    assert_eq!(RpcError::invalid_params("bad".to_owned()).message, "bad");
    let n = not_initialized_error();
    assert_eq!(n.code, ErrorCode::ServerError(-32002));
    assert_eq!(n.code.code(), -32002);
    assert_eq!(n.message, "Server not initialized");
}

#[test]
fn ids_from_values() {
    assert_eq!(Id::from(-1i64), Id::Number(-1));
    assert_eq!(Id::from("abc".to_owned()), Id::String("abc".to_owned()));
    assert_eq!(Id::from_str("x"), Id::String("x".to_owned()));
    assert_eq!(Id::Number(3).clone(), Id::Number(3));
}

#[test]
fn response_parts_round_trip() {
    let ok = Response::from_parts(Id::Number(1), Ok(j(r#"123"#)));
    assert!(ok.is_ok());
    assert!(!ok.is_error());
    assert_eq!(ok.result(), Some(&j(r#"123"#)));
    assert_eq!(ok.error(), None);
    assert_eq!(ok.id(), &Id::Number(1));
    assert_eq!(ok.into_parts(), (Id::Number(1), Ok(j(r#"123"#))));

    let err = Response::from_error(Id::Null, RpcError::parse_error());
    assert!(err.is_error());
    assert_eq!(err.result(), None);
    assert_eq!(err.error().map(|e| e.code), Some(ErrorCode::ParseError));
    assert_eq!(err.into_parts(), (Id::Null, Err(RpcError::parse_error())));
}

#[test]
fn request_builder_sets_fields() {
    let request = Request::build("first").finish();
    assert_eq!(request.method(), "first");
    assert_eq!(request.id(), None);
    assert_eq!(request.params(), None);

    let request = Request::build("second").params(j(r#"{"foo": 1}"#)).id(7i64).finish();
    assert_eq!(request.method(), "second");
    assert_eq!(request.id(), Some(&Id::Number(7)));
    assert_eq!(request.params(), Some(&j(r#"{"foo": 1}"#)));
    let (method, id, params) = request.into_parts();
    assert_eq!(method, "second");
    assert_eq!(id, Some(Id::Number(7)));
    assert_eq!(params, Some(j(r#"{"foo": 1}"#)));
}

#[test]
fn params_from_json_parts() {
    let array = Params::from_parts(JsonParts::Array(vec![j(r#"1"#)])).unwrap();
    assert_eq!(array, Params::Array(vec![j(r#"1"#)]));
    assert!(Params::from_parts(JsonParts::Scalar(j(r#""x""#))).is_err());
    assert_eq!(Params::try_from_value(j(r#"[1, 2]"#)).unwrap(), Params::Array(vec![j(r#"1"#), j(r#"2"#)]));
    assert!(Params::try_from_value(j(r#"null"#)).is_err());
    assert!(Params::try_from_value(j(r#"3"#)).is_err());
    let object = Params::try_from_value(j(r#"{"a": 1}"#)).unwrap();
    assert!(matches!(object, Params::Object(_)));
    assert_eq!(object.into_value(), j(r#"{"a": 1}"#));
}

#[test]
fn reads_id_fields() {
    assert_eq!(id_of_field(IdField::Number(Some(-1))), Some(Some(Id::Number(-1))));
    assert_eq!(id_of_field(IdField::Number(None)), Some(None));
    assert_eq!(id_of_field(IdField::String("a".to_owned())), Some(Some(Id::String("a".to_owned()))));
    assert_eq!(id_of_field(IdField::Other), Some(None));
}

fn j(text: &str) -> serde_json::Value {
    serde_json::from_str(text).unwrap()
}

#[test]
fn params_print_as_json() {
    let array = Params::try_from_value(j(r#"[1, "two"]"#)).unwrap();
    assert_eq!(array.to_text().unwrap(), r#"[1,"two"]"#);
    let object = Params::try_from_value(j(r#"{"a": null}"#)).unwrap();
    assert_eq!(object.to_text().unwrap(), r#"{"a":null}"#);
}
