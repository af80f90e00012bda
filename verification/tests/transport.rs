use bytes::BytesMut;
use tower_lsp::codec::{LanguageServerCodec, ParseError};
use tower_lsp::jsonrpc::{ErrorCode, Id, Message, Request, Response, RpcError};
use tower_lsp::stdio;
use tower_lsp::transport::{
    decode_failure_response, display_sources, jsonrpc_error_for, route_input, to_jsonrpc_error,
    InputAction, Server, DEFAULT_MAX_CONCURRENCY,
};
use tower_lsp::codec::ParseErrorKind;

#[test]
fn sets_concurrency_level() {
    let server = Server::new(1u8, 2u8, 3u8);
    assert_eq!(server.max_concurrency(), DEFAULT_MAX_CONCURRENCY);
    assert_eq!(DEFAULT_MAX_CONCURRENCY, 4);
    let server = server.concurrency_level(1);
    assert_eq!(server.max_concurrency(), 1);
    assert_eq!(server.into_parts(), (1, 2, 3, 1));
}

#[test]
fn stdio_server_interleaves() {
    let server = stdio::Server::new(1u8, 2u8);
    let server = server.interleave(vec!["x".to_owned()]);
    let (i, o, s) = server.into_parts();
    assert_eq!((i, o, s), (1, 2, vec!["x".to_owned()]));
}

#[test]
fn displays_error_sources() {
    let chain = vec!["outer".to_owned(), "middle".to_owned(), "inner".to_owned()];
    assert_eq!(display_sources(&chain), "outer: middle: inner");
    assert_eq!(display_sources(&chain[..1]), "outer");
    assert_eq!(display_sources(&[]), "");
    assert_eq!(stdio::display_sources(&chain[1..]), "middle: inner");
}

fn decode_error(input: &str) -> ParseError {
    let mut codec = LanguageServerCodec::new();
    let mut buffer = BytesMut::from(input);
    codec.decode(&mut buffer).unwrap_err()
}

#[test]
fn maps_decode_errors() {
    let invalid = r#"{"jsonrpc":"2.0","method":"#;
    let message = format!("Content-Length: {}\r\n\r\n{}", invalid.len(), invalid);
    let err = decode_error(&message);
    assert!(matches!(err, ParseError::Body(_)));
    assert_eq!(to_jsonrpc_error(err), RpcError::parse_error());

    let err = decode_error("Content-Length: x\r\n\r\n");
    assert_eq!(to_jsonrpc_error(err).code, ErrorCode::ParseError);

    assert_eq!(jsonrpc_error_for(ParseErrorKind::Body, true), RpcError::invalid_request());
    assert_eq!(jsonrpc_error_for(ParseErrorKind::Body, false), RpcError::parse_error());
    assert_eq!(jsonrpc_error_for(ParseErrorKind::Utf8, true), RpcError::parse_error());
}

#[test]
fn handles_invalid_json() {
    let invalid = r#"{"jsonrpc":"2.0","method":"#;
    let message = format!("Content-Length: {}\r\n\r\n{}", invalid.len(), invalid);
    let response = decode_failure_response(decode_error(&message));
    assert_eq!(response, Response::from_error(Id::Null, RpcError::parse_error()));
}

#[test]
fn routes_input_messages() {
    let request = Request::build("initialize").id(1i64).finish();
    assert!(matches!(route_input(Ok(Message::Request(request.clone()))), InputAction::Serve(r) if r == request));
    let response = Response::from_ok(Id::Number(1), j(r#"null"#));
    assert!(matches!(route_input(Ok(Message::Response(response.clone()))), InputAction::Forward(r) if r == response));
    assert!(matches!(route_input(Ok(Message::Invalid { id: None })), InputAction::Ignore));
    match route_input(Ok(Message::Invalid { id: Some(Some(Id::Number(3))) })) {
        InputAction::Reply(r) => assert_eq!(r, Response::from_error(Id::Number(3), RpcError::invalid_request())),
        _ => panic!("expected a reply"),
    }
    match route_input(Ok(Message::Invalid { id: Some(None) })) {
        InputAction::Reply(r) => assert_eq!(r, Response::from_error(Id::Null, RpcError::invalid_request())),
        _ => panic!("expected a reply"),
    }
    match route_input(Err(decode_error("Content-Length: x\r\n\r\n"))) {
        InputAction::Reply(r) => assert_eq!(r, Response::from_error(Id::Null, RpcError::parse_error())),
        _ => panic!("expected a reply"),
    }
}

fn j(text: &str) -> serde_json::Value {
    serde_json::from_str(text).unwrap()
}
