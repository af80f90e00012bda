use futures::channel::oneshot;
use futures::future::{abortable, pending, ready};
use tower_lsp::jsonrpc::pending::{duplicate_request_response, execute_response, Delivery};
use tower_lsp::jsonrpc::{ClientRequests, ErrorCode, Id, Response, RpcError, ServerRequests};
use tower_lsp::service::client::pending::Pending as ClientPending;
use tower_lsp::service::pending::{duplicate_response, execute_outcome, Pending};
use tower_lsp::service::ExitedError;

#[test]
fn pending_executes_server_request() {
    let mut table = ServerRequests::new();
    let id = Id::Number(1);
    let (_fut, handle) = abortable(ready(()));
    assert!(!table.is_running(&id));
    table.start(id.clone(), handle);
    assert!(table.is_running(&id));
    let response = execute_response(id.clone(), Some(Ok(j(r#"{}"#))));
    table.finish(&id);
    assert!(!table.is_running(&id));
    assert_eq!(response, Response::from_ok(id, j(r#"{}"#)));
}

#[test]
fn pending_cancels_server_request() {
    let mut table = ServerRequests::new();
    let id = Id::Number(1);
    let (fut, handle) = abortable(pending::<()>());
    table.start(id.clone(), handle);
    let handle = table.cancel(&id).expect("the handler is running");
    handle.abort();
    assert!(table.cancel(&id).is_none());
    assert_eq!(futures::executor::block_on(fut), Err(futures::future::Aborted));
    let res = execute_response(id.clone(), None);
    assert_eq!(res, Response::from_error(id, RpcError::request_cancelled()));
}

#[test]
fn cancels_all_server_requests() {
    let mut table = ServerRequests::new();
    let (fut1, h1) = abortable(pending::<()>());
    let (fut2, h2) = abortable(pending::<()>());
    table.start(Id::Number(1), h1);
    table.start(Id::String("two".to_owned()), h2);
    assert_eq!(table.running().len(), 2);
    let handles = table.cancel_all();
    assert_eq!(handles.len(), 2);
    for handle in handles {
        handle.abort();
    }
    assert!(table.running().is_empty());
    assert!(futures::executor::block_on(fut1).is_err());
    assert!(futures::executor::block_on(fut2).is_err());
}

#[test]
fn answers_duplicate_request() {
    let r = duplicate_request_response(Id::Number(4));
    assert_eq!(r, Response::from_error(Id::Number(4), RpcError::invalid_request()));
    let r = duplicate_response(Id::Number(4));
    assert_eq!(r, Ok(Some(Response::from_error(Id::Number(4), RpcError::invalid_request()))));
}

#[test]
fn service_pending_cancels() {
    let mut table = Pending::new();
    let id = Id::Number(1);
    let (fut, handle) = abortable(pending::<()>());
    table.start(id.clone(), handle);
    assert!(table.is_running(&id));
    table.cancel(&id).expect("the handler is running").abort();
    assert!(!table.is_running(&id));
    assert_eq!(futures::executor::block_on(fut), Err(futures::future::Aborted));
    assert_eq!(
        execute_outcome(id.clone(), None),
        Ok(Some(Response::from_error(id.clone(), RpcError::request_cancelled())))
    );
    let done: Result<Option<Response>, ExitedError> = Ok(None);
    assert_eq!(execute_outcome(id, Some(done.clone())), done);
}

#[test]
fn pending_waits_for_client_response() {
    let mut table = ClientRequests::new();
    let id = Id::Number(1);
    let (tx, mut rx) = oneshot::channel();
    table.wait(id.clone(), tx);
    assert!(table.is_waiting(&id));
    let expected = Response::from_ok(id.clone(), j(r#"{}"#));
    assert!(send(table.insert(Response::from_ok(id.clone(), j(r#"{}"#)))));
    assert!(!table.is_waiting(&id));
    assert_eq!(rx.try_recv().unwrap(), Some(expected));
    assert!(matches!(table.insert(Response::from_ok(id, j(r#"{}"#))), Delivery::UnknownId));
    assert!(matches!(
        table.insert(Response::from_error(Id::Null, RpcError::parse_error())),
        Delivery::NullId
    ));
}

#[test]
fn routes_responses_in_fifo_order() {
    let mut table = ClientPending::new();
    let id = Id::Number(1);
    let (tx1, mut rx1) = oneshot::channel();
    let (tx2, mut rx2) = oneshot::channel();
    table.wait(id.clone(), tx1);
    table.wait(id.clone(), tx2);

    let foo = Response::from_ok(id.clone(), j(r#""foo""#));
    let bar = Response::from_ok(id.clone(), j(r#""bar""#));
    assert!(send(table.insert(Response::from_ok(id.clone(), j(r#""bar""#)))));
    assert!(send(table.insert(Response::from_ok(id.clone(), j(r#""foo""#)))));

    assert_eq!(rx1.try_recv().unwrap(), Some(bar));
    assert_eq!(rx2.try_recv().unwrap(), Some(foo));
    assert!(matches!(table.insert(Response::from_ok(id, j(r#"1"#))), Delivery::UnknownId));
}

#[test]
fn hands_back_response_without_listener() {
    let mut table = ClientPending::new();
    let id = Id::Number(5);
    let (tx, rx) = oneshot::channel::<Response>();
    drop(rx);
    table.wait(id.clone(), tx);
    match table.insert(Response::from_ok(id.clone(), j(r#"1"#))) {
        Delivery::Deliver { to, response } => {
            assert_eq!(response, Response::from_ok(id.clone(), j(r#"1"#)));
            assert_eq!(to.send(response), Err(Response::from_ok(id, j(r#"1"#))));
        }
        other => panic!("unexpected {:?}", other),
    }
    let _ = ErrorCode::InvalidRequest;
}

/// Sends a delivered response on its channel, as the runtime does; whether
/// it was delivered and received.
fn send(delivery: Delivery) -> bool {
    match delivery {
        Delivery::Deliver { to, response } => to.send(response).is_ok(),
        _ => false,
    }
}

fn j(text: &str) -> serde_json::Value {
    serde_json::from_str(text).unwrap()
}

#[test]
fn starts_unless_running() {
    let mut table = ServerRequests::new();
    let id = Id::Number(3);
    let (_f1, h1) = abortable(pending::<()>());
    assert_eq!(table.try_start(id.clone(), h1), None);
    assert!(table.is_running(&id));
    let (_f2, h2) = abortable(pending::<()>());
    assert_eq!(table.try_start(id.clone(), h2), Some(Response::from_error(id.clone(), RpcError::invalid_request())));
    assert!(table.is_running(&id));

    let mut service_table = Pending::new();
    let (_f3, h3) = abortable(pending::<()>());
    assert_eq!(service_table.try_start(id.clone(), h3), None);
    let (_f4, h4) = abortable(pending::<()>());
    assert_eq!(
        service_table.try_start(id.clone(), h4),
        Some(Ok(Some(Response::from_error(id, RpcError::invalid_request()))))
    );
}

#[test]
fn routes_many_responses_in_fifo_order() {
    let mut table = ClientPending::new();
    let id = Id::String("x".to_owned());
    let mut receivers = Vec::new();
    for _ in 0..4 {
        let (tx, rx) = oneshot::channel();
        table.wait(id.clone(), tx);
        receivers.push(rx);
    }
    for k in 0..4i64 {
        assert!(send(table.insert(Response::from_ok(id.clone(), j(&k.to_string())))));
    }
    for (k, mut rx) in receivers.into_iter().enumerate() {
        assert_eq!(rx.try_recv().unwrap(), Some(Response::from_ok(id.clone(), j(&k.to_string()))));
    }
    assert!(matches!(table.insert(Response::from_ok(id, j("9"))), Delivery::UnknownId));
}
