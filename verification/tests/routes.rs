use tower_lsp::client::{
    printer_telemetry_params, request_result, send_failure, start_request, telemetry_params,
    RequestIds,
};
use tower_lsp::delegate::{notification_delivered, request_params, shutdown_admitted};
use tower_lsp::jsonrpc::{ErrorCode, RpcError};
use tower_lsp::routes::{
    check_annotations, gen_server_router, parse_method_calls, Attr, Guard, Input, MetaArg, Target,
    TraitItem, TraitMethod,
};
use tower_lsp::service::MethodKind;

fn method(name: &str, rpc: &str, params: Option<&str>, result: Option<&str>) -> TraitItem {
    let mut inputs = vec![Input::Receiver];
    if let Some(p) = params {
        inputs.push(Input::Typed(p.to_owned()));
    }
    TraitItem::Method(TraitMethod {
        name: name.to_owned(),
        attrs: vec![
            Attr { path: "doc".to_owned(), is_list: false, args: vec![] },
            Attr { path: "rpc".to_owned(), is_list: true, args: vec![MetaArg { key: "name".to_owned(), value: Some(rpc.to_owned()) }] },
        ],
        inputs,
        output: result.map(|r| r.to_owned()),
    })
}

#[test]
fn plans_router_registrations() {
    let items = vec![
        method("initialize", "initialize", Some("InitializeParams"), Some("Result<InitializeResult>")),
        TraitItem::Other,
        method("initialized", "initialized", Some("InitializedParams"), None),
        method("shutdown", "shutdown", None, Some("Result<()>")),
    ];
    assert!(check_annotations(&items));
    let calls = parse_method_calls(&items);
    assert_eq!(calls.len(), 3);
    assert_eq!(calls[0].rpc_name, "initialize");
    assert_eq!(calls[1].handler_name, "initialized");
    assert_eq!(calls[1].params.as_deref(), Some("InitializedParams"));
    assert_eq!(calls[1].result, None);
    assert_eq!(calls[2].params, None);

    let plan = gen_server_router(&calls);
    let names: Vec<_> = plan.iter().map(|r| r.rpc_name.as_str()).collect();
    assert_eq!(names, ["initialize", "initialized", "shutdown", "$/cancelRequest", "exit"]);
    assert_eq!(plan[0].guard, Guard::Lifecycle(MethodKind::Initialize));
    assert_eq!(plan[1].guard, Guard::Lifecycle(MethodKind::Normal));
    assert_eq!(plan[2].guard, Guard::Lifecycle(MethodKind::Shutdown));
    assert_eq!(plan[3].guard, Guard::Nothing);
    assert_eq!(plan[4].guard, Guard::Lifecycle(MethodKind::Exit));
    assert!(plan[1].shape.takes_params && !plan[1].shape.returns_result);
    assert!(matches!(&plan[2].target, Target::Handler(h) if h == "shutdown"));
    assert!(matches!(plan[3].target, Target::CancelRequest));
}

#[test]
fn requires_rpc_names() {
    let bad = TraitItem::Method(TraitMethod {
        name: "f".to_owned(),
        attrs: vec![],
        inputs: vec![Input::Receiver],
        output: None,
    });
    assert!(!check_annotations(&vec![bad]));
    let wrong_key = TraitItem::Method(TraitMethod {
        name: "f".to_owned(),
        attrs: vec![Attr { path: "rpc".to_owned(), is_list: true, args: vec![MetaArg { key: "nom".to_owned(), value: Some("x".to_owned()) }] }],
        inputs: vec![Input::Receiver],
        output: None,
    });
    assert!(!check_annotations(&vec![wrong_key]));
    let bare = TraitItem::Method(TraitMethod {
        name: "f".to_owned(),
        attrs: vec![Attr { path: "rpc".to_owned(), is_list: false, args: vec![] }],
        inputs: vec![Input::Receiver],
        output: None,
    });
    assert!(!check_annotations(&vec![bare]));
    let empty = TraitItem::Method(TraitMethod {
        name: "f".to_owned(),
        attrs: vec![Attr { path: "rpc".to_owned(), is_list: true, args: vec![] }],
        inputs: vec![Input::Receiver],
        output: None,
    });
    let items = vec![empty];
    assert!(check_annotations(&items));
    assert_eq!(parse_method_calls(&items)[0].rpc_name, "");
}

#[test]
fn hands_out_request_ids() {
    let mut ids = RequestIds::new();
    assert_eq!(ids.next_id(), 0);
    assert_eq!(ids.next_id(), 1);
    assert_eq!(start_request(true, &mut ids), Ok(2));
    let err = start_request(false, &mut ids).unwrap_err();
    assert_eq!(err.code, ErrorCode::ServerError(-32002));
    assert_eq!(ids.next_id(), 4);
}

#[test]
fn reads_request_results() {
    assert_eq!(request_result::<i32>(Ok(Ok(3))), Ok(3));
    let e = request_result::<i32>(Ok(Err("bad".to_owned()))).unwrap_err();
    assert_eq!((e.code, e.message.as_str()), (ErrorCode::ParseError, "bad"));
    assert_eq!(request_result::<i32>(Err(RpcError::internal_error())), Err(RpcError::internal_error()));
    assert_eq!(send_failure(), RpcError::internal_error());
}

#[test]
fn telemetry_event() {
    assert_eq!(telemetry_params(j(r#"null"#)), j(r#"null"#));
    assert_eq!(telemetry_params(j(r#"[1, 2, 3]"#)), j(r#"[1, 2, 3]"#));
    assert_eq!(telemetry_params(j(r#"{}"#)), j(r#"{}"#));
    assert_eq!(telemetry_params(j(r#""hello""#)), j(r#"["hello"]"#));
    assert_eq!(printer_telemetry_params(j(r#"null"#)), j(r#"[null]"#));
    assert_eq!(printer_telemetry_params(j(r#"{}"#)), j(r#"{}"#));
}

#[test]
fn delegate_gates_on_initialization() {
    let e = request_params::<i32>(false, Ok(1)).unwrap_err();
    assert_eq!(e.code, ErrorCode::ServerError(-32002));
    assert_eq!(request_params::<i32>(true, Ok(1)), Ok(1));
    let e = request_params::<i32>(true, Err("missing field".to_owned())).unwrap_err();
    assert_eq!(e.code, ErrorCode::InvalidParams);
    assert_eq!(e.data, Some(j(r#""missing field""#)));
    assert!(notification_delivered(true, true));
    assert!(!notification_delivered(false, true));
    assert!(shutdown_admitted(true).is_ok());
    assert!(shutdown_admitted(false).is_err());
}

fn j(text: &str) -> serde_json::Value {
    serde_json::from_str(text).unwrap()
}
