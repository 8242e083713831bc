use codefuse::dispatcher::{Dispatcher, Route};
use codefuse::handlers::{handle_initialize, setup_handlers};
use codefuse::json::Json;
use codefuse::message::{classify, request_id, MessageKind, RequestId};

#[derive(Clone, Copy, Debug, PartialEq)]
enum Handler {
    Rebrand,
    Other,
}

fn to_json(v: &serde_json::Value) -> Json {
    match v {
        serde_json::Value::Null => Json::Null,
        serde_json::Value::Bool(b) => Json::Bool(*b),
        serde_json::Value::Number(n) => match (n.as_i64(), n.as_u64()) {
            (Some(i), _) => Json::Int(i128::from(i)),
            (None, Some(u)) => Json::Int(i128::from(u)),
            _ => Json::Decimal(n.to_string()),
        },
        serde_json::Value::String(s) => Json::Str(s.clone()),
        serde_json::Value::Array(a) => Json::Array(a.iter().map(to_json).collect()),
        serde_json::Value::Object(o) => {
            Json::Object(o.iter().map(|(k, v)| (k.clone(), to_json(v))).collect())
        }
    }
}

fn parse(text: &str) -> Json {
    to_json(&serde_json::from_str(text).unwrap())
}

fn proxy() -> Dispatcher<Handler> {
    let mut d = Dispatcher::new();
    setup_handlers(&mut d, Handler::Rebrand);
    d
}

fn forwarded(route: Route<Handler>) -> Json {
    match route {
        Route::Forward(j) => j,
        Route::Handle(h, _) => panic!("handled by {:?}", h),
        Route::Drop => panic!("dropped"),
    }
}

fn text(j: Option<&Json>) -> String {
    match j {
        Some(Json::Str(s)) => s.clone(),
        other => panic!("not a string: {:?}", other),
    }
}

#[test]
fn initialize_response_is_rebranded() {
    let mut d = proxy();
    let req = r#"{"jsonrpc":"2.0","id":1,"method":"initialize","params":{"processId":null,"rootUri":"file:///w","capabilities":{}}}"#;
    assert_eq!(forwarded(d.handle_from_frontend(parse(req))), parse(req));
    assert!(d.has_pending());
    let resp = r#"{"jsonrpc":"2.0","id":1,"result":{"capabilities":{"hoverProvider":true},"serverInfo":{"name":"clangd","version":"19"}}}"#;
    let out = match d.handle_from_backend(parse(resp)) {
        Route::Handle(Handler::Rebrand, msg) => handle_initialize(msg),
        _ => panic!("the initialize response must reach its handler"),
    };
    assert!(!d.has_pending());
    let result = out.get("result").unwrap();
    let info = result.get("serverInfo").unwrap();
    assert_eq!(text(info.get("name")), "codefuse");
    assert_eq!(text(info.get("version")), "0.1.0");
    assert_eq!(
        result.get("capabilities").unwrap().get("hoverProvider"),
        Some(&Json::Bool(true))
    );
    assert_eq!(out.get("id"), Some(&Json::Int(1)));
    assert_eq!(text(out.get("jsonrpc")), "2.0");
}

#[test]
fn rebrand_adds_server_info_when_missing() {
    let out = handle_initialize(parse(r#"{"jsonrpc":"2.0","id":7,"result":{"capabilities":{}}}"#));
    assert_eq!(
        out,
        parse(r#"{"jsonrpc":"2.0","id":7,"result":{"capabilities":{},"serverInfo":{"name":"codefuse","version":"0.1.0"}}}"#)
    );
}

#[test]
fn rebrand_leaves_other_results_alone() {
    let no_result = r#"{"jsonrpc":"2.0","id":7,"error":{"code":-32600,"message":"bad"}}"#;
    assert_eq!(handle_initialize(parse(no_result)), parse(no_result));
    let null_result = r#"{"jsonrpc":"2.0","id":7,"result":null}"#;
    assert_eq!(handle_initialize(parse(null_result)), parse(null_result));
    assert_eq!(handle_initialize(Json::Int(3)), Json::Int(3));
}

#[test]
fn hover_passes_through() {
    let mut d = proxy();
    let req = r#"{"jsonrpc":"2.0","id":2,"method":"textDocument/hover","params":{"textDocument":{"uri":"file:///t.cpp"},"position":{"line":10,"character":5}}}"#;
    assert_eq!(forwarded(d.handle_from_frontend(parse(req))), parse(req));
    let resp = r#"{"jsonrpc":"2.0","id":2,"result":{"contents":"x"}}"#;
    assert_eq!(forwarded(d.handle_from_backend(parse(resp))), parse(resp));
    assert!(!d.has_pending());
}

#[test]
fn notification_passes_through_and_is_not_pending() {
    let mut d = proxy();
    let note = r#"{"jsonrpc":"2.0","method":"textDocument/didOpen","params":{"textDocument":{"uri":"file:///t.cpp","languageId":"cpp","version":1,"text":"int x;"}}}"#;
    assert_eq!(forwarded(d.handle_from_frontend(parse(note))), parse(note));
    assert!(!d.has_pending());
}

#[test]
fn replies_in_reverse_order_keep_their_ids() {
    let mut d = proxy();
    let r3 = r#"{"jsonrpc":"2.0","id":3,"method":"textDocument/hover","params":{}}"#;
    let r4 = r#"{"jsonrpc":"2.0","id":4,"method":"textDocument/completion","params":{}}"#;
    forwarded(d.handle_from_frontend(parse(r3)));
    forwarded(d.handle_from_frontend(parse(r4)));
    assert!(d.is_pending(&RequestId::Int(3)) && d.is_pending(&RequestId::Int(4)));
    let a4 = forwarded(d.handle_from_backend(parse(r#"{"jsonrpc":"2.0","id":4,"result":[]}"#)));
    assert_eq!(a4.get("id"), Some(&Json::Int(4)));
    assert!(d.is_pending(&RequestId::Int(3)) && !d.is_pending(&RequestId::Int(4)));
    let a3 = forwarded(d.handle_from_backend(parse(r#"{"jsonrpc":"2.0","id":3,"result":null}"#)));
    assert_eq!(a3.get("id"), Some(&Json::Int(3)));
    assert!(!d.has_pending());
}

#[test]
fn unknown_id_response_is_forwarded() {
    let mut d = proxy();
    let resp = r#"{"jsonrpc":"2.0","id":999,"result":null}"#;
    assert_eq!(forwarded(d.handle_from_backend(parse(resp))), parse(resp));
    assert!(!d.has_pending());
}

#[test]
fn unknown_id_leaves_other_entries() {
    let mut d = proxy();
    forwarded(d.handle_from_frontend(parse(r#"{"jsonrpc":"2.0","id":5,"method":"shutdown"}"#)));
    forwarded(d.handle_from_backend(parse(r#"{"jsonrpc":"2.0","id":999,"result":null}"#)));
    assert!(d.is_pending(&RequestId::Int(5)));
    assert!(!d.is_pending(&RequestId::Int(999)));
}

#[test]
fn ill_formed_message_is_dropped() {
    let mut d = proxy();
    assert!(matches!(d.handle_from_backend(parse(r#"{"jsonrpc":"2.0","foo":"bar"}"#)), Route::Drop));
    assert!(matches!(d.handle_from_frontend(parse(r#"[1,2]"#)), Route::Drop));
    let resp = r#"{"jsonrpc":"2.0","id":8,"result":1}"#;
    assert_eq!(forwarded(d.handle_from_backend(parse(resp))), parse(resp));
}

#[test]
fn string_and_integer_ids_are_distinct() {
    let mut d = proxy();
    forwarded(d.handle_from_frontend(parse(r#"{"jsonrpc":"2.0","id":"5","method":"initialize"}"#)));
    let by_int = forwarded(d.handle_from_backend(parse(r#"{"jsonrpc":"2.0","id":5,"result":{}}"#)));
    assert_eq!(by_int.get("id"), Some(&Json::Int(5)));
    assert!(d.is_pending(&RequestId::Str("5".to_string())));
    match d.handle_from_backend(parse(r#"{"jsonrpc":"2.0","id":"5","result":{}}"#)) {
        Route::Handle(Handler::Rebrand, _) => {}
        _ => panic!("the string id must find its initialize request"),
    }
    assert!(!d.has_pending());
}

#[test]
fn reused_id_takes_the_latest_method() {
    let mut d = proxy();
    forwarded(d.handle_from_frontend(parse(r#"{"jsonrpc":"2.0","id":1,"method":"initialize"}"#)));
    forwarded(d.handle_from_frontend(parse(r#"{"jsonrpc":"2.0","id":1,"method":"shutdown"}"#)));
    forwarded(d.handle_from_backend(parse(r#"{"jsonrpc":"2.0","id":1,"result":null}"#)));
    assert!(!d.has_pending());
}

#[test]
fn registered_frontend_handler_gets_the_message() {
    let mut d = proxy();
    d.register_req_from_frontend("textDocument/hover", Handler::Other);
    d.register_notification_from_frontend("textDocument/didSave", Handler::Other);
    let req = r#"{"jsonrpc":"2.0","id":11,"method":"textDocument/hover"}"#;
    match d.handle_from_frontend(parse(req)) {
        Route::Handle(Handler::Other, msg) => assert_eq!(msg, parse(req)),
        _ => panic!("expected the hover handler"),
    }
    assert!(d.has_pending());
    let note = r#"{"jsonrpc":"2.0","method":"textDocument/didSave"}"#;
    assert!(matches!(d.handle_from_frontend(parse(note)), Route::Handle(Handler::Other, _)));
}

#[test]
fn backend_notification_handler_gets_the_message() {
    let mut d = proxy();
    d.register_notification_from_backend("window/logMessage", Handler::Other);
    let note = r#"{"jsonrpc":"2.0","method":"window/logMessage","params":{"type":3,"message":"m"}}"#;
    assert!(matches!(d.handle_from_backend(parse(note)), Route::Handle(Handler::Other, _)));
    let other = r#"{"jsonrpc":"2.0","method":"window/showMessage","params":{}}"#;
    assert_eq!(forwarded(d.handle_from_backend(parse(other))), parse(other));
}

#[test]
fn server_request_is_forwarded_and_not_tracked() {
    let mut d = proxy();
    d.register_notification_from_backend("window/showMessageRequest", Handler::Other);
    let req = r#"{"jsonrpc":"2.0","id":1,"method":"window/showMessageRequest","params":{}}"#;
    assert_eq!(forwarded(d.handle_from_backend(parse(req))), parse(req));
    assert!(!d.has_pending());
}

#[test]
fn messages_are_classified_by_their_members() {
    assert_eq!(classify(&parse(r#"{"id":1,"method":"m"}"#)), MessageKind::Request);
    assert_eq!(classify(&parse(r#"{"id":1,"result":2}"#)), MessageKind::Response);
    assert_eq!(classify(&parse(r#"{"method":"m"}"#)), MessageKind::Notification);
    assert_eq!(classify(&parse(r#"{"foo":"bar"}"#)), MessageKind::IllFormed);
    assert_eq!(classify(&Json::Null), MessageKind::IllFormed);
    assert_eq!(request_id(&parse(r#"{"id":"a"}"#)), Some(RequestId::Str("a".to_string())));
    assert_eq!(request_id(&parse(r#"{"id":-3}"#)), Some(RequestId::Int(-3)));
    assert_eq!(request_id(&parse(r#"{"id":null}"#)), None);
}

#[test]
fn request_is_rebuilt_in_standard_shape() {
    let req = parse(r#"{"params":{"a":1},"extra":true,"method":"m","id":"x","jsonrpc":"1.0"}"#);
    let out = Dispatcher::<Handler>::format_notification_or_request(req);
    match &out {
        Json::Object(es) => {
            let keys: Vec<&str> = es.iter().map(|(k, _)| k.as_str()).collect();
            assert_eq!(keys, vec!["jsonrpc", "id", "method", "params"]);
        }
        _ => panic!("not an object"),
    }
    assert_eq!(text(out.get("jsonrpc")), "2.0");
    assert_eq!(text(out.get("id")), "x");
    assert_eq!(text(out.get("method")), "m");
    assert_eq!(out.get("params"), Some(&parse(r#"{"a":1}"#)));
    assert_eq!(out.get("extra"), None);
}

#[test]
fn notification_is_rebuilt_with_null_params() {
    let note = parse(r#"{"method":"exit"}"#);
    let out = Dispatcher::<Handler>::format_notification_or_request(note);
    match &out {
        Json::Object(es) => {
            let keys: Vec<&str> = es.iter().map(|(k, _)| k.as_str()).collect();
            assert_eq!(keys, vec!["jsonrpc", "method", "params"]);
        }
        _ => panic!("not an object"),
    }
    assert_eq!(out.get("params"), Some(&Json::Null));
    assert_eq!(out.get("id"), None);
}

#[test]
fn result_is_built_from_params() {
    let rpc = parse(r#"{"id":9,"params":{"id":3,"method":"m","x":[1,{"y":null}]}}"#);
    let out = Dispatcher::<Handler>::format_result(rpc);
    match &out {
        Json::Object(es) => {
            let keys: Vec<&str> = es.iter().map(|(k, _)| k.as_str()).collect();
            assert_eq!(keys, vec!["jsonrpc", "id", "method", "params"]);
        }
        _ => panic!("not an object"),
    }
    assert_eq!(text(out.get("jsonrpc")), "2.0");
    assert_eq!(out.get("id"), Some(&Json::Int(3)));
    assert_eq!(text(out.get("method")), "m");
    assert_eq!(out.get("params"), Some(&parse(r#"{"id":3,"method":"m","x":[1,{"y":null}]}"#)));
}

#[test]
fn result_without_params_is_all_null() {
    let out = Dispatcher::<Handler>::format_result(parse(r#"{"id":9}"#));
    assert_eq!(out.get("id"), Some(&Json::Null));
    assert_eq!(out.get("method"), Some(&Json::Null));
    assert_eq!(out.get("params"), Some(&Json::Null));
}

#[test]
fn deep_copy_is_equal() {
    let v = parse(r#"{"a":[1,2.5,"s",true,null,{"b":-7}],"c":{}}"#);
    assert_eq!(codefuse::json::copy_json(&v), v);
}
