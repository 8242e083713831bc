use codefuse::log_line::{parse_clangd_log_line, parse_lsp_backend_log_line};
use codefuse::lsp_server::{LspServer, MockLspServer};

#[test]
fn clangd_log_line_is_split() {
    assert_eq!(
        parse_clangd_log_line("I[11:01:38.638] clangd version 21.1.0"),
        Some(('I', "clangd version 21.1.0"))
    );
    assert_eq!(parse_lsp_backend_log_line("E[11:01:38.638]   failed  "), Some(('E', "failed")));
}

#[test]
fn short_log_line_is_not_split() {
    assert_eq!(parse_clangd_log_line("I[11:01:38]"), None);
    assert_eq!(parse_lsp_backend_log_line(""), None);
}

#[test]
fn log_line_cut_inside_a_character_is_not_split() {
    assert_eq!(parse_lsp_backend_log_line("I[11:01:38.638\u{00e9}x"), None);
}

#[test]
fn stamp_only_gives_empty_text() {
    assert_eq!(parse_clangd_log_line("W[11:01:38.638]"), Some(('W', "")));
}

#[test]
fn mock_server_answers_with_fixed_replies() {
    let mut server = MockLspServer::new();
    let hover: serde_json::Value =
        serde_json::from_str(&server.send_hover("file:///a.cpp", 1, 2)).unwrap();
    assert_eq!(hover["result"]["contents"]["value"], "Mock hover info");
    let completion: serde_json::Value =
        serde_json::from_str(&server.send_completion("file:///a.cpp", 1, 2)).unwrap();
    assert_eq!(completion["result"]["items"][0]["label"], "mock_function");
    let tokens: serde_json::Value =
        serde_json::from_str(&server.send_semantic_tokens("file:///a.cpp")).unwrap();
    let data: serde_json::Value = serde_json::from_str("[0, 0, 4, 0, 0]").unwrap();
    assert_eq!(tokens["result"]["data"], data);
    assert!(server.send_notification("Content-Length: 2\r\n\r\n{}").is_ok());
}
