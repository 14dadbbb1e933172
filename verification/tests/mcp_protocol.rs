use sparrow_agent::mcp::protocol::{RootEntry, ToolCallResult, ToolContent};
use sparrow_agent::mcp::protocol::{
    build_notification, classify_response, initialize_params, mcp_tool_error_text, roots_list_params,
    tools_call_params, ResponseAction,
};

fn content(kind: &str) -> ToolContent {
    ToolContent {
        kind: kind.into(),
        text: None,
        data: None,
        mime_type: None,
        uri: None,
        name: None,
    }
}

#[test]
fn root_entry_uses_file_uri() {
    let root = RootEntry::from_path("/tmp/project", "project");
    assert_eq!(root.uri, "file:///tmp/project");
    assert_eq!(root.name, "project");
}

#[test]
fn tool_call_result_text_joins_parts() {
    let result = ToolCallResult {
        content: vec![
            ToolContent {
                text: Some("hello".into()),
                ..content("text")
            },
            ToolContent {
                mime_type: Some("image/png".into()),
                ..content("image")
            },
            ToolContent {
                name: Some("notes".into()),
                uri: Some("file:///n".into()),
                ..content("resource")
            },
            content("text"),
            ToolContent {
                text: Some("other".into()),
                ..content("custom")
            },
        ],
        is_error: None,
    };
    assert_eq!(
        result.to_text(),
        "hello\n[image content: image/png]\n[resource: notes (unknown) file:///n]\nother"
    );
}

#[test]
fn tool_call_error_is_prefixed() {
    let result = ToolCallResult {
        content: vec![ToolContent {
            text: Some("denied".into()),
            ..content("text")
        }],
        is_error: Some(true),
    };
    assert_eq!(result.to_text(), "MCP tool error: denied");
    let empty = ToolCallResult {
        content: Vec::new(),
        is_error: Some(false),
    };
    assert_eq!(empty.to_text(), "");
}

fn value_of(j: &sparrow_agent::json::Json) -> serde_json::Value {
    serde_json::from_str(&j.to_text()).unwrap()
}

#[test]
fn initialize_params_announce_roots_capability_and_client() {
    let p = value_of(&sparrow_agent::mcp::protocol::initialize_params("sparrow_agent", "0.1.0"));
    assert_eq!(p["capabilities"]["roots"]["listChanged"], true);
    assert_eq!(p["clientInfo"]["name"], "sparrow_agent");
    assert_eq!(p["clientInfo"]["version"], "0.1.0");
    assert_eq!(p["protocolVersion"], "2025-06-18");
}

#[test]
fn roots_list_and_tool_call_params() {
    let roots = vec![RootEntry::from_path("/work", "sparrow workspace")];
    let p = value_of(&roots_list_params(&roots));
    assert_eq!(p["roots"][0]["uri"], "file:///work");
    assert_eq!(p["roots"][0]["name"], "sparrow workspace");
    let call = value_of(&tools_call_params("read_file", sparrow_agent::json::Json::Null));
    assert_eq!(call["name"], "read_file");
    assert_eq!(call["arguments"], serde_json::Value::Null);
}

#[test]
fn notifications_carry_params_only_when_given() {
    let n = build_notification("notifications/initialized", None);
    assert_eq!(n.to_text(), r#"{"jsonrpc":"2.0","method":"notifications/initialized"}"#);
    let n = build_notification("x", Some(sparrow_agent::json::Json::Bool(true)));
    assert_eq!(n.to_text(), r#"{"jsonrpc":"2.0","method":"x","params":true}"#);
}

#[test]
fn responses_are_classified_while_waiting() {
    assert_eq!(classify_response(Some("roots/list"), Some(9), 3), ResponseAction::AnswerRootsList);
    assert_eq!(classify_response(Some("notifications/progress"), None, 3), ResponseAction::IgnoreNotification);
    assert_eq!(classify_response(None, Some(3), 3), ResponseAction::Accept);
    assert_eq!(classify_response(None, Some(2), 3), ResponseAction::IgnoreOther);
}

#[test]
fn tool_error_text_shows_signed_code() {
    assert_eq!(mcp_tool_error_text(-32601, "no such tool"), "MCP tool error: code=-32601, message=no such tool");
    assert_eq!(mcp_tool_error_text(7, "x"), "MCP tool error: code=7, message=x");
}
