use sparrow_agent::api::ToolDef;
use sparrow_agent::tool_registry::{failure_result, ToolCallError, ToolRegistry};
use sparrow_agent::json::Json;
use sparrow_agent::tool_registry::{
    child_trace_metadata_from_content, tool_call_completed_payload, tool_call_failed_payload,
    tool_call_started_payload,
};
use sparrow_agent::tool_result_processor::ToolResultMetadata;
use sparrow_agent::trace::JsonSnapshot;

fn def(name: &str) -> ToolDef {
    ToolDef::function(name.into(), format!("the {name} tool"))
}

#[test]
fn restricted_registry_rejects_hidden_tool_execution() {
    let mut registry = ToolRegistry::new();
    registry.add_provider_definitions(&vec![def("webSearch"), def("runBashCommand")]);
    registry.restrict_to_allowed_tools(vec!["webSearch".into()]);
    assert_eq!(registry.definitions().len(), 1);
    let err = registry.check_call("runBashCommand").unwrap_err();
    assert_eq!(
        err.describe(),
        "tool 'runBashCommand' is not allowed in this agent context"
    );
    assert!(registry.check_call("webSearch").is_ok());
}

#[test]
fn later_providers_are_filtered_by_the_restriction() {
    let mut registry = ToolRegistry::new();
    assert!(registry.tool_is_allowed("anything"));
    registry.restrict_to_allowed_tools(vec!["a".into(), "c".into()]);
    registry.add_provider_definitions(&vec![def("a"), def("b"), def("c")]);
    let names: Vec<_> = registry
        .definitions()
        .iter()
        .map(|d| d.function.name.clone())
        .collect();
    assert_eq!(names, vec!["a", "c"]);
}

#[test]
fn failed_calls_report_their_error() {
    let result = failure_result("call_1", "unknown tool: x");
    assert_eq!(result.tool_call_id, "call_1");
    assert_eq!(result.content, "Tool execution failed: unknown tool: x");
    assert_eq!(result.metadata.original_chars, 38);
    assert_eq!(result.metadata.injected_chars, 38);
    assert!(!result.metadata.truncated);
    assert_eq!(
        ToolCallError::UnknownTool { name: "x".into() }.describe(),
        "unknown tool: x"
    );
}

fn conv(v: &serde_json::Value) -> Json {
    match v {
        serde_json::Value::Null => Json::Null,
        serde_json::Value::Bool(b) => Json::Bool(*b),
        serde_json::Value::Number(n) => Json::Number(n.to_string()),
        serde_json::Value::String(s) => Json::Str(s.clone()),
        serde_json::Value::Array(a) => Json::Array(a.iter().map(conv).collect()),
        serde_json::Value::Object(m) => Json::Object(m.iter().map(|(k, v)| (k.clone(), conv(v))).collect()),
    }
}

fn parsed(text: &str) -> Json {
    conv(&serde_json::from_str(text).unwrap())
}

fn value_of(j: &sparrow_agent::json::Json) -> serde_json::Value {
    serde_json::from_str(&j.to_text()).unwrap()
}

#[test]
fn completed_payload_carries_child_task_of_sub_agent_output() {
    let content = r#"{"child_task_id":"task_sub_123","child_conversation_id":"conv_sub_123","status":"ok"}"#;
    let json = parsed(content);
    let child = child_trace_metadata_from_content(Some(&json)).unwrap();
    assert_eq!(child.child_task_id, "task_sub_123");
    let output = JsonSnapshot::from_text(content, Some(parsed(content)), 65536);
    let metadata = ToolResultMetadata {
        original_chars: 10,
        injected_chars: 10,
        truncated: false,
        artifact_path: None,
    };
    let payload = value_of(&tool_call_completed_payload("tool_1", 7, &output, &metadata, Some(&child)));
    assert_eq!(payload["child_task_id"], "task_sub_123");
    assert_eq!(payload["child_conversation_id"], "conv_sub_123");
    assert_eq!(payload["duration_ms"], 7);
    assert_eq!(payload["node_id"], "tool_1");
    assert_eq!(payload["output_metadata"]["original_chars"], 10);
    assert_eq!(payload["output_metadata"]["artifact_path"], serde_json::Value::Null);
}

#[test]
fn blank_child_task_ids_are_ignored() {
    let json = parsed(r#"{"child_task_id":"  ","child_conversation_id":"c"}"#);
    assert!(child_trace_metadata_from_content(Some(&json)).is_none());
    let json = parsed(r#"{"child_task_id":"t","child_conversation_id":" "}"#);
    let child = child_trace_metadata_from_content(Some(&json)).unwrap();
    assert!(child.child_conversation_id.is_none());
    assert!(child_trace_metadata_from_content(None).is_none());
}

#[test]
fn started_and_failed_payloads_name_the_call() {
    let args = JsonSnapshot::from_text(r#"{"query":"rust"}"#, Some(parsed(r#"{"query":"rust"}"#)), 65536);
    let started = value_of(&tool_call_started_payload("tool_1", "output_1", 0, "call_1", "webSearch", &args));
    assert_eq!(started["parent_model_output_id"], "output_1");
    assert_eq!(started["index"], 0);
    assert_eq!(started["tool_call_id"], "call_1");
    assert_eq!(started["name"], "webSearch");
    assert_eq!(started["arguments"]["value"]["query"], "rust");
    let failed = value_of(&tool_call_failed_payload("tool_1", 3, "unknown tool: missingTool"));
    assert_eq!(failed["error"], "unknown tool: missingTool");
    assert_eq!(failed["duration_ms"], 3);
}
