use serde_json::Value;
use sparrow_agent::agent::{Agent, OutputKind, StreamingTraceForwarder, TracedTurnStatus, TurnStatus};
use sparrow_agent::api::{ChoiceMessage, FunctionCall, ToolCall, ToolDef};
use sparrow_agent::config::{
    AppConfig, BashApprovalMode, BashConfig, ConfirmationPolicy, FilesystemConfig,
    FilesystemMode, StreamingConfig, SubAgentConfig, ToolResultConfig,
};
use sparrow_agent::streaming::{AgentEventSink, AgentStreamEvent};
use sparrow_agent::tool_registry::failure_result;
use sparrow_agent::trace::TraceEventType;

fn payload(text: &str) -> Value {
    serde_json::from_str(text).unwrap()
}

fn app_config() -> AppConfig {
    AppConfig {
        api_key: "k".into(),
        tavily_api_key: "t".into(),
        model: "deepseek-v4-pro".into(),
        system_prompt: "You are helpful.".into(),
        reasoning_effort: "high".into(),
        max_tool_rounds: 3,
        filesystem: FilesystemConfig {
            enabled: false,
            roots: Vec::new(),
            mode: FilesystemMode::ReadOnly,
            confirm: ConfirmationPolicy::Never,
            deny_patterns: Vec::new(),
            max_read_bytes: 1,
            max_write_bytes: 1,
        },
        mcp_servers: Vec::new(),
        tool_results: ToolResultConfig {
            max_injected_chars: 20_000,
            output_dir: ".sparrow_agent/tool_outputs".into(),
        },
        streaming: StreamingConfig {
            enabled: true,
            show_reasoning: true,
            show_tool_call_deltas: false,
        },
        bash: BashConfig {
            enabled: false,
            roots: Vec::new(),
            approval_mode: BashApprovalMode::Smart,
            approval_policy_path: "/tmp/p.json".into(),
            approval_policy_ttl_days: 90,
            model_low_risk_threshold_permille: 850,
            timeout_ms: 30_000,
            max_timeout_ms: 120_000,
            max_command_chars: 8_192,
            stream_max_bytes: 8_192,
            env_allowlist: Vec::new(),
        },
        sub_agent: SubAgentConfig {
            enabled: false,
            max_depth: 0,
            max_concurrent: 1,
            max_tool_rounds: 1,
            timeout_ms: 1,
            allowed_tools: Vec::new(),
            inherit_filesystem: false,
            inherit_bash: false,
        },
    }
}

fn call(id: &str, name: &str) -> ToolCall {
    ToolCall {
        id: id.into(),
        kind: "function".into(),
        function: FunctionCall {
            name: name.into(),
            arguments: "{}".into(),
        },
    }
}

#[test]
fn streaming_trace_forwarder_emits_reasoning_and_final_answer_output() {
    let mut forwarder = StreamingTraceForwarder::new("model_1".into());

    forwarder
        .on_event(&AgentStreamEvent::ReasoningDelta("Thinking.".into()))
        .unwrap();
    forwarder.on_event(&AgentStreamEvent::AnswerStarted).unwrap();
    forwarder
        .on_event(&AgentStreamEvent::AnswerDelta("Hello".into()))
        .unwrap();

    let events = &forwarder.emitted;
    assert_eq!(events[0].0, TraceEventType::ModelCallReasoningDelta);
    assert_eq!(payload(&events[0].1)["node_id"], "model_1");
    assert_eq!(events[1].0, TraceEventType::ModelOutputStarted);
    assert_eq!(payload(&events[1].1)["kind"], "final_answer");
    assert_eq!(events[2].0, TraceEventType::ModelOutputDelta);
    assert_eq!(payload(&events[2].1)["content_delta"], "Hello");
    assert_eq!(events.len(), 3);
}

#[test]
fn streaming_trace_forwarder_emits_tool_call_output() {
    let mut forwarder = StreamingTraceForwarder::new("model_1".into());

    forwarder
        .on_event(&AgentStreamEvent::ToolCallDelta {
            index: 0,
            id: Some("call_1".into()),
            name: Some("read_file".into()),
            arguments_delta: Some(r#"{"path":"Cargo.toml"}"#.into()),
        })
        .unwrap();

    let events = &forwarder.emitted;
    assert_eq!(events[0].0, TraceEventType::ModelOutputStarted);
    assert_eq!(payload(&events[0].1)["kind"], "tool_calls");
    assert_eq!(events[1].0, TraceEventType::ModelOutputDelta);
    assert_eq!(payload(&events[1].1)["tool_call"]["tool_call_id"], "call_1");
    assert_eq!(
        payload(&events[1].1)["tool_call"]["arguments_delta"],
        r#"{"path":"Cargo.toml"}"#
    );
    assert!(forwarder.output_node_id.is_some());
}

#[test]
fn forwarder_reuses_open_output_and_reports_completion() {
    let mut forwarder = StreamingTraceForwarder::new("model_1".into());
    forwarder.on_event(&AgentStreamEvent::AnswerDelta("a".into())).unwrap();
    forwarder.on_event(&AgentStreamEvent::AnswerDelta("b".into())).unwrap();
    forwarder.on_event(&AgentStreamEvent::ReasoningStarted).unwrap();
    assert_eq!(forwarder.emitted.len(), 3);
    let node = forwarder.output_node_id.clone().unwrap();
    assert!(node.starts_with("output_"));
    assert_eq!(forwarder.output_kind, Some(OutputKind::FinalAnswer));

    let message = ChoiceMessage {
        role: "assistant".into(),
        content: Some("ab".into()),
        reasoning_content: None,
        tool_calls: None,
    };
    let completed = forwarder.emit_completed(&message, &Vec::new());
    assert_eq!(completed.as_deref(), Some(node.as_str()));
    let last = forwarder.emitted.last().unwrap();
    assert_eq!(last.0, TraceEventType::ModelOutputCompleted);
    let p = payload(&last.1);
    assert_eq!(p["content"], "ab");
    assert_eq!(p["kind"], "final_answer");
    assert_eq!(p["tool_calls"].as_array().unwrap().len(), 0);

    let empty = ChoiceMessage {
        role: "assistant".into(),
        content: Some(String::new()),
        reasoning_content: None,
        tool_calls: None,
    };
    let before = forwarder.emitted.len();
    assert!(forwarder.emit_completed(&empty, &Vec::new()).is_none());
    assert_eq!(forwarder.emitted.len(), before);
}

#[test]
fn completed_tool_calls_carry_their_argument_snapshots() {
    let mut forwarder = StreamingTraceForwarder::new("model_2".into());
    let message = ChoiceMessage {
        role: "assistant".into(),
        content: None,
        reasoning_content: None,
        tool_calls: Some(vec![call("c1", "read_file"), call("c2", "webSearch")]),
    };
    let snapshots = vec![
        r#"{"text":"{}","truncated":false,"value":{}}"#.to_string(),
        r#"{"text":"{}","truncated":false,"value":{}}"#.to_string(),
    ];
    forwarder.emit_completed(&message, &snapshots).unwrap();
    assert_eq!(forwarder.emitted[0].0, TraceEventType::ModelOutputStarted);
    let p = payload(&forwarder.emitted[1].1);
    assert_eq!(p["kind"], "tool_calls");
    assert_eq!(p["content"], "");
    assert_eq!(p["tool_calls"][1]["name"], "webSearch");
    assert_eq!(p["tool_calls"][1]["index"], 1);
    assert_eq!(p["tool_calls"][0]["arguments"]["truncated"], false);
}

#[test]
fn agent_runs_tools_then_completes_the_turn() {
    let mut agent = Agent::new(app_config(), vec![ToolDef::function("read_file".into(), "reads".into())]);
    assert_eq!(agent.messages.len(), 1);
    assert_eq!(agent.messages[0].role, "system");
    agent.push_user_input("read it".into());
    let request = agent.build_request();
    assert_eq!(request.messages.len(), 2);
    assert_eq!(request.tools.as_ref().unwrap().len(), 1);
    assert_eq!(request.thinking.as_ref().unwrap().kind, "enabled");
    assert_eq!(request.reasoning_effort.as_deref(), Some("high"));
    assert_eq!(request.stream, None);

    let reply = ChoiceMessage {
        role: "assistant".into(),
        content: None,
        reasoning_content: Some("need file".into()),
        tool_calls: Some(vec![call("c1", "read_file")]),
    };
    let calls = match agent.handle_assistant_message(&reply) {
        TurnStatus::RunTools(calls) => calls,
        TurnStatus::Complete => panic!("expected tool calls"),
    };
    assert_eq!(calls.len(), 1);
    assert_eq!(agent.messages[2].content.as_deref(), Some(""));
    assert_eq!(agent.messages[2].reasoning_content.as_deref(), Some("need file"));
    agent.record_tool_results(vec![failure_result("c1", "boom")]);
    assert_eq!(agent.messages[3].role, "tool");
    assert_eq!(
        agent.messages[3].content.as_deref(),
        Some("Tool execution failed: boom")
    );

    let answer = ChoiceMessage {
        role: "assistant".into(),
        content: Some("done".into()),
        reasoning_content: Some("r".into()),
        tool_calls: None,
    };
    match agent.handle_assistant_message_with_trace(&answer) {
        TracedTurnStatus::Complete(text) => assert_eq!(text, "done"),
        TracedTurnStatus::RunTools(_) => panic!("expected completion"),
    }
    assert_eq!(agent.messages[4].reasoning_content.as_deref(), Some("r"));
    assert!(agent.may_start_round(2));
    assert!(!agent.may_start_round(3));
    assert_eq!(
        agent.max_rounds_error(),
        "reached the maximum number of tool rounds (3)"
    );
}

#[test]
fn untraced_reply_without_content_adds_nothing() {
    let mut agent = Agent::new(app_config(), Vec::new());
    let reply = ChoiceMessage {
        role: "assistant".into(),
        content: None,
        reasoning_content: None,
        tool_calls: None,
    };
    assert!(matches!(agent.handle_assistant_message(&reply), TurnStatus::Complete));
    assert_eq!(agent.messages.len(), 1);
    match agent.handle_assistant_message_with_trace(&reply) {
        TracedTurnStatus::Complete(text) => assert_eq!(text, ""),
        TracedTurnStatus::RunTools(_) => panic!("expected completion"),
    }
    assert_eq!(agent.messages.len(), 2);
    assert!(agent.context_usage_line().contains("/ 1,000,000 tokens"));
}

#[test]
fn new_agent_knows_the_context_window_of_its_model() {
    let agent = Agent::new(app_config(), Vec::new());
    assert_eq!(agent.context_usage.total_tokens, Some(1_000_000));
    assert_eq!(agent.context_usage.used_tokens, 0);
    let mut other = app_config();
    other.model = "other-model".into();
    assert_eq!(Agent::new(other, Vec::new()).context_usage.total_tokens, None);
}
