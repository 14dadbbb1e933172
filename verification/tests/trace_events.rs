use serde_json::Value;
use sparrow_agent::agent::TracedTurnStatus;
use sparrow_agent::agent_trace::{
    model_call_completed_payload, model_call_started_payload, trace_round_step, LoopAction, LoopEvent,
    TraceLoopState,
};
use sparrow_agent::api::{
    ChatCompletionRequest, ChatMessage, ChoiceMessage, CompletionTokensDetails, FunctionCall,
    PromptTokensDetails, ThinkingConfig, ToolCall, Usage,
};
use sparrow_agent::bash_runner::bytes_to_utf8_text;
use sparrow_agent::context_usage::{render_indicatif_progress_bar, render_progress_bar, ContextUsageColor};
use sparrow_agent::tool_registry::{dispatch, ToolCallError};
use sparrow_agent::context_usage::{finish_bar, ContextUsage};
use sparrow_agent::json::Json;
use sparrow_agent::tool_registry::{
    child_trace_metadata_from_text, tool_call_events, ToolOutcome,
};
use sparrow_agent::tool_result_processor::ToolResultMetadata;
use sparrow_agent::trace::{JsonSnapshot, TraceEventType};

fn v(text: &str) -> Value {
    serde_json::from_str(text).unwrap()
}

fn value(j: &Json) -> Value {
    serde_json::from_str(&j.to_text()).unwrap()
}

fn call(id: &str, name: &str, arguments: &str) -> ToolCall {
    ToolCall {
        id: id.into(),
        kind: "function".into(),
        function: FunctionCall { name: name.into(), arguments: arguments.into() },
    }
}

#[test]
fn snapshot_from_json_text_parses_or_keeps_raw_text() {
    let parsed = JsonSnapshot::from_json_text("{\"b\":1,\"a\":[true,null]}", 1000);
    assert_eq!(value(&parsed.value), v(r#"{"a": [true, null], "b": 1}"#));
    assert!(!parsed.truncated);
    let raw = JsonSnapshot::from_json_text("not json", 1000);
    assert_eq!(value(&raw.value), v(r#"{"raw": "not json"}"#));
    assert_eq!(raw.text, "not json");
    let secret = JsonSnapshot::from_json_text("{\"api_key\":\"sk-1\"}", 1000);
    assert_ne!(value(&secret.value)["api_key"], v(r#""sk-1""#));
}

#[test]
fn child_trace_is_read_from_raw_tool_output() {
    let child = child_trace_metadata_from_text("{\"child_task_id\":\"task_9\",\"child_conversation_id\":\"conv_9\"}").unwrap();
    assert_eq!(child.child_task_id, "task_9");
    assert_eq!(child.child_conversation_id.as_deref(), Some("conv_9"));
    assert!(child_trace_metadata_from_text("plain text").is_none());
    assert!(child_trace_metadata_from_text("{\"child_task_id\":\"  \"}").is_none());
}

#[test]
fn traced_calls_start_together_then_finish_in_call_order() {
    let calls = vec![call("c1", "read", "{\"path\":\"a\"}"), call("c2", "nope", "x")];
    let nodes = vec!["tool_1".to_string(), "tool_2".to_string()];
    let outcomes = vec![
        ToolOutcome::Completed {
            content: "done".into(),
            metadata: ToolResultMetadata { original_chars: 4, injected_chars: 4, truncated: false, artifact_path: None },
            child_trace: None,
            duration_ms: 7,
        },
        ToolOutcome::Failed { error: "unknown tool: nope".into(), duration_ms: 3 },
    ];
    let events = tool_call_events(&calls, &nodes, "output_1", &outcomes);
    assert_eq!(events.len(), 4);
    assert_eq!(events[0].event_type, TraceEventType::ToolCallStarted);
    assert_eq!(events[1].event_type, TraceEventType::ToolCallStarted);
    assert_eq!(events[2].event_type, TraceEventType::ToolCallCompleted);
    assert_eq!(events[3].event_type, TraceEventType::ToolCallFailed);
    let first = value(&events[0].payload);
    assert_eq!(first["node_id"], "tool_1");
    assert_eq!(first["parent_model_output_id"], "output_1");
    assert_eq!(first["index"], 0);
    assert_eq!(first["arguments"]["value"], v(r#"{"path": "a"}"#));
    assert_eq!(value(&events[1].payload)["index"], 1);
    assert_eq!(value(&events[1].payload)["arguments"]["value"], v(r#"{"raw": "x"}"#));
    let done = value(&events[2].payload);
    assert_eq!(done["duration_ms"], 7);
    assert_eq!(done["output"]["value"], v(r#"{"raw": "done"}"#));
    let failed = value(&events[3].payload);
    assert_eq!(failed["error"], "unknown tool: nope");
    assert_eq!(failed["node_id"], "tool_2");
}

#[test]
fn traced_loop_runs_rounds_until_the_answer_or_the_limit() {
    let state = TraceLoopState { rounds_started: 0, max_tool_rounds: 2 };
    let (state, action) = trace_round_step(&state, LoopEvent::Start);
    assert!(matches!(action, LoopAction::StartRound { round: 1 }));
    let (state, action) = trace_round_step(&state, LoopEvent::Replied(TracedTurnStatus::RunTools(vec![call("c", "t", "{}")])));
    assert!(matches!(action, LoopAction::RunTools(ref calls) if calls.len() == 1));
    let (state, action) = trace_round_step(&state, LoopEvent::ToolsDone);
    assert!(matches!(action, LoopAction::StartRound { round: 2 }));
    let (_, action) = trace_round_step(&state, LoopEvent::ToolsDone);
    match action {
        LoopAction::Fail(e) => assert_eq!(e, "reached the maximum number of tool rounds (2)"),
        _ => panic!("expected the round limit"),
    }
    let (_, action) = trace_round_step(&state, LoopEvent::Replied(TracedTurnStatus::Complete("hi".into())));
    assert!(matches!(action, LoopAction::Finish(ref a) if a == "hi"));
    let none = TraceLoopState { rounds_started: 0, max_tool_rounds: 0 };
    assert!(matches!(trace_round_step(&none, LoopEvent::Start).1, LoopAction::Fail(_)));
}

#[test]
fn model_call_payloads_record_the_request_and_the_reply() {
    let request = ChatCompletionRequest {
        model: "deepseek-v4-pro".into(),
        messages: vec![ChatMessage::system("s".into()), ChatMessage::user("u".into())],
        tools: None,
        thinking: Some(ThinkingConfig { kind: "enabled".into() }),
        reasoning_effort: Some("high".into()),
        stream: Some(true),
        stream_options: None,
    };
    let started = value(&model_call_started_payload("model_1", 1, &request));
    assert_eq!(started["node_id"], "model_1");
    assert_eq!(started["round"], 1);
    assert_eq!(started["model"], "deepseek-v4-pro");
    assert_eq!(
        started["request"]["value"],
        v(r#"{"message_count": 2, "model": "deepseek-v4-pro", "reasoning_effort": "high", "thinking": {"type": "enabled"}, "tool_count": 0}"#)
    );
    let reply = ChoiceMessage {
        role: "assistant".into(),
        content: Some("answer".into()),
        reasoning_content: None,
        tool_calls: None,
    };
    let usage = Usage {
        prompt_tokens: 10,
        completion_tokens: 5,
        total_tokens: 15,
        prompt_tokens_details: PromptTokensDetails { cached_tokens: 0 },
        completion_tokens_details: CompletionTokensDetails { reasoning_tokens: 2 },
        prompt_cache_hit_tokens: 0,
        prompt_cache_miss_tokens: 0,
    };
    let completed = value(&model_call_completed_payload("model_1", 12, &Some("stop".into()), &Some(usage), &reply));
    assert_eq!(completed["duration_ms"], 12);
    assert_eq!(completed["finish_reason"], "stop");
    assert_eq!(completed["response"]["value"], v(r#"{"has_content": true, "tool_call_count": 0}"#));
    assert_eq!(
        completed["usage"],
        v(r#"{"completion_tokens": 5, "prompt_tokens": 10, "reasoning_tokens": 2, "total_tokens": 15}"#)
    );
    let bare = value(&model_call_completed_payload("model_2", 0, &None, &None, &reply));
    assert_eq!(bare["usage"], Value::Null);
    assert_eq!(bare["finish_reason"], Value::Null);
}

#[test]
fn output_bytes_become_text_without_a_split_character() {
    assert_eq!(bytes_to_utf8_text("héllo".as_bytes(), false), "héllo");
    let bytes = "aé".as_bytes();
    assert_eq!(bytes_to_utf8_text(&bytes[..2], true), "a");
    assert_eq!(bytes_to_utf8_text(&bytes[..2], false), "a\u{fffd}");
    assert_eq!(bytes_to_utf8_text(&[b'a', 0xff, b'b'], true), "a\u{fffd}b");
}

#[test]
fn usage_line_wraps_the_drawn_bar() {
    assert_eq!(finish_bar("[====----]   "), "[====----]");
    let usage = ContextUsage { used_tokens: 250_000, total_tokens: Some(1_000_000) };
    assert_eq!(
        usage.render_line_with_bar("[bar]"),
        "context> [bar] 250,000 / 1,000,000 tokens (25.00%)"
    );
    let unknown = ContextUsage { used_tokens: 5, total_tokens: None };
    assert_eq!(unknown.render_line_with_bar("[]"), "context> [] 5 / unknown tokens");
}

#[test]
fn bar_request_asks_for_the_capped_usage_in_its_colour() {
    let r = sparrow_agent::context_usage::bar_request(250_000, Some(1_000_000));
    assert_eq!((r.position, r.length), (250_000, 1_000_000));
    assert_eq!(r.template, "[{bar:24.green}]");
    assert_eq!(r.progress_chars, "==-");
    assert_eq!(r.columns, 26);
    let over = sparrow_agent::context_usage::bar_request(900, Some(800));
    assert_eq!((over.position, over.length), (800, 800));
    assert_eq!(over.template, "[{bar:24.red}]");
    let mid = sparrow_agent::context_usage::bar_request(50, Some(100));
    assert_eq!(mid.template, "[{bar:24.yellow}]");
    let unknown = sparrow_agent::context_usage::bar_request(5, None);
    assert_eq!((unknown.position, unknown.length), (0, 1));
    assert_eq!(unknown.template, "[{bar:24.green}]");
    let zero = sparrow_agent::context_usage::bar_request(5, Some(0));
    assert_eq!((zero.position, zero.length), (0, 1));
}

#[test]
fn percentage_halves_round_to_even() {
    let usage = ContextUsage { used_tokens: 1, total_tokens: Some(32) };
    assert_eq!(usage.percent_used(32), 312);
    assert_eq!(usage.render_line_with_bar("[]"), "context> [] 1 / 32 tokens (3.12%)");
    let three = ContextUsage { used_tokens: 3, total_tokens: Some(32) };
    assert_eq!(three.percent_used(32), 938);
    let third = ContextUsage { used_tokens: 1, total_tokens: Some(3) };
    assert_eq!(third.percent_used(3), 3333);
}

#[test]
fn traced_results_follow_the_calls() {
    let calls = vec![call("c1", "read", "{}"), call("c2", "nope", "{}")];
    let unknown = sparrow_agent::tool_registry::error_outcome(
        &sparrow_agent::tool_registry::ToolCallError::UnknownTool { name: "nope".into() },
    );
    let outcomes = vec![
        ToolOutcome::Completed {
            content: "ok".into(),
            metadata: ToolResultMetadata { original_chars: 2, injected_chars: 2, truncated: false, artifact_path: None },
            child_trace: None,
            duration_ms: 1,
        },
        unknown,
    ];
    let results = sparrow_agent::tool_registry::traced_results(&calls, &outcomes);
    assert_eq!(results.len(), 2);
    assert_eq!(results[0].tool_call_id, "c1");
    assert_eq!(results[0].content, "ok");
    assert_eq!(results[1].tool_call_id, "c2");
    assert_eq!(results[1].content, "Tool execution failed: unknown tool: nope");
    let events = tool_call_events(&calls, &vec!["t1".into(), "t2".into()], "out", &outcomes);
    assert_eq!(events[3].event_type, TraceEventType::ToolCallFailed);
    assert_eq!(value(&events[3].payload)["error"], "unknown tool: nope");
}

#[test]
fn finish_reports_the_last_finish_reason() {
    let accumulator = sparrow_agent::streaming::StreamAccumulator::new();
    match accumulator.finished_event() {
        sparrow_agent::streaming::AgentStreamEvent::ResponseFinished { finish_reason } => assert!(finish_reason.is_none()),
        _ => panic!("expected the finish event"),
    }
}

fn shown(text: &str) -> String {
    let mut out = String::new();
    let mut chars = text.chars().peekable();
    while let Some(c) = chars.next() {
        if c == '\x1b' && chars.peek() == Some(&'[') {
            chars.next();
            for d in chars.by_ref() {
                if ('@'..='~').contains(&d) {
                    break;
                }
            }
            continue;
        }
        out.push(c);
    }
    out
}

#[test]
fn drawn_bars_show_filled_cells_first() {
    assert_eq!(shown(&render_progress_bar(0, Some(100))), format!("[{}]", "-".repeat(24)));
    assert_eq!(shown(&render_progress_bar(100, Some(100))), format!("[{}]", "=".repeat(24)));
    assert_eq!(shown(&render_progress_bar(500, Some(100))), format!("[{}]", "=".repeat(24)));
    assert_eq!(shown(&render_progress_bar(1, Some(1_000_000))), format!("[={}]", "-".repeat(23)));
    assert_eq!(shown(&render_progress_bar(7, None)), format!("[{}]", "-".repeat(24)));
    assert_eq!(shown(&render_indicatif_progress_bar(1, 2, ContextUsageColor::Red)), format!("[{}{}]", "=".repeat(13), "-".repeat(11)));
    assert_eq!(shown(&render_indicatif_progress_bar(3, 0, ContextUsageColor::Green)), format!("[{}]", "=".repeat(24)));
}

#[test]
fn the_first_provider_that_answers_wins() {
    assert_eq!(dispatch(&vec![None, Some("b".into()), Some("c".into())], "t").unwrap(), "b");
    assert_eq!(
        dispatch(&vec![None, None], "t").unwrap_err(),
        ToolCallError::UnknownTool { name: "t".into() }
    );
    assert_eq!(dispatch(&Vec::new(), "x").unwrap_err().describe(), "unknown tool: x");
}
