use sparrow_agent::api::{ChatMessage, ChoiceMessage, FunctionCall, ToolCall};
use sparrow_agent::context::budget::{ContextPolicy, ReasoningRetentionPolicy, TokenEstimator};
use sparrow_agent::context::compiler::{
    validate_protocol_safe_messages, CompileInput, ContextCompiler, ProtocolError,
};
use sparrow_agent::context::memory::WorkingMemory;
use sparrow_agent::context::transcript::ConversationTranscript;
use sparrow_agent::tool_result_processor::ToolResultMetadata;

fn tool_call(id: &str, name: &str) -> ToolCall {
    ToolCall {
        id: id.into(),
        kind: "function".into(),
        function: FunctionCall {
            name: name.into(),
            arguments: "{}".into(),
        },
    }
}

fn metadata() -> ToolResultMetadata {
    ToolResultMetadata {
        original_chars: 2,
        injected_chars: 2,
        truncated: false,
        artifact_path: None,
    }
}

#[test]
fn compile_request_preserves_recent_turns_under_budget() {
    let mut transcript = ConversationTranscript::new("system".into());
    transcript.record_user("hello".into());
    transcript.record_assistant(ChoiceMessage {
        role: "assistant".into(),
        content: Some("hi".into()),
        reasoning_content: None,
        tool_calls: None,
    });
    let compiler = ContextCompiler::new(ContextPolicy::default(), TokenEstimator);

    let compiled = compiler
        .compile(
            &mut transcript,
            &WorkingMemory::new(now()),
            "deepseek-v4-pro",
            CompileInput,
        )
        .unwrap();

    assert_eq!(compiled.messages.len(), 3);
    assert_eq!(compiled.messages[1].content.as_deref(), Some("hello"));
    assert_eq!(compiled.messages[2].content.as_deref(), Some("hi"));
    assert_eq!(compiled.report.included_recent_turns, 1);
    assert_eq!(compiled.report.summarized_turns, 0);
}

#[test]
fn compile_request_summarizes_old_turns_when_over_budget() {
    let mut transcript = ConversationTranscript::new("system".into());
    for index in 0..4 {
        transcript.record_user(format!("question {index} {}", "x".repeat(40_000)));
        transcript.record_assistant(ChoiceMessage {
            role: "assistant".into(),
            content: Some(format!("answer {index} {}", "y".repeat(40_000))),
            reasoning_content: Some("reasoning".into()),
            tool_calls: None,
        });
    }
    let policy = ContextPolicy {
        recent_turns: 4,
        target_ratio_permille: 350,
        max_summary_tokens: 256,
        ..ContextPolicy::default()
    };
    let compiler = ContextCompiler::new(policy, TokenEstimator);

    let compiled = compiler
        .compile(
            &mut transcript,
            &WorkingMemory::new(now()),
            "other-model",
            CompileInput,
        )
        .unwrap();

    assert_eq!(compiled.report.included_recent_turns, 1);
    assert!(compiled.report.summarized_turns >= 3);
    assert!(compiled.messages.iter().any(|message| {
        message
            .content
            .as_deref()
            .is_some_and(|content| content.contains("Previous conversation summary"))
    }));
}

#[test]
fn compile_request_never_emits_orphan_tool_messages() {
    let messages = vec![
        ChatMessage::system("system".into()),
        ChatMessage::tool("orphan".into(), "call_1"),
    ];

    let error = validate_protocol_safe_messages(&messages).unwrap_err();

    assert!(error.describe().contains("orphan tool message"));
}

#[test]
fn compile_request_keeps_tool_exchange_complete() {
    let mut transcript = ConversationTranscript::new("system".into());
    transcript.record_user("read".into());
    transcript.record_assistant(ChoiceMessage {
        role: "assistant".into(),
        content: None,
        reasoning_content: Some("Need file.".into()),
        tool_calls: Some(vec![tool_call("call_1", "read_file")]),
    });
    transcript.record_tool_result("call_1".into(), "ok".into(), metadata());
    let compiler = ContextCompiler::new(ContextPolicy::default(), TokenEstimator);

    let compiled = compiler
        .compile(
            &mut transcript,
            &WorkingMemory::new(now()),
            "deepseek-v4-pro",
            CompileInput,
        )
        .unwrap();

    let assistant_index = compiled
        .messages
        .iter()
        .position(|message| message.role == "assistant")
        .unwrap();
    assert_eq!(compiled.messages[assistant_index + 1].role, "tool");
    assert_eq!(
        compiled.messages[assistant_index + 1].tool_call_id.as_deref(),
        Some("call_1")
    );
    assert_eq!(compiled.report.included_tool_exchanges, 1);
}

#[test]
fn compile_request_preserves_deepseek_reasoning_content_for_retained_assistant_messages() {
    let mut transcript = ConversationTranscript::new("system".into());
    transcript.record_user("hello".into());
    transcript.record_assistant(ChoiceMessage {
        role: "assistant".into(),
        content: Some("hi".into()),
        reasoning_content: Some("private reasoning".into()),
        tool_calls: None,
    });
    let policy = ContextPolicy {
        reasoning_policy: ReasoningRetentionPolicy::OmitWhenSupported,
        ..ContextPolicy::default()
    };
    let compiler = ContextCompiler::new(policy, TokenEstimator);

    let compiled = compiler
        .compile(
            &mut transcript,
            &WorkingMemory::new(now()),
            "deepseek-v4-pro",
            CompileInput,
        )
        .unwrap();

    let assistant = compiled
        .messages
        .iter()
        .find(|message| message.role == "assistant")
        .unwrap();
    assert_eq!(
        assistant.reasoning_content.as_deref(),
        Some("private reasoning")
    );
    assert_eq!(compiled.report.reasoning_policy, "preserve");
    assert_eq!(compiled.report.preserved_reasoning_messages, 1);
}

#[test]
fn compile_request_can_omit_reasoning_only_when_policy_allows() {
    let mut transcript = ConversationTranscript::new("system".into());
    transcript.record_user("hello".into());
    transcript.record_assistant(ChoiceMessage {
        role: "assistant".into(),
        content: Some("hi".into()),
        reasoning_content: Some("omit me".into()),
        tool_calls: None,
    });
    let policy = ContextPolicy {
        reasoning_policy: ReasoningRetentionPolicy::OmitWhenSupported,
        ..ContextPolicy::default()
    };
    let compiler = ContextCompiler::new(policy, TokenEstimator);

    let compiled = compiler
        .compile(
            &mut transcript,
            &WorkingMemory::new(now()),
            "other-model",
            CompileInput,
        )
        .unwrap();

    let assistant = compiled
        .messages
        .iter()
        .find(|message| message.role == "assistant")
        .unwrap();
    assert!(assistant.reasoning_content.is_none());
    assert_eq!(compiled.report.reasoning_policy, "omit_when_supported");
}

fn message_fields(m: &ChatMessage) -> (String, Option<String>, Option<String>, Option<String>, usize) {
    (
        m.role.clone(),
        m.content.clone(),
        m.tool_call_id.clone(),
        m.reasoning_content.clone(),
        m.tool_calls.as_ref().map(|c| c.len()).unwrap_or(0),
    )
}

#[test]
fn disabled_context_config_matches_legacy_message_order() {
    let mut transcript = ConversationTranscript::new("system".into());
    transcript.record_user("read".into());
    transcript.record_assistant(ChoiceMessage {
        role: "assistant".into(),
        content: None,
        reasoning_content: Some("Need a tool.".into()),
        tool_calls: Some(vec![tool_call("call_1", "read_file")]),
    });
    transcript.record_tool_result("call_1".into(), "ok".into(), metadata());
    transcript.record_assistant(ChoiceMessage {
        role: "assistant".into(),
        content: Some("done".into()),
        reasoning_content: Some("Final reasoning.".into()),
        tool_calls: None,
    });
    let legacy_messages = transcript.to_legacy_messages();
    let policy = ContextPolicy {
        enabled: false,
        reasoning_policy: ReasoningRetentionPolicy::OmitWhenSupported,
        ..ContextPolicy::default()
    };
    let compiler = ContextCompiler::new(policy, TokenEstimator);

    let compiled = compiler
        .compile(
            &mut transcript,
            &WorkingMemory::new(now()),
            "other-model",
            CompileInput,
        )
        .unwrap();

    let got: Vec<_> = compiled.messages.iter().map(message_fields).collect();
    let want: Vec<_> = legacy_messages.iter().map(message_fields).collect();
    assert_eq!(got, want);
}

#[test]
fn protocol_errors_describe_each_fault() {
    let missing = vec![
        ChatMessage::system("s".into()),
        ChatMessage {
            role: "assistant".into(),
            content: None,
            tool_calls: Some(vec![tool_call("a", "f")]),
            tool_call_id: None,
            reasoning_content: None,
        },
    ];
    let err = validate_protocol_safe_messages(&missing).unwrap_err();
    assert_eq!(
        err,
        ProtocolError::MissingToolResults {
            ids: vec!["a".to_string()]
        }
    );
    assert_eq!(
        err.describe(),
        "assistant tool_calls missing tool results for ids: a"
    );

    let no_id = vec![ChatMessage {
        role: "tool".into(),
        content: Some("x".into()),
        tool_calls: None,
        tool_call_id: None,
        reasoning_content: None,
    }];
    assert_eq!(
        validate_protocol_safe_messages(&no_id).unwrap_err(),
        ProtocolError::MissingToolCallId
    );

    let ok = vec![
        ChatMessage::user("u".into()),
        ChatMessage {
            role: "assistant".into(),
            content: None,
            tool_calls: Some(vec![tool_call("a", "f")]),
            tool_call_id: None,
            reasoning_content: None,
        },
        ChatMessage::tool("r".into(), "a"),
    ];
    assert!(validate_protocol_safe_messages(&ok).is_ok());
}

fn now() -> i64 {
    chrono::Utc::now().timestamp_millis()
}
