use sparrow_agent::api::{ChoiceMessage, FunctionCall, ToolCall};
use sparrow_agent::context::transcript::ConversationTranscript;
use sparrow_agent::tool_result_processor::ToolResultMetadata;

#[test]
fn transcript_keeps_tool_exchange_adjacent_in_legacy_messages() {
    let mut transcript = ConversationTranscript::new("system".into());
    transcript.record_user("read it".into());
    transcript.record_assistant(ChoiceMessage {
        role: "assistant".into(),
        content: None,
        reasoning_content: Some("Need a tool.".into()),
        tool_calls: Some(vec![ToolCall {
            id: "call_1".into(),
            kind: "function".into(),
            function: FunctionCall {
                name: "read_file".into(),
                arguments: "{}".into(),
            },
        }]),
    });
    transcript.record_tool_result(
        "call_1".into(),
        "tool output".into(),
        ToolResultMetadata {
            original_chars: 11,
            injected_chars: 11,
            truncated: false,
            artifact_path: None,
        },
    );

    let messages = transcript.to_legacy_messages();

    assert_eq!(messages[0].role, "system");
    assert_eq!(messages[1].role, "user");
    assert_eq!(messages[2].role, "assistant");
    assert_eq!(messages[3].role, "tool");
    assert_eq!(messages[3].tool_call_id.as_deref(), Some("call_1"));
    assert_eq!(
        messages[2].reasoning_content.as_deref(),
        Some("Need a tool.")
    );
}

#[test]
fn record_ids_carry_their_prefix_and_turns_count_exchanges() {
    let mut transcript = ConversationTranscript::new("sys".into());
    assert_eq!(transcript.system_prompt(), "sys");
    let user_id = transcript.record_user("q".into());
    assert!(user_id.starts_with("msg_"));
    transcript.record_assistant(ChoiceMessage {
        role: "assistant".into(),
        content: Some(String::new()),
        reasoning_content: Some("r".into()),
        tool_calls: Some(vec![ToolCall {
            id: "c".into(),
            kind: "function".into(),
            function: FunctionCall {
                name: "f".into(),
                arguments: "{}".into(),
            },
        }]),
    });
    let turn = &transcript.turns()[0];
    assert_eq!(turn.tool_exchange_count(), 1);
    assert_eq!(turn.reasoning_message_count(), 1);
    assert!(turn.tool_exchanges[0].accepts_tool_result("c"));
    assert!(!turn.tool_exchanges[0].accepts_tool_result("d"));
    assert!(!turn.tool_exchanges[0].is_complete());
    transcript.record_tool_result(
        "c".into(),
        "done".into(),
        ToolResultMetadata {
            original_chars: 4,
            injected_chars: 4,
            truncated: false,
            artifact_path: None,
        },
    );
    assert!(transcript.turns()[0].tool_exchanges[0].is_complete());
    let without_reasoning = transcript.turns()[0].to_messages(false);
    assert_eq!(without_reasoning.len(), 3);
    assert!(without_reasoning[1].reasoning_content.is_none());
    let with_reasoning = transcript.turns()[0].to_messages(true);
    assert_eq!(with_reasoning[1].reasoning_content.as_deref(), Some("r"));
}
