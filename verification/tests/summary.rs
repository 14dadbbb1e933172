use sparrow_agent::api::{ChatMessage, FunctionCall, ToolCall};
use sparrow_agent::context::budget::TokenEstimator;
use sparrow_agent::context::summary::fallback_tool_exchange_summary;
use sparrow_agent::context::transcript::{
    ToolExchange, ToolExchangeStatus, TranscriptMessage, TranscriptToolResult,
};
use sparrow_agent::tool_result_processor::ToolResultMetadata;

#[test]
fn tool_exchange_summary_includes_artifact_metadata() {
    let exchange = ToolExchange {
        assistant_message: TranscriptMessage {
            id: "msg_1".into(),
            message: ChatMessage {
                role: "assistant".into(),
                content: Some(String::new()),
                reasoning_content: Some("Need to inspect.".into()),
                tool_calls: Some(vec![ToolCall {
                    id: "call_1".into(),
                    kind: "function".into(),
                    function: FunctionCall {
                        name: "read_file".into(),
                        arguments: r#"{"path":"src/main.rs"}"#.into(),
                    },
                }]),
                tool_call_id: None,
            },
        },
        tool_results: vec![TranscriptToolResult {
            id: "msg_2".into(),
            tool_call_id: "call_1".into(),
            content: "result preview".into(),
            metadata: ToolResultMetadata {
                original_chars: 50_000,
                injected_chars: 20_000,
                truncated: true,
                artifact_path: Some(".sparrow_agent/tool_outputs/out.txt".into()),
            },
        }],
        summary: None,
        status: ToolExchangeStatus::Completed,
    };

    let summary = fallback_tool_exchange_summary(&exchange, 1_000, &TokenEstimator);

    assert!(summary.content.contains("read_file"));
    assert!(summary.content.contains("original_chars=50000"));
    assert!(summary.content.contains("truncated=true"));
    assert!(summary
        .content
        .contains(".sparrow_agent/tool_outputs/out.txt"));
}
