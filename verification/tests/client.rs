use sparrow_agent::api::{ChatCompletionRequest, ChatMessage, StreamOptions, ToolDef};
use sparrow_agent::client::{streaming_request, truncate_str, SseDecoder, SseItem};

#[test]
fn streaming_request_includes_usage_options() {
    let request = ChatCompletionRequest {
        model: "deepseek-chat".into(),
        messages: Vec::new(),
        tools: None,
        thinking: None,
        reasoning_effort: None,
        stream: None,
        stream_options: None,
    };

    let request = streaming_request(&request);

    assert_eq!(request.stream, Some(true));
    assert!(matches!(
        request.stream_options,
        Some(StreamOptions {
            include_usage: true
        })
    ));
}

#[test]
fn streaming_request_keeps_the_rest_of_the_request() {
    let request = ChatCompletionRequest {
        model: "m".into(),
        messages: vec![ChatMessage::user("hi".into())],
        tools: Some(vec![ToolDef::function("f".into(), "does f".into())]),
        thinking: None,
        reasoning_effort: Some("high".into()),
        stream: Some(false),
        stream_options: None,
    };
    let s = streaming_request(&request);
    assert_eq!(s.model, "m");
    assert_eq!(s.messages.len(), 1);
    assert_eq!(s.messages[0].content.as_deref(), Some("hi"));
    assert_eq!(s.tools.as_ref().unwrap()[0].function.name, "f");
    assert_eq!(s.tools.as_ref().unwrap()[0].kind, "function");
    assert_eq!(s.reasoning_effort.as_deref(), Some("high"));
    assert_eq!(s.stream, Some(true));
}

#[test]
fn truncate_str_cuts_on_char_boundaries() {
    assert_eq!(truncate_str("hello", 10), "hello");
    assert_eq!(truncate_str("hello", 3), "hel");
    assert_eq!(truncate_str("héllo", 2), "h");
    assert_eq!(truncate_str("héllo", 3), "hé");
    assert_eq!(truncate_str("你好", 0), "");
}

#[test]
fn decoder_emits_payloads_of_complete_frames_only() {
    let mut decoder = SseDecoder::new();
    assert_eq!(decoder.push_text("data: {\"a\":1}"), vec![]);
    assert_eq!(
        decoder.push_text("\n\ndata: {\"b\":2}\n\n: comment\n\n"),
        vec![
            SseItem::Payload("{\"a\":1}".into()),
            SseItem::Payload("{\"b\":2}".into()),
        ]
    );
    assert!(decoder.buffer.is_empty());
}

#[test]
fn decoder_accepts_crlf_frames_and_stops_at_done() {
    let mut decoder = SseDecoder::new();
    let items = decoder.push_text("data: x\r\n\r\ndata: [DONE]\n\ndata: y\n\n");
    assert_eq!(items, vec![SseItem::Payload("x".into()), SseItem::Done]);
}

#[test]
fn decoder_reads_every_data_line_of_a_frame() {
    let mut decoder = SseDecoder::new();
    let items = decoder.push_text("event: msg\ndata: one\n  data:two  \ndata: [DONE]\ndata: three\n\n");
    assert_eq!(
        items,
        vec![
            SseItem::Payload("one".into()),
            SseItem::Payload("two".into()),
            SseItem::Done
        ]
    );
}
