use sparrow_agent::api::{
    ChatCompletionStreamChunk, ChoiceDelta, FunctionCallDelta, StreamChoice, ToolCallDelta,
};
use sparrow_agent::streaming::{AgentEventSink, AgentStreamEvent, StreamAccumulator, StreamError};

#[derive(Default)]
struct RecordingSink {
    events: Vec<String>,
}

impl AgentEventSink for RecordingSink {
    fn on_event(&mut self, event: &AgentStreamEvent) -> Result<(), String> {
        match event {
            AgentStreamEvent::ResponseStarted { round } => {
                self.events.push(format!("response_started:{round}"));
            }
            AgentStreamEvent::ReasoningStarted => {
                self.events.push("reasoning_started".into());
            }
            AgentStreamEvent::ReasoningDelta(text) => {
                self.events.push(format!("reasoning:{text}"));
            }
            AgentStreamEvent::AnswerStarted => {
                self.events.push("answer_started".into());
            }
            AgentStreamEvent::AnswerDelta(text) => {
                self.events.push(format!("answer:{text}"));
            }
            AgentStreamEvent::ToolCallDelta {
                index,
                name,
                arguments_delta,
                ..
            } => {
                self.events.push(format!(
                    "tool:{index}:{}:{}",
                    name.as_deref().unwrap_or("<none>"),
                    arguments_delta.as_deref().unwrap_or("")
                ));
            }
            AgentStreamEvent::ResponseFinished { finish_reason } => {
                self.events.push(format!(
                    "finished:{}",
                    finish_reason.as_deref().unwrap_or("<none>")
                ));
            }
            AgentStreamEvent::Usage(_) => {
                self.events.push("usage".into());
            }
        }

        Ok(())
    }
}

struct FailingSink;

impl AgentEventSink for FailingSink {
    fn on_event(&mut self, _event: &AgentStreamEvent) -> Result<(), String> {
        Err("sink closed".into())
    }
}

fn chunk(delta: ChoiceDelta, finish_reason: Option<&str>) -> ChatCompletionStreamChunk {
    ChatCompletionStreamChunk {
        id: None,
        object: None,
        created: None,
        model: None,
        choices: vec![StreamChoice {
            index: 0,
            delta,
            finish_reason: finish_reason.map(str::to_string),
        }],
        usage: None,
    }
}

fn empty_delta() -> ChoiceDelta {
    ChoiceDelta {
        role: None,
        content: None,
        reasoning_content: None,
        tool_calls: None,
    }
}

fn delta_with_role(role: &str) -> ChoiceDelta {
    ChoiceDelta {
        role: Some(role.into()),
        ..empty_delta()
    }
}

fn delta_with_reasoning(reasoning: &str) -> ChoiceDelta {
    ChoiceDelta {
        reasoning_content: Some(reasoning.into()),
        ..empty_delta()
    }
}

fn delta_with_content(content: &str) -> ChoiceDelta {
    ChoiceDelta {
        content: Some(content.into()),
        ..empty_delta()
    }
}

fn delta_with_tool_name(id: &str, name: &str) -> ChoiceDelta {
    ChoiceDelta {
        tool_calls: Some(vec![ToolCallDelta {
            index: 0,
            id: Some(id.into()),
            kind: Some("function".into()),
            function: Some(FunctionCallDelta {
                name: Some(name.into()),
                arguments: None,
            }),
        }]),
        ..empty_delta()
    }
}

fn delta_with_tool_arguments(arguments: &str) -> ChoiceDelta {
    ChoiceDelta {
        tool_calls: Some(vec![ToolCallDelta {
            index: 0,
            id: None,
            kind: None,
            function: Some(FunctionCallDelta {
                name: None,
                arguments: Some(arguments.into()),
            }),
        }]),
        ..empty_delta()
    }
}

#[test]
fn emits_reasoning_started_after_role_only_chunk() {
    let mut accumulator = StreamAccumulator::new();
    let mut sink = RecordingSink::default();

    accumulator
        .push(chunk(delta_with_role("assistant"), None), &mut sink, 0)
        .unwrap();
    accumulator
        .push(
            chunk(delta_with_reasoning("Let me think."), None),
            &mut sink,
            0,
        )
        .unwrap();

    assert_eq!(
        sink.events,
        vec![
            "response_started:0",
            "reasoning_started",
            "reasoning:Let me think.",
        ]
    );
}

#[test]
fn includes_accumulated_tool_name_in_argument_delta_events() {
    let mut accumulator = StreamAccumulator::new();
    let mut sink = RecordingSink::default();

    accumulator
        .push(
            chunk(delta_with_tool_name("call_1", "list_directory"), None),
            &mut sink,
            0,
        )
        .unwrap();
    accumulator
        .push(
            chunk(delta_with_tool_arguments("{\"path\":\"/tmp\"}"), None),
            &mut sink,
            0,
        )
        .unwrap();

    assert_eq!(
        sink.events,
        vec![
            "response_started:0",
            "tool:0:list_directory:",
            "tool:0:list_directory:{\"path\":\"/tmp\"}",
        ]
    );
}

#[test]
fn ignores_empty_content_deltas() {
    let mut accumulator = StreamAccumulator::new();
    let mut sink = RecordingSink::default();

    accumulator
        .push(chunk(delta_with_content(""), None), &mut sink, 0)
        .unwrap();
    accumulator
        .push(chunk(delta_with_content("done"), None), &mut sink, 0)
        .unwrap();

    assert_eq!(
        sink.events,
        vec!["response_started:0", "answer_started", "answer:done"]
    );
}

#[test]
fn finish_assembles_message_and_tool_calls() {
    let mut accumulator = StreamAccumulator::new();
    let mut sink = RecordingSink::default();
    accumulator
        .push(chunk(delta_with_reasoning("think"), None), &mut sink, 2)
        .unwrap();
    accumulator
        .push(chunk(delta_with_tool_name("call_9", "read_file"), None), &mut sink, 2)
        .unwrap();
    accumulator
        .push(chunk(delta_with_tool_arguments("{\"a\":"), None), &mut sink, 2)
        .unwrap();
    accumulator
        .push(chunk(delta_with_tool_arguments("1}"), Some("tool_calls")), &mut sink, 2)
        .unwrap();
    let response = accumulator.finish(&mut sink).unwrap();
    assert_eq!(response.finish_reason.as_deref(), Some("tool_calls"));
    assert_eq!(response.message.reasoning_content.as_deref(), Some("think"));
    let calls = response.message.tool_calls.unwrap();
    assert_eq!(calls.len(), 1);
    assert_eq!(calls[0].id, "call_9");
    assert_eq!(calls[0].function.name, "read_file");
    assert_eq!(calls[0].function.arguments, "{\"a\":1}");
    assert_eq!(sink.events[0], "response_started:2");
    assert_eq!(sink.events.last().unwrap(), "finished:tool_calls");
}

#[test]
fn tool_call_without_id_fails_to_complete() {
    let mut accumulator = StreamAccumulator::new();
    let mut sink = RecordingSink::default();
    accumulator
        .push(chunk(delta_with_tool_arguments("{}"), None), &mut sink, 0)
        .unwrap();
    let err = match accumulator.complete() {
        Ok(_) => panic!("a tool call without an id must not complete"),
        Err(e) => e,
    };
    assert_eq!(err, StreamError::MissingToolCallId);
    assert_eq!(err.describe(), "streamed tool call missing id");
}

#[test]
fn sink_failure_is_reported() {
    let mut accumulator = StreamAccumulator::new();
    let err = accumulator
        .push(chunk(delta_with_content("x"), None), &mut FailingSink, 0)
        .unwrap_err();
    assert_eq!(err, StreamError::Sink("sink closed".into()));
}
