use sparrow_agent::context::memory::{MemoryDelta, MemoryScope};
use sparrow_agent::memory_tool::{
    new_memory_buffer, parse_scope, MemoryToolError, MemoryToolProvider, UpdateMemoryArgs,
};

fn args(operation: &str) -> UpdateMemoryArgs {
    UpdateMemoryArgs {
        operation: operation.into(),
        content: None,
        goal: None,
        needle: None,
        scope: None,
    }
}

#[test]
fn queues_valid_add_fact_delta() {
    let mut provider = MemoryToolProvider::new(new_memory_buffer());

    let result = provider
        .execute(
            "updateMemory",
            Some(UpdateMemoryArgs {
                content: Some("the sky is blue".into()),
                ..args("add_fact")
            }),
        )
        .unwrap()
        .unwrap();

    assert!(
        result.starts_with("Memory update queued: add_fact"),
        "unexpected ack: {result}"
    );

    let queued = provider.drain();
    assert_eq!(queued.len(), 1);
    match &queued[0] {
        MemoryDelta::AddFact { content } => assert_eq!(content, "the sky is blue"),
        other => panic!("expected AddFact, got {other:?}"),
    }
    assert!(provider.buffer.is_empty());
}

#[test]
fn clear_defaults_to_all_scope() {
    let mut provider = MemoryToolProvider::new(new_memory_buffer());

    provider.execute("updateMemory", Some(args("clear"))).unwrap();

    match &provider.buffer[0] {
        MemoryDelta::Clear { scope } => assert_eq!(*scope, MemoryScope::All),
        other => panic!("expected Clear, got {other:?}"),
    }
}

#[test]
fn rejects_unknown_operation_without_queueing() {
    let mut provider = MemoryToolProvider::new(new_memory_buffer());

    let result = provider.execute("updateMemory", Some(args("teleport")));

    assert!(result.is_err(), "unknown operation must error");
    assert_eq!(
        result.unwrap_err().describe(),
        "unknown operation 'teleport' for updateMemory"
    );
    assert!(provider.buffer.is_empty(), "nothing should be queued on error");
}

#[test]
fn exposes_single_update_memory_definition() {
    let provider = MemoryToolProvider::new(new_memory_buffer());
    let definitions = &provider.definitions;
    assert_eq!(definitions.len(), 1);
    assert_eq!(definitions[0].function.name, "updateMemory");
    assert!(definitions[0]
        .function
        .parameters
        .as_ref()
        .unwrap()
        .contains("\"required\":[\"operation\"]"));
}

#[test]
fn other_tools_and_bad_arguments() {
    let mut provider = MemoryToolProvider::new(new_memory_buffer());
    assert_eq!(provider.execute("webSearch", None), Ok(None));
    assert_eq!(
        provider.execute("updateMemory", None),
        Err(MemoryToolError::InvalidArguments)
    );
    assert!(provider.buffer.is_empty());
    provider
        .execute(
            "updateMemory",
            Some(UpdateMemoryArgs {
                scope: Some("facts".into()),
                ..args("clear")
            }),
        )
        .unwrap();
    provider.execute("updateMemory", Some(args("set_goal"))).unwrap();
    assert_eq!(
        provider.buffer,
        vec![
            MemoryDelta::Clear {
                scope: MemoryScope::Facts
            },
            MemoryDelta::SetGoal { goal: String::new() }
        ]
    );
    assert_eq!(parse_scope(Some("open_questions")), MemoryScope::OpenQuestions);
    assert_eq!(parse_scope(Some("everything")), MemoryScope::All);
}
