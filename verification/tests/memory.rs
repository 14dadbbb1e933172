use sparrow_agent::context::budget::TokenEstimator;
use sparrow_agent::context::memory::{DeltaOutcome, MemoryDelta, MemoryItem, MemoryScope, WorkingMemory};

fn item(text: &str) -> MemoryItem {
    MemoryItem::new(text.to_string(), now())
}

#[test]
fn set_goal_overwrites_and_empty_clears() {
    let mut mem = WorkingMemory::new(now());
    assert_eq!(
        mem.apply_delta(&MemoryDelta::SetGoal {
            goal: "ship v1".into()
        }, now()),
        DeltaOutcome::Applied
    );
    assert_eq!(mem.task_goal.as_deref(), Some("ship v1"));

    assert_eq!(
        mem.apply_delta(&MemoryDelta::SetGoal {
            goal: "   ".into()
        }, now()),
        DeltaOutcome::Applied
    );
    assert_eq!(mem.task_goal, None);
}

#[test]
fn add_fact_appends_and_ignores_empty() {
    let mut mem = WorkingMemory::new(now());
    assert_eq!(
        mem.apply_delta(&MemoryDelta::AddFact {
            content: "rust edition 2024".into()
        }, now()),
        DeltaOutcome::Applied
    );
    assert_eq!(
        mem.apply_delta(&MemoryDelta::AddFact {
            content: "  ".into()
        }, now()),
        DeltaOutcome::NotFound
    );
    assert_eq!(mem.durable_facts.len(), 1);
    assert_eq!(mem.durable_facts[0].content, "rust edition 2024");
}

#[test]
fn remove_fact_removes_first_case_insensitive_match() {
    let mut mem = WorkingMemory::new(now());
    mem.durable_facts.push(item("API base is /v1"));
    mem.durable_facts.push(item("API base is /v2"));

    assert_eq!(
        mem.apply_delta(&MemoryDelta::RemoveFact {
            needle: "api base".into()
        }, now()),
        DeltaOutcome::Applied
    );
    assert_eq!(mem.durable_facts.len(), 1);
    assert_eq!(mem.durable_facts[0].content, "API base is /v2");
}

#[test]
fn remove_fact_no_match_is_not_found() {
    let mut mem = WorkingMemory::new(now());
    mem.durable_facts.push(item("hello"));

    assert_eq!(
        mem.apply_delta(&MemoryDelta::RemoveFact {
            needle: "missing".into()
        }, now()),
        DeltaOutcome::NotFound
    );
    assert_eq!(mem.durable_facts.len(), 1);
}

#[test]
fn resolve_question_removes_first_match() {
    let mut mem = WorkingMemory::new(now());
    mem.open_questions.push(item("Which DB?"));
    mem.open_questions.push(item("Which port?"));

    assert_eq!(
        mem.apply_delta(&MemoryDelta::ResolveQuestion {
            needle: "port".into()
        }, now()),
        DeltaOutcome::Applied
    );
    assert_eq!(mem.open_questions.len(), 1);
    assert_eq!(mem.open_questions[0].content, "Which DB?");
}

#[test]
fn clear_scopes_correctly() {
    let mut mem = WorkingMemory::new(now());
    mem.durable_facts.push(item("a"));
    mem.decisions.push(item("d"));
    mem.open_questions.push(item("q"));
    mem.task_goal = Some("g".into());

    assert_eq!(
        mem.apply_delta(&MemoryDelta::Clear {
            scope: MemoryScope::Facts
        }, now()),
        DeltaOutcome::Cleared(1)
    );
    assert!(mem.durable_facts.is_empty());
    assert_eq!(mem.decisions.len(), 1);

    assert_eq!(
        mem.apply_delta(&MemoryDelta::Clear {
            scope: MemoryScope::All
        }, now()),
        DeltaOutcome::Cleared(2)
    );
    assert!(mem.decisions.is_empty() && mem.open_questions.is_empty());
    assert_eq!(mem.task_goal, None);
}

#[test]
fn apply_then_render_reflects_state() {
    let mut mem = WorkingMemory::new(now());
    mem.apply_delta(&MemoryDelta::SetGoal {
        goal: "migrate config".into(),
    }, now());
    mem.apply_delta(&MemoryDelta::AddFact {
        content: "config is toml".into(),
    }, now());

    let message = mem.to_context_message(&TokenEstimator, 4_096).unwrap();
    let content = message.content.unwrap();
    assert!(content.contains("Task goal"));
    assert!(content.contains("migrate config"));
    assert!(content.contains("config is toml"));
}

#[test]
fn empty_memory_renders_nothing() {
    let mem = WorkingMemory::new(now());
    assert!(mem.is_empty());
    assert!(mem.to_context_message(&TokenEstimator, 4_096).is_none());
}

#[test]
fn decisions_and_questions_are_added_trimmed() {
    let mut mem = WorkingMemory::new(now());
    assert_eq!(
        mem.apply_delta(&MemoryDelta::AddDecision {
            content: "  use sqlite ".into()
        }, now()),
        DeltaOutcome::Applied
    );
    assert_eq!(
        mem.apply_delta(&MemoryDelta::AddQuestion {
            content: "which port?".into()
        }, now()),
        DeltaOutcome::Applied
    );
    assert_eq!(mem.decisions[0].content, "use sqlite");
    assert_eq!(mem.open_questions[0].content, "which port?");
    assert!(!mem.is_empty());
}

fn now() -> i64 {
    chrono::Utc::now().timestamp_millis()
}

#[test]
fn memory_times_are_the_times_given() {
    assert_eq!(MemoryItem::new("x".into(), 42).created_at_ms, 42);
    let mut mem = WorkingMemory::new(10);
    assert_eq!(mem.updated_at_ms, 10);
    assert_eq!(mem.apply_delta(&MemoryDelta::AddFact { content: "a".into() }, 20), DeltaOutcome::Applied);
    assert_eq!(mem.updated_at_ms, 20);
    assert_eq!(mem.durable_facts[0].created_at_ms, 20);
    assert_eq!(mem.apply_delta(&MemoryDelta::RemoveFact { needle: "zzz".into() }, 30), DeltaOutcome::NotFound);
    assert_eq!(mem.updated_at_ms, 20);
}
