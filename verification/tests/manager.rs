use sparrow_agent::api::ChoiceMessage;
use sparrow_agent::context::budget::ContextPolicy;
use sparrow_agent::context::compiler::CompileInput;
use sparrow_agent::context::manager::ContextManager;
use sparrow_agent::context::memory::{DeltaOutcome, MemoryDelta};
use sparrow_agent::context::summary::ContextSummarizer;
use sparrow_agent::context::transcript::{ConversationTurn, TurnSummary};

struct FailingSummarizer;

impl ContextSummarizer for FailingSummarizer {
    fn summarize_turn(&self, _turn: &ConversationTurn) -> Result<TurnSummary, String> {
        Err("boom".into())
    }
}

struct FixedSummarizer;

impl ContextSummarizer for FixedSummarizer {
    fn summarize_turn(&self, _turn: &ConversationTurn) -> Result<TurnSummary, String> {
        Ok(TurnSummary {
            content: "fixed summary".into(),
        })
    }
}

#[test]
fn context_manager_falls_back_when_summarizer_fails() {
    let policy = ContextPolicy {
        recent_turns: 1,
        ..ContextPolicy::default()
    };
    let mut manager = ContextManager::new("system".into(), "deepseek-v4-pro".into(), policy, now());
    manager.record_user("first".into());
    manager.record_assistant(ChoiceMessage {
        role: "assistant".into(),
        content: Some("answer".into()),
        reasoning_content: None,
        tool_calls: None,
    });
    manager.record_user("second".into());

    let report = manager.maybe_compact(&FailingSummarizer).unwrap();
    let compiled = manager.compile_request(CompileInput).unwrap();

    assert_eq!(report.compacted_turns, 1);
    assert_eq!(report.fallback_summaries, 1);
    assert!(compiled.report.summarized_turns >= 1);
}

#[test]
fn apply_memory_delta_then_compile_injects_it() {
    let mut manager = ContextManager::new(
        "system".into(),
        "deepseek-v4-pro".into(),
        ContextPolicy::default(), now(),
    );

    let outcome = manager.apply_memory_delta(MemoryDelta::AddFact {
        content: "fact one".into(),
    }, now());
    assert_eq!(outcome, DeltaOutcome::Applied);

    let compiled = manager.compile_request(CompileInput).unwrap();
    let memory_content = compiled.messages.iter().find_map(|message| {
        message
            .content
            .as_deref()
            .filter(|content| content.starts_with("Working memory for the ongoing task"))
    });
    let memory_content = memory_content.expect("working memory message should be injected");
    assert!(memory_content.contains("fact one"));
}

#[test]
fn compaction_uses_summarizer_and_leaves_recent_turns() {
    let policy = ContextPolicy {
        recent_turns: 1,
        ..ContextPolicy::default()
    };
    let mut manager = ContextManager::new("system".into(), "m".into(), policy, now());
    manager.record_user("one".into());
    manager.record_user("two".into());
    manager.record_user("three".into());
    let report = manager.maybe_compact(&FixedSummarizer).unwrap();
    assert_eq!(report.compacted_turns, 2);
    assert_eq!(report.fallback_summaries, 0);
    let turns = manager.transcript.turns();
    assert_eq!(turns[0].summary.as_ref().unwrap().content, "fixed summary");
    assert!(turns[2].summary.is_none());
    let again = manager.maybe_compact(&FixedSummarizer).unwrap();
    assert_eq!(again.compacted_turns, 0);
    assert_eq!(manager.audit_messages().len(), 4);
}

fn now() -> i64 {
    chrono::Utc::now().timestamp_millis()
}

#[test]
fn summary_outcome_keeps_a_summary_or_falls_back_with_a_warning() {
    let mut manager = ContextManager::new("system".into(), "m".into(), ContextPolicy::default(), now());
    manager.record_user("one".into());
    let turn = &manager.transcript.turns()[0];
    let estimator = sparrow_agent::context::budget::TokenEstimator;
    let (kept, none) = ContextManager::summary_outcome(
        turn,
        Ok(TurnSummary { content: "given".into() }),
        100,
        &estimator,
    );
    assert_eq!(kept.content, "given");
    assert!(none.is_none());
    let (fallback, warning) = ContextManager::summary_outcome(turn, Err("boom".into()), 100, &estimator);
    assert_eq!(
        fallback.content,
        sparrow_agent::context::summary::fallback_turn_summary(turn, 100, &estimator).content
    );
    assert_eq!(warning.unwrap(), format!("summarizer failed for turn {}: boom", turn.id));
}
