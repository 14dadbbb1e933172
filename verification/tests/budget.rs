use sparrow_agent::api::ChatMessage;
use sparrow_agent::context::budget::{
    model_context_window_tokens, preserves_reasoning_content, ContextBudget, ContextPolicy,
    ReasoningRetentionPolicy, TokenEstimator,
};

#[test]
fn estimator_is_conservative_for_cjk_text() {
    let estimator = TokenEstimator;

    assert!(estimator.estimate_text("你好世界") >= 8);
    assert!(estimator.estimate_text("hello world") >= 3);
}

#[test]
fn deepseek_models_always_preserve_reasoning() {
    let policy = ContextPolicy {
        reasoning_policy: ReasoningRetentionPolicy::OmitWhenSupported,
        ..ContextPolicy::default()
    };

    assert!(preserves_reasoning_content("deepseek-v4-pro", &policy));
    assert!(!preserves_reasoning_content("other-model", &policy));
}

#[test]
fn estimates_exact_token_counts() {
    let estimator = TokenEstimator;
    assert_eq!(estimator.estimate_text(""), 0);
    assert_eq!(estimator.estimate_text("hello world"), 4);
    assert_eq!(estimator.estimate_text("你好世界"), 8);
    let message = ChatMessage::user("hello world".to_string());
    assert_eq!(estimator.estimate_message(&message), 4 + 2 + 4);
    let messages = vec![message.clone(), ChatMessage::system("hi".to_string())];
    assert_eq!(estimator.estimate_messages(&messages), 10 + 4 + 2 + 1);
}

#[test]
fn truncation_keeps_text_that_fits() {
    let estimator = TokenEstimator;
    assert_eq!(estimator.truncate_text_to_tokens("short", 100), "short");
    let cut = estimator.truncate_text_to_tokens(&"x".repeat(1_000), 10);
    assert_eq!(cut, format!("{}\n[truncated]", "x".repeat(30)));
}

#[test]
fn reasoning_policy_names_round_trip() {
    for policy in [
        ReasoningRetentionPolicy::Auto,
        ReasoningRetentionPolicy::Preserve,
        ReasoningRetentionPolicy::OmitWhenSupported,
    ] {
        assert_eq!(ReasoningRetentionPolicy::from_str(policy.as_str()), policy);
    }
    assert_eq!(
        ReasoningRetentionPolicy::from_str("bogus"),
        ReasoningRetentionPolicy::Auto
    );
}

#[test]
fn budget_uses_window_ratio_and_reserved_completion() {
    assert_eq!(model_context_window_tokens("deepseek-v4-pro"), Some(1_000_000));
    assert_eq!(model_context_window_tokens("other"), None);
    let policy = ContextPolicy::default();
    let budget = ContextBudget::for_model("deepseek-v4-pro", &policy);
    assert_eq!(budget.context_window_tokens, 1_000_000);
    assert_eq!(budget.target_prompt_tokens, 600_000 - 8_192);
    let unknown = ContextBudget::for_model("other", &policy);
    assert_eq!(unknown.context_window_tokens, 128_000);
}
