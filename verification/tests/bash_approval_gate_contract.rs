use sparrow_agent::bash_approval_gate::{
    BashApprovalAction, BashApprovalGate, GateStep, ModelRiskResponse,
};
use sparrow_agent::bash_approval_policy::{
    BashApprovalPolicy, BashApprovalPolicyMatcher, BashApprovalPolicyStore, MILLIS_PER_DAY,
};
use sparrow_agent::bash_risk::{BashRiskLevel, PolicyCandidate};

use sparrow_agent::config::{BashApprovalMode, BashConfig};

fn config(root: &str, policy_path: &str, mode: BashApprovalMode) -> BashConfig {
    BashConfig {
        enabled: true,
        roots: vec![root.into()],
        approval_mode: mode,
        approval_policy_path: policy_path.into(),
        approval_policy_ttl_days: 90,
        model_low_risk_threshold_permille: 850,
        timeout_ms: 30_000,
        max_timeout_ms: 120_000,
        max_command_chars: 8_192,
        stream_max_bytes: 8 * 1024,
        env_allowlist: vec!["PATH".into()],
    }
}

fn gate(root: &str, mode: BashApprovalMode, store: BashApprovalPolicyStore, key: Option<&str>) -> BashApprovalGate {
    BashApprovalGate::new(
        config(root, "/tmp/gate/policies.json", mode),
        store,
        key.map(str::to_string),
    )
}

fn empty_store() -> BashApprovalPolicyStore {
    BashApprovalPolicyStore::new("/tmp/gate/policies.json".into(), 90, Vec::new())
}

fn decided(step: GateStep) -> sparrow_agent::bash_approval_gate::BashGateDecision {
    match step {
        GateStep::Decided(d) => d,
        GateStep::ConsultModel { .. } => panic!("expected a decision"),
    }
}

#[test]
fn smart_mode_auto_approves_low_risk_local_rule() {
    let root = "/tmp/gate";
    let mut gate = gate(root, BashApprovalMode::Smart, empty_store(), None);

    let decision = decided(gate.decide("git status --short", root, 30_000, chrono::Utc::now().timestamp_millis()));

    assert_eq!(decision.risk, BashRiskLevel::Low);
    assert!(matches!(decision.action, BashApprovalAction::Approved));
    assert_eq!(decision.summary.unwrap().approved_by, "local_rule");
}

#[test]
fn smart_mode_denies_blocked_even_when_never_prompt_would_run_other_commands() {
    let root = "/tmp/gate";
    let mut gate = gate(root, BashApprovalMode::NeverPrompt, empty_store(), None);

    let decision = decided(gate.decide("rm -rf /", root, 30_000, chrono::Utc::now().timestamp_millis()));

    assert_eq!(decision.risk, BashRiskLevel::Blocked);
    assert!(matches!(
        decision.action,
        BashApprovalAction::Blocked { .. }
    ));
}

#[test]
fn policy_cache_can_auto_approve_medium_command_shape() {
    let root = "/tmp/gate";
    let now = chrono::Utc::now().timestamp_millis();
    let mut store = empty_store();
    store.add_policy(BashApprovalPolicy::new(
        BashApprovalPolicyMatcher::ExactNormalizedCommand {
            command: "printf ok > output.txt".into(),
        },
        root.into(),
        BashRiskLevel::Low,
        "user_policy".into(),
        1_000,
        "remembered exact command".into(),
        now + MILLIS_PER_DAY, 0,
    ));
    let mut gate = gate(root, BashApprovalMode::Smart, store, None);

    let decision = decided(gate.decide("printf ok > output.txt", root, 30_000, now));

    assert_eq!(decision.risk, BashRiskLevel::Low);
    assert!(matches!(decision.action, BashApprovalAction::Approved));
    assert_eq!(decision.summary.unwrap().approved_by, "policy_cache");
}

#[test]
fn always_prompt_asks_even_for_low_risk() {
    let root = "/tmp/gate";
    let mut gate = gate(root, BashApprovalMode::AlwaysPrompt, empty_store(), Some("key"));
    let decision = decided(gate.decide("pwd", root, 30_000, 0));
    assert!(matches!(
        decision.action,
        BashApprovalAction::RequiresConfirmation { .. }
    ));
}

#[test]
fn never_prompt_approves_high_risk_but_smart_asks() {
    let root = "/tmp/gate";
    let mut never = gate(root, BashApprovalMode::NeverPrompt, empty_store(), None);
    let decision = decided(never.decide("rm -rf target", root, 30_000, 0));
    assert!(matches!(decision.action, BashApprovalAction::Approved));
    let mut smart = gate(root, BashApprovalMode::Smart, empty_store(), Some("key"));
    let decision = decided(smart.decide("rm -rf target", root, 30_000, 0));
    assert_eq!(decision.risk, BashRiskLevel::High);
    assert!(matches!(
        decision.action,
        BashApprovalAction::RequiresConfirmation { .. }
    ));
}

#[test]
fn medium_risk_consults_the_model_and_accepts_a_confident_low_answer() {
    let root = "/tmp/gate";
    let mut smart = gate(root, BashApprovalMode::Smart, empty_store(), Some("key"));
    let step = smart.decide("echo $(date)", root, 30_000, 0);
    let risk_decision = match step {
        GateStep::ConsultModel { risk_decision, .. } => risk_decision,
        GateStep::Decided(_) => panic!("expected a model consultation"),
    };
    let response = ModelRiskResponse {
        risk: BashRiskLevel::Low,
        confidence_permille: 900,
        reason: "prints the date".into(),
        policy_candidate: Some(PolicyCandidate::ExactNormalizedCommand {
            command: "echo $(date)".into(),
        }),
    };
    let decision = smart.finish_with_model(root, risk_decision, Some(response), 0);
    assert!(matches!(decision.action, BashApprovalAction::Approved));
    assert_eq!(decision.summary.unwrap().approved_by, "model");
    assert_eq!(smart.store.policies().len(), 1);
}

#[test]
fn medium_risk_without_a_model_asks_for_confirmation() {
    let root = "/tmp/gate";
    let mut smart = gate(root, BashApprovalMode::Smart, empty_store(), None);
    let decision = decided(smart.decide("echo $(date)", root, 30_000, 0));
    assert_eq!(decision.risk, BashRiskLevel::Medium);
    assert!(matches!(
        decision.action,
        BashApprovalAction::RequiresConfirmation { .. }
    ));
    let id = smart.remember_policy(&decision, root, 0);
    assert!(id.is_some());
    let again = decided(smart.decide("echo $(date)", root, 30_000, 1));
    assert!(matches!(again.action, BashApprovalAction::Approved));
}
