use sparrow_agent::bash_approval_policy::{
    BashApprovalPolicy, BashApprovalPolicyMatcher, BashApprovalPolicyStore, MILLIS_PER_DAY,
};
use sparrow_agent::bash_risk::{BashRiskLevel, NormalizedCommand, PolicyCandidate};


fn policy(
    matcher: BashApprovalPolicyMatcher,
    cwd_scope: &str,
    expires_at_ms: i64,
) -> BashApprovalPolicy {
    BashApprovalPolicy::new(
        matcher,
        cwd_scope.into(),
        BashRiskLevel::Low,
        "test".into(),
        1_000,
        "test policy".into(),
        expires_at_ms, 0,
    )
}

#[test]
fn store_creates_empty_policy_file_with_private_permissions() {
    let store = BashApprovalPolicyStore::new("/tmp/policies.json".into(), 90, Vec::new());

    assert_eq!(store.policies().len(), 0);
    assert_eq!(store.ttl_days, 90);
}

#[test]
fn argv_prefix_policy_matches_only_inside_cwd_scope_and_before_expiry() {
    let root = "/tmp/root";
    let workspace = "/tmp/root/workspace";
    let now = chrono::Utc::now().timestamp_millis();
    let mut store = BashApprovalPolicyStore::new("/tmp/root/policies.json".into(), 90, Vec::new());
    let policy = policy(
        BashApprovalPolicyMatcher::ArgvPrefix {
            program: "git".into(),
            args: vec!["status".into()],
        },
        workspace,
        now + MILLIS_PER_DAY,
    );
    store.add_policy(policy);

    assert!(store
        .find_matching_low_risk_policy("git status --short", workspace, now)
        .is_some());
    assert!(store
        .find_matching_low_risk_policy("git reset --hard", workspace, now)
        .is_none());
    assert!(store
        .find_matching_low_risk_policy("git status --short > status.txt", workspace, now)
        .is_none());
    assert!(store
        .find_matching_low_risk_policy("git status", root, now)
        .is_none());
}

#[test]
fn expired_policy_does_not_match() {
    let root = "/tmp/root";
    let now = chrono::Utc::now().timestamp_millis();
    let mut store = BashApprovalPolicyStore::new("/tmp/root/policies.json".into(), 90, Vec::new());
    store.add_policy(policy(
        BashApprovalPolicyMatcher::ArgvExact {
            program: "cargo".into(),
            args: vec!["test".into()],
        },
        root,
        now - MILLIS_PER_DAY,
    ));

    assert!(store
        .find_matching_low_risk_policy("cargo test", root, now)
        .is_none());
}

#[test]
fn a_hit_is_recorded_on_the_matching_policy() {
    let now = 1_000_000;
    let mut store = BashApprovalPolicyStore::new("p".into(), 90, Vec::new());
    let id = store.add_policy(policy(
        BashApprovalPolicyMatcher::ToolFamily {
            program: "ls".into(),
        },
        "/w",
        now + 10,
    ));
    assert!(id.starts_with("policy_"));
    let hit = store.find_matching_low_risk_policy("ls -la", "/w/sub", now).unwrap();
    assert_eq!(hit.id, id);
    assert_eq!(store.policies()[0].hit_count, 1);
    assert_eq!(store.policies()[0].last_hit_at_ms, Some(now));
    assert!(store.find_matching_low_risk_policy("ls", "/elsewhere", now).is_none());
    assert_eq!(store.default_expiry(now), now + 90 * MILLIS_PER_DAY);
}

#[test]
fn matcher_from_candidate_matches_its_own_command() {
    let candidate = PolicyCandidate::ArgvExact {
        program: "cargo".into(),
        args: vec!["test".into()],
    };
    let matcher = BashApprovalPolicyMatcher::from_candidate(&candidate);
    assert!(matcher.matches(&NormalizedCommand::parse("cargo test")));
    assert!(!matcher.matches(&NormalizedCommand::parse("cargo test --all")));
    let exact = BashApprovalPolicyMatcher::ExactNormalizedCommand {
        command: "printf ok > output.txt".into(),
    };
    assert!(exact.matches(&NormalizedCommand::parse("printf  ok  >  output.txt")));
}
