use sparrow_agent::bash_runner::{
    filter_env_pairs, is_secret_env_name, BashCommandStatus, BashRunError, BashRunner,
    LimitedOutput,
};
use sparrow_agent::config::{BashApprovalMode, BashConfig};

fn test_config(root: &str) -> BashConfig {
    BashConfig {
        enabled: true,
        roots: vec![root.into()],
        approval_mode: BashApprovalMode::NeverPrompt,
        approval_policy_path: "/tmp/policies.json".into(),
        approval_policy_ttl_days: 90,
        model_low_risk_threshold_permille: 850,
        timeout_ms: 30_000,
        max_timeout_ms: 120_000,
        max_command_chars: 8_192,
        stream_max_bytes: 8 * 1024,
        env_allowlist: vec!["PATH".into(), "API_KEY".into(), "AUTHORIZATION".into()],
    }
}

#[test]
fn filter_env_pairs_omits_secret_names_even_when_allowlisted() {
    let config = test_config("/tmp");
    let filtered = filter_env_pairs(
        &config.env_allowlist,
        vec![
            ("PATH".to_string(), "/bin".to_string()),
            ("API_KEY".to_string(), "secret".to_string()),
            ("AUTHORIZATION".to_string(), "Bearer secret".to_string()),
            ("UNLISTED".to_string(), "value".to_string()),
        ],
    );

    assert_eq!(filtered, vec![("PATH".to_string(), "/bin".to_string())]);
}

#[test]
fn bash_runner_rejects_cwd_outside_allowed_roots() {
    let roots = vec!["/tmp/root".to_string()];
    let error = BashRunner::check_cwd("/tmp/outside", &roots).unwrap_err();

    assert!(error.describe().contains("outside allowed roots"));
    assert!(BashRunner::check_cwd("/tmp/root/sub", &roots).is_ok());
    assert!(BashRunner::check_cwd("/tmp/rootless", &roots).is_err());
}

#[test]
fn commands_are_validated_before_running() {
    let mut config = test_config("/tmp");
    config.max_command_chars = 5;
    let runner = BashRunner::new(config);
    assert_eq!(runner.validate_command("  "), Err(BashRunError::EmptyCommand));
    assert_eq!(
        runner.validate_command("echo hello"),
        Err(BashRunError::CommandTooLong { chars: 10, limit: 5 })
    );
    assert_eq!(
        BashRunError::CommandTooLong { chars: 10, limit: 5 }.describe(),
        "bash command is too long: 10 chars (limit: 5 chars)"
    );
    assert_eq!(runner.validate_command("a\0b"), Err(BashRunError::NulByte));
    assert_eq!(runner.validate_command("pwd"), Ok(()));
}

#[test]
fn timeouts_default_and_are_capped() {
    let runner = BashRunner::new(test_config("/tmp"));
    assert_eq!(runner.resolve_timeout_ms(None), Ok(30_000));
    assert_eq!(runner.resolve_timeout_ms(Some(5_000)), Ok(5_000));
    assert_eq!(runner.resolve_timeout_ms(Some(500_000)), Ok(120_000));
    assert_eq!(runner.resolve_timeout_ms(Some(0)), Err(BashRunError::ZeroTimeout));
}

#[test]
fn limited_output_keeps_the_first_bytes_and_counts_all() {
    let mut out = LimitedOutput::new(3);
    out.push_chunk(&[0xC3, 0xA9]);
    assert!(!out.truncated());
    out.push_chunk(&[0xC3, 0xA9]);
    assert_eq!(out.retained, vec![0xC3, 0xA9, 0xC3]);
    assert_eq!(out.total, 4);
    assert!(out.truncated());
}

#[test]
fn secret_env_names_are_recognised_in_any_case() {
    assert!(is_secret_env_name("github_token"));
    assert!(is_secret_env_name("Db_Password"));
    assert!(!is_secret_env_name("PATH"));
    assert_eq!(BashCommandStatus::TimedOut.as_str(), "timed_out");
    let denied = BashRunner::denied_output("/tmp".into(), None);
    assert_eq!(denied.status, BashCommandStatus::Denied);
    assert_eq!(denied.exit_code, None);
}
