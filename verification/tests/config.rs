use sparrow_agent::config::resolve_key;
use sparrow_agent::config::{
    parse_bool, parse_u64, split_csv, split_paths, system_prompt_with_runtime_paths,
    BashApprovalMode, BashConfig, BashEnvValues,
};

#[test]
fn bash_approval_mode_from_str_parses_known_values() {
    assert_eq!(
        BashApprovalMode::from_str("always"),
        BashApprovalMode::AlwaysPrompt
    );
    assert_eq!(BashApprovalMode::from_str("smart"), BashApprovalMode::Smart);
    assert_eq!(
        BashApprovalMode::from_str("never"),
        BashApprovalMode::NeverPrompt
    );
}

#[test]
fn bash_approval_mode_from_str_defaults_to_smart() {
    assert_eq!(
        BashApprovalMode::from_str("surprise"),
        BashApprovalMode::Smart
    );
}

#[test]
fn bash_config_from_env_uses_smart_approval_by_default() {
    let config = BashConfig::from_values(&BashEnvValues::default(), ':');

    assert_eq!(config.approval_mode, BashApprovalMode::Smart);
    assert_eq!(config.approval_policy_ttl_days, 90);
    assert_eq!(config.model_low_risk_threshold_permille, 850);
}

#[test]
fn system_prompt_includes_runtime_file_system_paths() {
    let prompt = system_prompt_with_runtime_paths(
        "base prompt",
        Some("/workspace/sparrow_agent"),
        Some("/workspace/sparrow_agent/target/debug/sparrow_agent"),
    );

    assert!(prompt.contains("base prompt"));
    assert!(prompt.contains("Current working directory: /workspace/sparrow_agent"));
    assert!(prompt.contains(
        "Running Sparrow Agent executable path: /workspace/sparrow_agent/target/debug/sparrow_agent"
    ));
    assert!(prompt.contains("Do not invent or guess absolute paths."));
}

#[test]
fn approval_mode_round_trips_through_its_name() {
    for mode in [
        BashApprovalMode::AlwaysPrompt,
        BashApprovalMode::Smart,
        BashApprovalMode::NeverPrompt,
    ] {
        assert_eq!(BashApprovalMode::from_str(mode.as_str()), mode);
    }
}

#[test]
fn parses_numbers_and_booleans_like_std() {
    assert_eq!(parse_u64("42"), Some(42));
    assert_eq!(parse_u64("+7"), Some(7));
    assert_eq!(parse_u64(""), None);
    assert_eq!(parse_u64("4x"), None);
    assert_eq!(parse_u64("18446744073709551616"), None);
    assert_eq!(parse_bool("true"), Some(true));
    assert_eq!(parse_bool("false"), Some(false));
    assert_eq!(parse_bool("yes"), None);
}

#[test]
fn splits_lists_dropping_blank_entries() {
    assert_eq!(split_csv(" a, b ,,c "), vec!["a", "b", "c"]);
    assert_eq!(split_paths("/x: /y ::", ':'), vec!["/x", "/y"]);
}

#[test]
fn api_keys_come_from_the_environment_then_the_stored_file() {
    assert_eq!(resolve_key(Some("  env-key "), Some("stored")), Some("env-key".to_string()));
    assert_eq!(resolve_key(Some("   "), Some(" stored ")), Some("stored".to_string()));
    assert_eq!(resolve_key(None, Some("")), None);
    assert_eq!(resolve_key(None, None), None);
}

#[test]
fn bash_tool_is_enabled_unless_switched_off() {
    assert!(BashConfig::from_values(&BashEnvValues::default(), ':').enabled);
    let off = BashEnvValues { enabled: Some("false".into()), ..BashEnvValues::default() };
    assert!(!BashConfig::from_values(&off, ':').enabled);
    let on = BashEnvValues { enabled: Some("true".into()), ..BashEnvValues::default() };
    assert!(BashConfig::from_values(&on, ':').enabled);
    let odd = BashEnvValues { enabled: Some("maybe".into()), ..BashEnvValues::default() };
    assert!(BashConfig::from_values(&odd, ':').enabled);
    let defaults = BashConfig::from_values(&BashEnvValues::default(), ':');
    assert_eq!(defaults.roots, vec![".".to_string()]);
    assert_eq!(defaults.timeout_ms, 30_000);
    assert_eq!(defaults.max_timeout_ms, 120_000);
    assert_eq!(defaults.max_command_chars, 8_192);
    assert_eq!(defaults.stream_max_bytes, 8_192);
}
