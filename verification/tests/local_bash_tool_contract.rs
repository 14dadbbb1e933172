use sparrow_agent::config::{
    AppConfig, BashApprovalMode, BashConfig, ConfirmationPolicy, FilesystemConfig,
    FilesystemMode, StreamingConfig, SubAgentConfig, ToolResultConfig,
};
use sparrow_agent::local_tools::{bash_request, LocalTool, LocalToolProvider, RunBashCommandArgs};
use sparrow_agent::server::ServerState;
use sparrow_agent::trace_store::TraceStore;

fn bash_config(enabled: bool) -> BashConfig {
    BashConfig {
        enabled,
        roots: vec!["/tmp/root".into()],
        approval_mode: BashApprovalMode::NeverPrompt,
        approval_policy_path: "/tmp/policies.json".into(),
        approval_policy_ttl_days: 90,
        model_low_risk_threshold_permille: 850,
        timeout_ms: 30_000,
        max_timeout_ms: 120_000,
        max_command_chars: 8_192,
        stream_max_bytes: 8 * 1024,
        env_allowlist: vec!["PATH".into()],
    }
}

fn test_app_config(bash: BashConfig) -> AppConfig {
    AppConfig {
        api_key: "test".into(),
        tavily_api_key: "test".into(),
        model: "deepseek-chat".into(),
        system_prompt: "You are a test agent.".into(),
        reasoning_effort: "high".into(),
        max_tool_rounds: 1,
        filesystem: FilesystemConfig {
            enabled: false,
            roots: Vec::new(),
            mode: FilesystemMode::ReadOnly,
            confirm: ConfirmationPolicy::Never,
            deny_patterns: Vec::new(),
            max_read_bytes: 1,
            max_write_bytes: 1,
        },
        mcp_servers: Vec::new(),
        tool_results: ToolResultConfig {
            max_injected_chars: 20_000,
            output_dir: ".sparrow_agent/tool_outputs".into(),
        },
        streaming: StreamingConfig {
            enabled: true,
            show_reasoning: true,
            show_tool_call_deltas: false,
        },
        bash,
        sub_agent: SubAgentConfig {
            enabled: false,
            max_depth: 0,
            max_concurrent: 1,
            max_tool_rounds: 1,
            timeout_ms: 1,
            allowed_tools: Vec::new(),
            inherit_filesystem: false,
            inherit_bash: false,
        },
    }
}

#[test]
fn local_provider_excludes_bash_tool_when_disabled() {
    let provider = LocalToolProvider::new("test".into(), bash_config(false));

    assert!(!provider
        .definitions()
        .iter()
        .any(|tool| tool.function.name == "runBashCommand"));
    assert_eq!(provider.route("runBashCommand"), None);
}

#[test]
fn local_provider_dispatches_bash_tool_when_enabled() {
    let provider = LocalToolProvider::new("test".into(), bash_config(true));

    assert!(provider
        .definitions()
        .iter()
        .any(|tool| tool.function.name == "runBashCommand"));
    assert_eq!(provider.route("runBashCommand"), Some(LocalTool::RunBashCommand));
    assert_eq!(provider.route("webSearch"), Some(LocalTool::WebSearch));
    assert_eq!(provider.route("other"), None);
    let schema: serde_json::Value =
        serde_json::from_str(provider.definitions()[2].function.parameters.as_ref().unwrap()).unwrap();
    assert_eq!(schema["properties"]["timeout_ms"]["maximum"], 120_000);
    assert_eq!(schema["additionalProperties"], false);
    let request = bash_request(RunBashCommandArgs {
        command: "printf 'ok'".into(),
        cwd: Some("/tmp/root".into()),
        timeout_ms: Some(5_000),
    });
    assert_eq!(request.command, "printf 'ok'");
    assert_eq!(request.timeout_ms, Some(5_000));
}

#[test]
fn server_state_disables_interactive_bash_tools() {
    let state = ServerState::new(test_app_config(bash_config(true)), TraceStore::new());

    assert!(!state.config.bash.enabled);
    assert!(state.trace_dir.is_none());
    let state = state.with_trace_dir("/tmp/traces".into());
    assert_eq!(state.trace_dir.as_deref(), Some("/tmp/traces"));
}
