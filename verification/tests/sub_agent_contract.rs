use sparrow_agent::config::{
    AppConfig, BashApprovalMode, BashConfig, ConfirmationPolicy, FilesystemConfig,
    FilesystemMode, StreamingConfig, SubAgentConfig, ToolResultConfig,
};
use sparrow_agent::sub_agent::{
    depends_on_parent_context, derive_child_config, run_outcome, summarize_for_parent,
    SubAgentCallStep, SubAgentCoordinator, SubAgentRequest, SubAgentToolProvider,
};

fn sub_agent_config() -> SubAgentConfig {
    SubAgentConfig {
        enabled: true,
        max_depth: 1,
        max_concurrent: 3,
        max_tool_rounds: 8,
        timeout_ms: 120_000,
        allowed_tools: vec![
            "webSearch".into(),
            "mcp__filesystem__read_file".into(),
            "mcp__filesystem__search_files".into(),
        ],
        inherit_filesystem: true,
        inherit_bash: false,
    }
}

fn app_config() -> AppConfig {
    AppConfig {
        api_key: "test".into(),
        tavily_api_key: "test".into(),
        model: "deepseek-chat".into(),
        system_prompt: "You are a parent test agent.".into(),
        reasoning_effort: "high".into(),
        max_tool_rounds: 100,
        filesystem: FilesystemConfig {
            enabled: false,
            roots: Vec::new(),
            mode: FilesystemMode::ReadOnly,
            confirm: ConfirmationPolicy::Never,
            deny_patterns: Vec::new(),
            max_read_bytes: 1,
            max_write_bytes: 1,
        },
        mcp_servers: Vec::new(),
        tool_results: ToolResultConfig {
            max_injected_chars: 20_000,
            output_dir: ".sparrow_agent/tool_outputs".into(),
        },
        streaming: StreamingConfig {
            enabled: true,
            show_reasoning: true,
            show_tool_call_deltas: false,
        },
        bash: BashConfig {
            enabled: true,
            roots: vec![".".into()],
            approval_mode: BashApprovalMode::NeverPrompt,
            approval_policy_path: "/tmp/policies.json".into(),
            approval_policy_ttl_days: 90,
            model_low_risk_threshold_permille: 850,
            timeout_ms: 30_000,
            max_timeout_ms: 120_000,
            max_command_chars: 8_192,
            stream_max_bytes: 8 * 1024,
            env_allowlist: vec!["PATH".into()],
        },
        sub_agent: sub_agent_config(),
    }
}

#[test]
fn coordinator_rejects_context_pack_that_depends_on_parent_conversation() {
    let coordinator = SubAgentCoordinator::new(sub_agent_config());
    let request = SubAgentRequest {
        task: "Summarize the local files listed in the context pack.".into(),
        context_pack: "Use the paths we discussed above.".into(),
        expected_output: "Return a concise findings list.".into(),
        allowed_tools: Vec::new(),
        max_tool_rounds: None,
    };

    let result = coordinator.check_eligibility(&request, 100).unwrap_err();

    assert_eq!(result.status, "rejected");
    assert!(result.reason.unwrap().contains("parent conversation"));
    assert_eq!(result.final_answer, "");
    assert!(result.child_task_id.is_none());
}

#[test]
fn coordinator_applies_tool_and_round_limits() {
    let coordinator = SubAgentCoordinator::new(sub_agent_config());
    let request = SubAgentRequest {
        task: "Search for the current release notes for the named library.".into(),
        context_pack: "Library: tokio. Only public release notes are needed.".into(),
        expected_output: "Return JSON with version and notable changes.".into(),
        allowed_tools: vec!["webSearch".into()],
        max_tool_rounds: Some(12),
    };

    let plan = coordinator.check_eligibility(&request, 10).unwrap();

    assert_eq!(plan.allowed_tools, vec!["webSearch"]);
    assert_eq!(plan.max_tool_rounds, 8);
    assert!(plan.child_task_id.starts_with("task_sub_"));
    assert!(plan.child_conversation_id.starts_with("conv_sub_"));
}

#[test]
fn coordinator_rejects_tools_outside_configured_allowlist() {
    let coordinator = SubAgentCoordinator::new(sub_agent_config());
    let request = SubAgentRequest {
        task: "Inspect the repository.".into(),
        context_pack: "Root: /tmp/project. Use only listed files.".into(),
        expected_output: "Return implementation notes.".into(),
        allowed_tools: vec!["runBashCommand".into()],
        max_tool_rounds: None,
    };

    let result = coordinator.check_eligibility(&request, 100).unwrap_err();

    assert_eq!(result.status, "rejected");
    assert!(result.reason.unwrap().contains("not allowed"));
}

#[test]
fn disabled_coordinator_rejects_everything() {
    let mut config = sub_agent_config();
    config.enabled = false;
    let coordinator = SubAgentCoordinator::new(config);
    let request = SubAgentRequest {
        task: "t".into(),
        context_pack: "c".into(),
        expected_output: "e".into(),
        allowed_tools: Vec::new(),
        max_tool_rounds: None,
    };
    let result = coordinator.check_eligibility(&request, 100).unwrap_err();
    assert_eq!(result.status, "rejected");
}

#[test]
fn empty_tool_list_inherits_configured_allowlist() {
    let coordinator = SubAgentCoordinator::new(sub_agent_config());
    let request = SubAgentRequest {
        task: "Read the files.".into(),
        context_pack: "Root: /tmp/project.".into(),
        expected_output: "Notes.".into(),
        allowed_tools: Vec::new(),
        max_tool_rounds: Some(3),
    };
    let plan = coordinator.check_eligibility(&request, 100).unwrap();
    assert_eq!(plan.allowed_tools, sub_agent_config().allowed_tools);
    assert_eq!(plan.max_tool_rounds, 3);
}

#[test]
fn child_config_turns_off_bash_and_limits_rounds() {
    let coordinator = SubAgentCoordinator::new(sub_agent_config());
    let request = SubAgentRequest {
        task: "Read.".into(),
        context_pack: "Root: /tmp/project.".into(),
        expected_output: "Notes.".into(),
        allowed_tools: vec!["webSearch".into()],
        max_tool_rounds: None,
    };
    let plan = coordinator.check_eligibility(&request, 100).unwrap();
    let child = derive_child_config(&app_config(), &plan);
    assert!(!child.bash.enabled);
    assert_eq!(child.max_tool_rounds, plan.max_tool_rounds);
    assert!(!child.sub_agent.enabled);
}

#[test]
fn parent_summary_and_dependency_detection() {
    assert_eq!(summarize_for_parent("  short answer "), "short answer");
    let long = "x".repeat(1_000);
    assert!(summarize_for_parent(&long).chars().count() <= 403);
    assert!(depends_on_parent_context("as we discussed above"));
    assert!(!depends_on_parent_context("Root: /tmp/project"));
}

#[test]
fn sub_agent_tool_definition_exposes_self_contained_task_schema() {
    let provider = SubAgentToolProvider::new(app_config());
    let definitions = provider.definitions();

    assert_eq!(definitions.len(), 1);
    let tool = &definitions[0];
    assert_eq!(tool.function.name, "runSubAgentTask");

    let parameters: serde_json::Value =
        serde_json::from_str(tool.function.parameters.as_ref().unwrap()).unwrap();
    assert_eq!(
        parameters["required"],
        serde_json::Value::from(vec!["task", "context_pack", "expected_output"])
    );
    assert_eq!(parameters["additionalProperties"], false);
    assert_eq!(parameters["properties"]["max_tool_rounds"]["maximum"], 20);
}

#[test]
fn provider_returns_structured_rejection_without_running_child_agent() {
    let provider = SubAgentToolProvider::new(app_config());

    let step = provider.plan_call(
        "runSubAgentTask",
        Some(SubAgentRequest {
            task: "Read the files.".into(),
            context_pack: "See above for the file list.".into(),
            expected_output: "Return findings.".into(),
            allowed_tools: Vec::new(),
            max_tool_rounds: None,
        }),
    );

    let result = match step {
        SubAgentCallStep::Answer(result) => result,
        other => panic!("expected a rejection, got {other:?}"),
    };
    assert_eq!(result.status, "rejected");
    assert_eq!(result.final_answer, "");
    assert_eq!(result.child_task_id, None);
}

#[test]
fn provider_plans_runs_and_reports_outcomes() {
    let provider = SubAgentToolProvider::new(app_config());
    assert!(matches!(provider.plan_call("webSearch", None), SubAgentCallStep::NotHandled));
    assert!(matches!(
        provider.plan_call("runSubAgentTask", None),
        SubAgentCallStep::InvalidArguments
    ));
    let plan = match provider.plan_call(
        "runSubAgentTask",
        Some(SubAgentRequest {
            task: "Read.".into(),
            context_pack: "Root: /tmp/project.".into(),
            expected_output: "Notes.".into(),
            allowed_tools: Vec::new(),
            max_tool_rounds: Some(2),
        }),
    ) {
        SubAgentCallStep::Run(plan) => plan,
        other => panic!("expected a run, got {other:?}"),
    };
    assert_eq!(plan.max_tool_rounds, 2);
    let timed_out = provider.timeout_result(plan.clone());
    assert_eq!(timed_out.status, "timeout");
    assert_eq!(timed_out.warnings, vec!["sub-agent task timed out after 120000 ms".to_string()]);
    let child = derive_child_config(&app_config(), &plan);
    let ok = run_outcome(plan.clone(), &child, Ok("the answer".into()));
    assert_eq!(ok.status, "succeeded");
    assert_eq!(ok.summary, "the answer");
    assert_eq!(ok.usage.rounds, Some(2));
    let failed = run_outcome(plan, &child, Err("boom".into()));
    assert_eq!(failed.status, "failed");
    assert_eq!(failed.warnings, vec!["boom".to_string()]);
}
