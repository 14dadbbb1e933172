//! Sub-agents: self-contained tasks run by a child agent in an isolated
//! context.
//!
//! The coordinator decides whether a request may run, and under which
//! tools and round limit; running the child agent is done by the caller.
use vstd::prelude::*;
use vstd::string::*;
use crate::api::{FunctionDefModel, ToolDef, ToolDefModel};
use crate::config::{AppConfig, SubAgentConfig};
use crate::text::{
    append_chars, append_str, ascii_lower, decimal, decimal_chars, ascii_lower_vec, chars_contains_str, contains_sub, str_chars, str_eq,
    str_trim, string_from_chars, string_views, take_chars, take_chars_vec, trim, trim_vec,
};
use crate::trace::{is_trace_id, trace_id};

verus! {

pub const RUN_SUB_AGENT_TASK_TOOL: &'static str = "runSubAgentTask";

pub const SUB_AGENT_TOOL_MAX_ROUNDS_CAP: usize = 20;

pub const RUN_BASH_COMMAND_TOOL: &'static str = "runBashCommand";

pub const MAX_SUMMARY_CHARS: usize = 400;

/// A task handed to a sub-agent.
#[derive(Debug, Clone)]
pub struct SubAgentRequest {
    pub task: String,
    pub context_pack: String,
    pub expected_output: String,
    pub allowed_tools: Vec<String>,
    pub max_tool_rounds: Option<usize>,
}

/// What a sub-agent run may use.
#[derive(Debug, Clone)]
pub struct SubAgentRunPlan {
    pub task: String,
    pub context_pack: String,
    pub expected_output: String,
    pub allowed_tools: Vec<String>,
    pub max_tool_rounds: usize,
    pub child_task_id: String,
    pub child_conversation_id: String,
}

#[derive(Debug, Clone, Default, PartialEq, Eq)]
pub struct SubAgentUsage {
    pub model: Option<String>,
    pub rounds: Option<usize>,
}

/// The structured result that the parent agent receives.
#[derive(Debug, Clone, PartialEq, Eq)]
pub struct SubAgentResult {
    pub status: String,
    pub final_answer: String,
    pub summary: String,
    pub child_task_id: Option<String>,
    pub child_conversation_id: Option<String>,
    pub artifact_refs: Vec<String>,
    pub usage: SubAgentUsage,
    pub warnings: Vec<String>,
    pub reason: Option<String>,
}

/// A rejection: no child ran.
pub open spec fn is_rejection(r: SubAgentResult, reason: Seq<char>) -> bool {
    &&& r.status@ == "rejected"@
    &&& r.final_answer@ == Seq::<char>::empty()
    &&& r.summary@ == reason
    &&& r.child_task_id is None
    &&& r.child_conversation_id is None
    &&& r.artifact_refs@.len() == 0
    &&& r.usage.model is None
    &&& r.usage.rounds is None
    &&& r.warnings@.len() == 0
    &&& r.reason matches Some(x) && x@ == reason
}

/// The first `MAX_SUMMARY_CHARS` characters of the trimmed answer.
pub open spec fn spec_summarize_for_parent(answer: Seq<char>) -> Seq<char> {
    take_chars(trim(answer), MAX_SUMMARY_CHARS as nat)
}

pub fn summarize_for_parent(final_answer: &str) -> (s: String)
    ensures
        s@ == spec_summarize_for_parent(final_answer@),
{
    let t = trim_vec(str_chars(final_answer).as_slice());
    string_from_chars(take_chars_vec(t.as_slice(), MAX_SUMMARY_CHARS).as_slice())
}

impl SubAgentResult {
    pub fn rejected(reason: String) -> (r: Self)
        ensures
            is_rejection(r, reason@),
    {
        SubAgentResult {
            status: String::from_str("rejected"),
            final_answer: String::new(),
            summary: reason.clone(),
            child_task_id: None,
            child_conversation_id: None,
            artifact_refs: Vec::new(),
            usage: SubAgentUsage { model: None, rounds: None },
            warnings: Vec::new(),
            reason: Some(reason),
        }
    }

    pub fn failed(child_task_id: String, child_conversation_id: String, warning: String) -> (r: Self)
        ensures
            r.status@ == "failed"@,
            r.final_answer@ == Seq::<char>::empty(),
            r.summary@ == "sub-agent did not complete the task"@,
            r.child_task_id == Some(child_task_id),
            r.child_conversation_id == Some(child_conversation_id),
            r.artifact_refs@.len() == 0,
            r.usage.model is None && r.usage.rounds is None,
            r.warnings@ == seq![warning],
            r.reason is None,
    {
        let mut warnings: Vec<String> = Vec::new();
        warnings.push(warning);
        SubAgentResult {
            status: String::from_str("failed"),
            final_answer: String::new(),
            summary: String::from_str("sub-agent did not complete the task"),
            child_task_id: Some(child_task_id),
            child_conversation_id: Some(child_conversation_id),
            artifact_refs: Vec::new(),
            usage: SubAgentUsage { model: None, rounds: None },
            warnings,
            reason: None,
        }
    }

    pub fn succeeded(
        final_answer: String,
        child_task_id: String,
        child_conversation_id: String,
        model: String,
        rounds: usize,
    ) -> (r: Self)
        ensures
            r.status@ == "succeeded"@,
            r.final_answer == final_answer,
            r.summary@ == spec_summarize_for_parent(final_answer@),
            r.child_task_id == Some(child_task_id),
            r.child_conversation_id == Some(child_conversation_id),
            r.artifact_refs@.len() == 0,
            r.usage.model == Some(model) && r.usage.rounds == Some(rounds),
            r.warnings@.len() == 0,
            r.reason is None,
    {
        SubAgentResult {
            status: String::from_str("succeeded"),
            summary: summarize_for_parent(final_answer.as_str()),
            final_answer,
            child_task_id: Some(child_task_id),
            child_conversation_id: Some(child_conversation_id),
            artifact_refs: Vec::new(),
            usage: SubAgentUsage { model: Some(model), rounds: Some(rounds) },
            warnings: Vec::new(),
            reason: None,
        }
    }

    pub fn timeout(child_task_id: String, child_conversation_id: String, warning: String) -> (r: Self)
        ensures
            r.status@ == "timeout"@,
            r.final_answer@ == Seq::<char>::empty(),
            r.summary@ == "sub-agent timed out before completing the task"@,
            r.child_task_id == Some(child_task_id),
            r.child_conversation_id == Some(child_conversation_id),
            r.artifact_refs@.len() == 0,
            r.usage.model is None && r.usage.rounds is None,
            r.warnings@ == seq![warning],
            r.reason is None,
    {
        let mut warnings: Vec<String> = Vec::new();
        warnings.push(warning);
        SubAgentResult {
            status: String::from_str("timeout"),
            final_answer: String::new(),
            summary: String::from_str("sub-agent timed out before completing the task"),
            child_task_id: Some(child_task_id),
            child_conversation_id: Some(child_conversation_id),
            artifact_refs: Vec::new(),
            usage: SubAgentUsage { model: None, rounds: None },
            warnings,
            reason: None,
        }
    }
}

pub open spec fn parent_context_markers() -> Seq<Seq<char>> {
    seq![
        "see above"@,
        "as above"@,
        "as discussed"@,
        "we discussed"@,
        "previously discussed"@,
        "the previous context"@,
        "parent conversation"@,
        "见上文"@,
        "如上"@,
        "上文"@,
        "刚才"@,
        "之前讨论"@,
        "前面说"@,
    ]
}

/// The context pack refers to the parent conversation (in ASCII lower
/// case) instead of carrying its facts.
pub open spec fn spec_depends_on_parent_context(context_pack: Seq<char>) -> bool {
    exists|i: int|
        0 <= i < parent_context_markers().len() && contains_sub(
            ascii_lower(context_pack),
            #[trigger] parent_context_markers()[i],
        )
}

pub fn depends_on_parent_context(context_pack: &str) -> (b: bool)
    ensures
        b == spec_depends_on_parent_context(context_pack@),
{
    let lower = ascii_lower_vec(str_chars(context_pack).as_slice());
    let l = lower.as_slice();
    let ghost m = parent_context_markers();
    let r = chars_contains_str(l, "see above") || chars_contains_str(l, "as above")
        || chars_contains_str(l, "as discussed") || chars_contains_str(l, "we discussed")
        || chars_contains_str(l, "previously discussed") || chars_contains_str(
        l,
        "the previous context",
    ) || chars_contains_str(l, "parent conversation") || chars_contains_str(l, "见上文")
        || chars_contains_str(l, "如上") || chars_contains_str(l, "上文") || chars_contains_str(
        l,
        "刚才",
    ) || chars_contains_str(l, "之前讨论") || chars_contains_str(l, "前面说");
    proof {
        if r {
            if contains_sub(l@, m[0]) {
            } else if contains_sub(l@, m[1]) {
            } else if contains_sub(l@, m[2]) {
            } else if contains_sub(l@, m[3]) {
            } else if contains_sub(l@, m[4]) {
            } else if contains_sub(l@, m[5]) {
            } else if contains_sub(l@, m[6]) {
            } else if contains_sub(l@, m[7]) {
            } else if contains_sub(l@, m[8]) {
            } else if contains_sub(l@, m[9]) {
            } else if contains_sub(l@, m[10]) {
            } else if contains_sub(l@, m[11]) {
            } else {
                assert(contains_sub(l@, m[12]));
            }
        } else {
            assert forall|i: int| 0 <= i < m.len() implies !contains_sub(l@, #[trigger] m[i]) by {
                if i == 0 {
                } else if i == 1 {
                } else if i == 2 {
                } else if i == 3 {
                } else if i == 4 {
                } else if i == 5 {
                } else if i == 6 {
                } else if i == 7 {
                } else if i == 8 {
                } else if i == 9 {
                } else if i == 10 {
                } else if i == 11 {
                } else {
                }
            }
        }
    }
    r
}

pub open spec fn sub_agent_rules() -> Seq<char> {
    "You are a focused sub-agent running in an isolated message context. Complete only the task provided by the user message. Use only explicit facts from the task and context pack. Do not ask the parent agent for hidden context or rely on prior conversation. Return the final answer in the requested format."@
}

pub open spec fn spec_sub_agent_system_prompt(parent: Seq<char>) -> Seq<char> {
    trim(parent) + "\n\nSub-agent execution rules:\n"@ + sub_agent_rules()
}

/// The child's system prompt: the parent's, then the sub-agent rules.
pub fn sub_agent_system_prompt(parent_system_prompt: &str) -> (s: String)
    ensures
        s@ == spec_sub_agent_system_prompt(parent_system_prompt@),
{
    let mut v = trim_vec(str_chars(parent_system_prompt).as_slice());
    append_str(&mut v, "\n\nSub-agent execution rules:\n");
    append_str(
        &mut v,
        "You are a focused sub-agent running in an isolated message context. Complete only the task provided by the user message. Use only explicit facts from the task and context pack. Do not ask the parent agent for hidden context or rely on prior conversation. Return the final answer in the requested format.",
    );
    string_from_chars(v.as_slice())
}

pub open spec fn spec_sub_agent_user_prompt(r: SubAgentRequest) -> Seq<char> {
    "Task:\n"@ + trim(r.task@) + "\n\nContext pack:\n"@ + trim(r.context_pack@)
        + "\n\nExpected output:\n"@ + trim(r.expected_output@)
}

/// The child's user message: the task, the context pack and the expected
/// output, each trimmed.
pub fn sub_agent_user_prompt(request: &SubAgentRequest) -> (s: String)
    ensures
        s@ == spec_sub_agent_user_prompt(*request),
{
    let mut v = str_chars("Task:\n");
    append_str(&mut v, str_trim(request.task.as_str()).as_str());
    append_str(&mut v, "\n\nContext pack:\n");
    append_str(&mut v, str_trim(request.context_pack.as_str()).as_str());
    append_str(&mut v, "\n\nExpected output:\n");
    append_str(&mut v, str_trim(request.expected_output.as_str()).as_str());
    string_from_chars(v.as_slice())
}

/// The tools a request asks for: its own list, or the configured one when
/// it names none.
pub open spec fn requested_tools(config: SubAgentConfig, request: SubAgentRequest) -> Seq<Seq<char>> {
    if request.allowed_tools@.len() == 0 {
        string_views(config.allowed_tools@)
    } else {
        string_views(request.allowed_tools@)
    }
}

/// The tools of a plan: each requested tool once, in order of first
/// request; bash only when the configuration lets sub-agents inherit it,
/// and every tool from the configured list.
pub open spec fn spec_effective_tools(config: SubAgentConfig, tools: Seq<Seq<char>>) -> Result<
    Seq<Seq<char>>,
    Seq<char>,
>
    decreases tools.len(),
{
    if tools.len() == 0 {
        Ok(Seq::empty())
    } else {
        match spec_effective_tools(config, tools.drop_last()) {
            Err(e) => Err(e),
            Ok(done) => {
                let t = tools.last();
                if t == "runBashCommand"@ && !config.inherit_bash {
                    Err(
                        "requested tool '"@ + t
                            + "' is not allowed because sub-agents do not inherit bash"@,
                    )
                } else if !string_views(config.allowed_tools@).contains(t) {
                    Err("requested tool '"@ + t + "' is not allowed for sub-agents"@)
                } else if done.contains(t) {
                    Ok(done)
                } else {
                    Ok(done.push(t))
                }
            },
        }
    }
}

pub open spec fn max_usize(a: int, b: int) -> int {
    if a >= b {
        a
    } else {
        b
    }
}

pub open spec fn min_usize(a: int, b: int) -> int {
    if a <= b {
        a
    } else {
        b
    }
}

/// The round limit of a plan: the requested rounds (or the configured
/// ones), at least one, within the configured limit, the parent's limit
/// and the cap.
pub open spec fn spec_plan_rounds(config: SubAgentConfig, request: SubAgentRequest, parent: int) -> int {
    let requested = max_usize(
        match request.max_tool_rounds {
            Some(n) => n as int,
            None => config.max_tool_rounds as int,
        },
        1,
    );
    min_usize(
        min_usize(
            min_usize(requested, max_usize(config.max_tool_rounds as int, 1)),
            max_usize(parent, 1),
        ),
        SUB_AGENT_TOOL_MAX_ROUNDS_CAP as int,
    )
}

/// Why a request may not run, if it may not, in the order of the checks.
pub open spec fn spec_rejection(config: SubAgentConfig, request: SubAgentRequest) -> Option<Seq<char>> {
    if !config.enabled {
        Some("sub-agent execution is disabled"@)
    } else if config.max_depth == 0 {
        Some("sub-agent recursion depth limit has been reached"@)
    } else if trim(request.task@).len() == 0 {
        Some("task cannot be empty"@)
    } else if trim(request.context_pack@).len() == 0 {
        Some("context_pack cannot be empty"@)
    } else if trim(request.expected_output@).len() == 0 {
        Some("expected_output cannot be empty"@)
    } else if spec_depends_on_parent_context(request.context_pack@) {
        Some("context_pack depends on the parent conversation instead of explicit facts"@)
    } else {
        match spec_effective_tools(config, requested_tools(config, request)) {
            Err(e) => Some(e),
            Ok(_) => None,
        }
    }
}

fn strings_contain(v: &Vec<String>, s: &String) -> (b: bool)
    ensures
        b == string_views(v@).contains(s@),
{
    let mut i: usize = 0;
    while i < v.len()
        invariant
            i <= v@.len(),
            forall|k: int| 0 <= k < i ==> v@[k]@ != s@,
        decreases v.len() - i,
    {
        if str_eq(v[i].as_str(), s.as_str()) {
            assert(string_views(v@)[i as int] == s@);
            return true;
        }
        i = i + 1;
    }
    assert forall|k: int| 0 <= k < string_views(v@).len() implies string_views(v@)[k] != s@ by {
        assert(string_views(v@)[k] == v@[k]@);
    }
    false
}

fn clone_strings(v: &Vec<String>) -> (r: Vec<String>)
    ensures
        string_views(r@) == string_views(v@),
{
    let mut r: Vec<String> = Vec::new();
    let mut i: usize = 0;
    while i < v.len()
        invariant
            i <= v@.len(),
            r@.len() == i,
            forall|k: int| 0 <= k < i ==> #[trigger] r@[k]@ == v@[k]@,
        decreases v.len() - i,
    {
        r.push(v[i].clone());
        i = i + 1;
    }
    assert(string_views(r@) =~= string_views(v@));
    r
}

pub struct SubAgentCoordinator {
    pub config: SubAgentConfig,
}

impl SubAgentCoordinator {
    pub fn new(config: SubAgentConfig) -> (c: Self)
        ensures
            c.config == config,
    {
        SubAgentCoordinator { config }
    }

    fn effective_allowed_tools(&self, request: &SubAgentRequest) -> (r: Result<
        Vec<String>,
        SubAgentResult,
    >)
        ensures
            match spec_effective_tools(self.config, requested_tools(self.config, *request)) {
                Ok(t) => r matches Ok(v) && string_views(v@) == t,
                Err(e) => r matches Err(x) && is_rejection(x, e),
            },
    {
        let requested = if request.allowed_tools.len() == 0 {
            clone_strings(&self.config.allowed_tools)
        } else {
            clone_strings(&request.allowed_tools)
        };
        let ghost tools = requested_tools(self.config, *request);
        let mut effective: Vec<String> = Vec::new();
        let mut i: usize = 0;
        assert(tools.take(0) =~= Seq::<Seq<char>>::empty());
        assert(string_views(effective@) =~= Seq::<Seq<char>>::empty());
        while i < requested.len()
            invariant
                i <= requested@.len(),
                string_views(requested@) == tools,
                tools == requested_tools(self.config, *request),
                spec_effective_tools(self.config, tools.take(i as int)) == Ok::<
                    Seq<Seq<char>>,
                    Seq<char>,
                >(string_views(effective@)),
            decreases requested.len() - i,
        {
            let tool = &requested[i];
            proof {
                assert(tools.take(i + 1).drop_last() =~= tools.take(i as int));
                assert(tools.take(i + 1).last() == tool@);
            }
            if str_eq(tool.as_str(), RUN_BASH_COMMAND_TOOL) && !self.config.inherit_bash {
                let mut m = str_chars("requested tool '");
                append_str(&mut m, tool.as_str());
                append_str(&mut m, "' is not allowed because sub-agents do not inherit bash");
                proof {
                    lemma_effective_err(self.config, tools, i + 1);
                }
                return Err(SubAgentResult::rejected(string_from_chars(m.as_slice())));
            }
            if !strings_contain(&self.config.allowed_tools, tool) {
                let mut m = str_chars("requested tool '");
                append_str(&mut m, tool.as_str());
                append_str(&mut m, "' is not allowed for sub-agents");
                proof {
                    lemma_effective_err(self.config, tools, i + 1);
                }
                return Err(SubAgentResult::rejected(string_from_chars(m.as_slice())));
            }
            if !strings_contain(&effective, tool) {
                let ghost before = string_views(effective@);
                effective.push(tool.clone());
                assert(string_views(effective@) =~= before.push(tool@));
            }
            i = i + 1;
        }
        assert(tools.take(requested@.len() as int) =~= tools);
        Ok(effective)
    }

    /// Checks a request against the configuration.  A request that may run
    /// gets a plan with fresh child ids; any other gets a rejection that
    /// says why.
    pub fn check_eligibility(&self, request: &SubAgentRequest, parent_max_tool_rounds: usize) -> (r:
        Result<SubAgentRunPlan, SubAgentResult>)
        ensures
            match spec_rejection(self.config, *request) {
                Some(reason) => r matches Err(x) && is_rejection(x, reason),
                None => r matches Ok(plan) && {
                    &&& plan.task == request.task
                    &&& plan.context_pack == request.context_pack
                    &&& plan.expected_output == request.expected_output
                    &&& spec_effective_tools(self.config, requested_tools(self.config, *request))
                        == Ok::<Seq<Seq<char>>, Seq<char>>(string_views(plan.allowed_tools@))
                    &&& plan.max_tool_rounds == spec_plan_rounds(
                        self.config,
                        *request,
                        parent_max_tool_rounds as int,
                    )
                    &&& 1 <= plan.max_tool_rounds
                    &&& (plan.max_tool_rounds <= parent_max_tool_rounds || plan.max_tool_rounds == 1)
                    &&& (plan.max_tool_rounds <= self.config.max_tool_rounds || plan.max_tool_rounds == 1)
                    &&& plan.max_tool_rounds <= SUB_AGENT_TOOL_MAX_ROUNDS_CAP
                    &&& is_trace_id(plan.child_task_id@, "task_sub"@)
                    &&& is_trace_id(plan.child_conversation_id@, "conv_sub"@)
                },
            },
    {
        if !self.config.enabled {
            return Err(SubAgentResult::rejected(String::from_str("sub-agent execution is disabled")));
        }
        if self.config.max_depth == 0 {
            return Err(
                SubAgentResult::rejected(
                    String::from_str("sub-agent recursion depth limit has been reached"),
                ),
            );
        }
        if str_trim(request.task.as_str()).as_str().is_empty() {
            return Err(SubAgentResult::rejected(String::from_str("task cannot be empty")));
        }
        if str_trim(request.context_pack.as_str()).as_str().is_empty() {
            return Err(SubAgentResult::rejected(String::from_str("context_pack cannot be empty")));
        }
        if str_trim(request.expected_output.as_str()).as_str().is_empty() {
            return Err(SubAgentResult::rejected(String::from_str("expected_output cannot be empty")));
        }
        if depends_on_parent_context(request.context_pack.as_str()) {
            return Err(
                SubAgentResult::rejected(
                    String::from_str(
                        "context_pack depends on the parent conversation instead of explicit facts",
                    ),
                ),
            );
        }
        let allowed_tools = match self.effective_allowed_tools(request) {
            Ok(t) => t,
            Err(x) => {
                return Err(x);
            },
        };
        let asked = match request.max_tool_rounds {
            Some(n) => n,
            None => self.config.max_tool_rounds,
        };
        let requested_rounds = if asked >= 1 {
            asked
        } else {
            1
        };
        let configured = if self.config.max_tool_rounds >= 1 {
            self.config.max_tool_rounds
        } else {
            1
        };
        let parent = if parent_max_tool_rounds >= 1 {
            parent_max_tool_rounds
        } else {
            1
        };
        let mut rounds = if requested_rounds <= configured {
            requested_rounds
        } else {
            configured
        };
        rounds = if rounds <= parent {
            rounds
        } else {
            parent
        };
        rounds = if rounds <= SUB_AGENT_TOOL_MAX_ROUNDS_CAP {
            rounds
        } else {
            SUB_AGENT_TOOL_MAX_ROUNDS_CAP
        };
        Ok(
            SubAgentRunPlan {
                task: request.task.clone(),
                context_pack: request.context_pack.clone(),
                expected_output: request.expected_output.clone(),
                allowed_tools,
                max_tool_rounds: rounds,
                child_task_id: trace_id("task_sub"),
                child_conversation_id: trace_id("conv_sub"),
            },
        )
    }
}

proof fn lemma_effective_err(config: SubAgentConfig, tools: Seq<Seq<char>>, n: int)
    requires
        0 < n <= tools.len(),
        spec_effective_tools(config, tools.take(n)) is Err,
    ensures
        spec_effective_tools(config, tools) == spec_effective_tools(config, tools.take(n)),
    decreases tools.len() - n,
{
    if n == tools.len() {
        assert(tools.take(n) =~= tools);
    } else {
        assert(tools.take(n + 1).drop_last() =~= tools.take(n));
        lemma_effective_err(config, tools, n + 1);
    }
}

/// The configuration of a child agent: one level of depth less (no further
/// sub-agents at the last level), the plan's round limit, the filesystem
/// and MCP servers only when inherited, and bash only when the parent has
/// it and lets sub-agents inherit it.
pub fn derive_child_config(parent: &AppConfig, plan: &SubAgentRunPlan) -> (c: AppConfig)
    ensures
        c.max_tool_rounds == plan.max_tool_rounds,
        c.sub_agent.max_depth == if parent.sub_agent.max_depth > 0 {
            parent.sub_agent.max_depth - 1
        } else {
            0
        },
        c.sub_agent.enabled == (parent.sub_agent.enabled && c.sub_agent.max_depth > 0),
        c.filesystem.enabled == (parent.filesystem.enabled && parent.sub_agent.inherit_filesystem),
        c.mcp_servers@.len() == parent.mcp_servers@.len(),
        forall|k: int|
            0 <= k < c.mcp_servers@.len() ==> (#[trigger] c.mcp_servers@[k]).enabled == (
            parent.mcp_servers@[k].enabled && parent.sub_agent.inherit_filesystem),
        c.bash.enabled == (parent.bash.enabled && parent.sub_agent.inherit_bash),
        c.model == parent.model,
        c.system_prompt == parent.system_prompt,
{
    let mut config = AppConfig {
        api_key: parent.api_key.clone(),
        tavily_api_key: parent.tavily_api_key.clone(),
        model: parent.model.clone(),
        system_prompt: parent.system_prompt.clone(),
        reasoning_effort: parent.reasoning_effort.clone(),
        max_tool_rounds: plan.max_tool_rounds,
        filesystem: crate::config::FilesystemConfig {
            enabled: parent.filesystem.enabled,
            roots: clone_strings(&parent.filesystem.roots),
            mode: parent.filesystem.mode,
            confirm: parent.filesystem.confirm,
            deny_patterns: clone_strings(&parent.filesystem.deny_patterns),
            max_read_bytes: parent.filesystem.max_read_bytes,
            max_write_bytes: parent.filesystem.max_write_bytes,
        },
        mcp_servers: Vec::new(),
        tool_results: crate::config::ToolResultConfig {
            max_injected_chars: parent.tool_results.max_injected_chars,
            output_dir: parent.tool_results.output_dir.clone(),
        },
        streaming: crate::config::StreamingConfig {
            enabled: parent.streaming.enabled,
            show_reasoning: parent.streaming.show_reasoning,
            show_tool_call_deltas: parent.streaming.show_tool_call_deltas,
        },
        bash: crate::config::BashConfig {
            enabled: parent.bash.enabled && parent.sub_agent.inherit_bash,
            roots: clone_strings(&parent.bash.roots),
            approval_mode: parent.bash.approval_mode,
            approval_policy_path: parent.bash.approval_policy_path.clone(),
            approval_policy_ttl_days: parent.bash.approval_policy_ttl_days,
            model_low_risk_threshold_permille: parent.bash.model_low_risk_threshold_permille,
            timeout_ms: parent.bash.timeout_ms,
            max_timeout_ms: parent.bash.max_timeout_ms,
            max_command_chars: parent.bash.max_command_chars,
            stream_max_bytes: parent.bash.stream_max_bytes,
            env_allowlist: clone_strings(&parent.bash.env_allowlist),
        },
        sub_agent: SubAgentConfig {
            enabled: parent.sub_agent.enabled,
            max_depth: if parent.sub_agent.max_depth > 0 {
                parent.sub_agent.max_depth - 1
            } else {
                0
            },
            max_concurrent: parent.sub_agent.max_concurrent,
            max_tool_rounds: parent.sub_agent.max_tool_rounds,
            timeout_ms: parent.sub_agent.timeout_ms,
            allowed_tools: clone_strings(&parent.sub_agent.allowed_tools),
            inherit_filesystem: parent.sub_agent.inherit_filesystem,
            inherit_bash: parent.sub_agent.inherit_bash,
        },
    };
    config.sub_agent.enabled = config.sub_agent.enabled && config.sub_agent.max_depth > 0;
    config.filesystem.enabled = parent.filesystem.enabled && parent.sub_agent.inherit_filesystem;
    let mut i: usize = 0;
    while i < parent.mcp_servers.len()
        invariant
            i <= parent.mcp_servers@.len(),
            config.mcp_servers@.len() == i,
            forall|k: int|
                0 <= k < i ==> (#[trigger] config.mcp_servers@[k]).enabled == (
                parent.mcp_servers@[k].enabled && parent.sub_agent.inherit_filesystem),
            config.max_tool_rounds == plan.max_tool_rounds,
            config.sub_agent.max_depth == if parent.sub_agent.max_depth > 0 {
                parent.sub_agent.max_depth - 1
            } else {
                0
            },
            config.sub_agent.enabled == (parent.sub_agent.enabled && config.sub_agent.max_depth > 0),
            config.filesystem.enabled == (parent.filesystem.enabled
                && parent.sub_agent.inherit_filesystem),
            config.bash.enabled == (parent.bash.enabled && parent.sub_agent.inherit_bash),
            config.model == parent.model,
            config.system_prompt == parent.system_prompt,
        decreases parent.mcp_servers.len() - i,
    {
        let s = &parent.mcp_servers[i];
        config.mcp_servers.push(
            crate::config::McpServerConfig {
                id: s.id.clone(),
                command: s.command.clone(),
                args: clone_strings(&s.args),
                enabled: s.enabled && parent.sub_agent.inherit_filesystem,
            },
        );
        i = i + 1;
    }
    config
}


pub const RUN_SUB_AGENT_TASK_DESCRIPTION: &'static str = "Run a self-contained sub-agent task in an isolated message context. Use this only when the task can be completed independently from the current conversation after the required context is provided explicitly. The parent agent receives only the final structured result.";

pub const RUN_SUB_AGENT_TASK_PARAMETERS: &'static str = "{\"additionalProperties\":false,\"properties\":{\"allowed_tools\":{\"description\":\"Optional narrow list of tools the sub-agent may use. Empty means use the configured sub-agent default.\",\"items\":{\"type\":\"string\"},\"type\":\"array\"},\"context_pack\":{\"description\":\"Only the facts, file paths, constraints, and acceptance criteria required to complete the task.\",\"type\":\"string\"},\"expected_output\":{\"description\":\"The required result format, for example summary, JSON, findings list, implementation notes, or artifact references.\",\"type\":\"string\"},\"max_tool_rounds\":{\"description\":\"Optional stricter maximum tool rounds for this subtask.\",\"maximum\":20,\"minimum\":1,\"type\":[\"integer\",\"null\"]},\"task\":{\"description\":\"The exact self-contained task for the sub-agent.\",\"type\":\"string\"}},\"required\":[\"task\",\"context_pack\",\"expected_output\"],\"type\":\"object\"}";

/// The `runSubAgentTask` tool, with its parameter schema.
pub fn run_sub_agent_task_tool() -> (t: ToolDef)
    ensures
        t@ == (ToolDefModel {
            kind: "function"@,
            function: FunctionDefModel {
                name: RUN_SUB_AGENT_TASK_TOOL@,
                description: RUN_SUB_AGENT_TASK_DESCRIPTION@,
                parameters: Some(RUN_SUB_AGENT_TASK_PARAMETERS@),
                strict: None,
            },
        }),
{
    let mut tool = ToolDef::function(
        String::from_str(RUN_SUB_AGENT_TASK_TOOL),
        String::from_str(RUN_SUB_AGENT_TASK_DESCRIPTION),
    );
    tool.function.parameters = Some(String::from_str(RUN_SUB_AGENT_TASK_PARAMETERS));
    tool
}

/// Two sub-agent configurations that hold the same settings.
pub open spec fn same_sub_agent_config(a: SubAgentConfig, b: SubAgentConfig) -> bool {
    &&& a.enabled == b.enabled
    &&& a.max_depth == b.max_depth
    &&& a.max_concurrent == b.max_concurrent
    &&& a.max_tool_rounds == b.max_tool_rounds
    &&& a.timeout_ms == b.timeout_ms
    &&& string_views(a.allowed_tools@) == string_views(b.allowed_tools@)
    &&& a.inherit_filesystem == b.inherit_filesystem
    &&& a.inherit_bash == b.inherit_bash
}

fn clone_sub_agent_config(c: &SubAgentConfig) -> (r: SubAgentConfig)
    ensures
        same_sub_agent_config(r, *c),
{
    SubAgentConfig {
        enabled: c.enabled,
        max_depth: c.max_depth,
        max_concurrent: c.max_concurrent,
        max_tool_rounds: c.max_tool_rounds,
        timeout_ms: c.timeout_ms,
        allowed_tools: clone_strings(&c.allowed_tools),
        inherit_filesystem: c.inherit_filesystem,
        inherit_bash: c.inherit_bash,
    }
}

/// What the provider does with one call.
#[derive(Debug)]
pub enum SubAgentCallStep {
    /// The call is for another tool.
    NotHandled,
    /// The arguments were not a task request.
    InvalidArguments,
    /// The request was refused; this result is the answer.
    Answer(SubAgentResult),
    /// The child is to run under this plan, within the time limit.
    Run(SubAgentRunPlan),
}

/// The `runSubAgentTask` tool: checks each call against the configuration;
/// running the child, limiting concurrency and the time limit are left to
/// the caller.
pub struct SubAgentToolProvider {
    pub config: AppConfig,
    pub coordinator: SubAgentCoordinator,
    pub definitions: Vec<ToolDef>,
    pub max_concurrent: usize,
}

impl SubAgentToolProvider {
    pub fn new(config: AppConfig) -> (p: Self)
        ensures
            p.config == config,
            same_sub_agent_config(p.coordinator.config, config.sub_agent),
            p.definitions@.len() == 1,
            p.definitions@[0]@.function.name == RUN_SUB_AGENT_TASK_TOOL@,
            p.max_concurrent == if config.sub_agent.max_concurrent >= 1 {
                config.sub_agent.max_concurrent
            } else {
                1
            },
    {
        let max_concurrent = if config.sub_agent.max_concurrent >= 1 {
            config.sub_agent.max_concurrent
        } else {
            1
        };
        let mut definitions: Vec<ToolDef> = Vec::new();
        definitions.push(run_sub_agent_task_tool());
        SubAgentToolProvider {
            coordinator: SubAgentCoordinator::new(clone_sub_agent_config(&config.sub_agent)),
            definitions,
            max_concurrent,
            config,
        }
    }

    pub fn id(&self) -> (s: &'static str)
        ensures
            s@ == "sub-agent"@,
    {
        "sub-agent"
    }

    pub fn definitions(&self) -> (r: &[ToolDef])
        ensures
            r@ == self.definitions@,
    {
        self.definitions.as_slice()
    }

    /// Decides on one call to `tool_name` with its decoded arguments (`None`
    /// when they were not a task request).
    pub fn plan_call(&self, tool_name: &str, request: Option<SubAgentRequest>) -> (s: SubAgentCallStep)
        ensures
            tool_name@ != RUN_SUB_AGENT_TASK_TOOL@ ==> s is NotHandled,
            tool_name@ == RUN_SUB_AGENT_TASK_TOOL@ ==> match request {
                None => s is InvalidArguments,
                Some(req) => match spec_rejection(self.coordinator.config, req) {
                    Some(reason) => s matches SubAgentCallStep::Answer(x) && is_rejection(x, reason),
                    None => s matches SubAgentCallStep::Run(plan) && plan.task == req.task
                        && plan.max_tool_rounds == spec_plan_rounds(
                        self.coordinator.config,
                        req,
                        self.config.max_tool_rounds as int,
                    ),
                },
            },
    {
        if !str_eq(tool_name, RUN_SUB_AGENT_TASK_TOOL) {
            return SubAgentCallStep::NotHandled;
        }
        match request {
            None => SubAgentCallStep::InvalidArguments,
            Some(req) => match self.coordinator.check_eligibility(&req, self.config.max_tool_rounds) {
                Ok(plan) => SubAgentCallStep::Run(plan),
                Err(result) => SubAgentCallStep::Answer(result),
            },
        }
    }

    /// The answer when the child ran out of time.
    pub fn timeout_result(&self, plan: SubAgentRunPlan) -> (r: SubAgentResult)
        ensures
            r.status@ == "timeout"@,
            r.child_task_id == Some(plan.child_task_id),
            r.child_conversation_id == Some(plan.child_conversation_id),
            r.warnings@.len() == 1,
            r.warnings@[0]@ == "sub-agent task timed out after "@ + decimal(
                self.config.sub_agent.timeout_ms as nat,
            ) + " ms"@,
    {
        let mut w = str_chars("sub-agent task timed out after ");
        append_chars(&mut w, decimal_chars(self.config.sub_agent.timeout_ms).as_slice());
        append_str(&mut w, " ms");
        SubAgentResult::timeout(plan.child_task_id, plan.child_conversation_id, string_from_chars(w.as_slice()))
    }
}

/// The answer of a child run: its final answer, or the error that stopped
/// it.
pub fn run_outcome(plan: SubAgentRunPlan, child: &AppConfig, outcome: Result<String, String>) -> (r:
    SubAgentResult)
    ensures
        match outcome {
            Ok(answer) => r.status@ == "succeeded"@ && r.final_answer == answer && r.usage.model
                == Some(child.model) && r.usage.rounds == Some(child.max_tool_rounds),
            Err(e) => r.status@ == "failed"@ && r.warnings@ == seq![e],
        },
        r.child_task_id == Some(plan.child_task_id),
        r.child_conversation_id == Some(plan.child_conversation_id),
{
    match outcome {
        Ok(answer) => SubAgentResult::succeeded(
            answer,
            plan.child_task_id,
            plan.child_conversation_id,
            child.model.clone(),
            child.max_tool_rounds,
        ),
        Err(e) => SubAgentResult::failed(plan.child_task_id, plan.child_conversation_id, e),
    }
}

/// A sub-agent never gets more tool rounds than its parent may use (at
/// least one), than the configuration allows (at least one), than it asked
/// for (at least one), or than the cap; it gets the least of these, and at
/// least one round.
pub proof fn lemma_plan_rounds_within_limits(config: SubAgentConfig, request: SubAgentRequest, parent: int)
    ensures
        ({
            let r = spec_plan_rounds(config, request, parent);
            let asked = match request.max_tool_rounds {
                Some(n) => n as int,
                None => config.max_tool_rounds as int,
            };
            &&& 1 <= r
            &&& r <= parent || r == 1
            &&& r <= config.max_tool_rounds || r == 1
            &&& r <= asked || r == 1
            &&& r <= SUB_AGENT_TOOL_MAX_ROUNDS_CAP
            &&& (r == parent || r == config.max_tool_rounds || r == asked || r == 1 || r
                == SUB_AGENT_TOOL_MAX_ROUNDS_CAP)
        }),
{
}

} // verus!
