//! The local tools: web search, Rust run as WebAssembly, and (when enabled)
//! bash.  Which tool a call is for, and what the bash tool is asked, are
//! decided here; running them is left to the caller.
use vstd::prelude::*;
use vstd::string::*;
use crate::api::{tool_def_views, FunctionDefModel, ToolDef, ToolDefModel};
use crate::bash_runner::BashCommandRequest;
use crate::config::BashConfig;
use crate::text::{append_chars, append_str, decimal, decimal_chars, str_chars, str_eq, string_from_chars};

verus! {

pub const WEB_SEARCH_TOOL: &'static str = "webSearch";

pub const RUN_RUST_WASM_TOOL: &'static str = "runRustWasm";

pub const RUN_BASH_COMMAND_TOOL: &'static str = "runBashCommand";

pub const WEB_SEARCH_DESCRIPTION: &'static str = "Search the web for information using Tavily.";

pub const WEB_SEARCH_PARAMETERS: &'static str = "{\"properties\":{\"query\":{\"description\":\"The search query.\",\"type\":\"string\"}},\"required\":[\"query\"],\"type\":\"object\"}";

pub const RUN_RUST_WASM_DESCRIPTION: &'static str = "Compile and execute Rust code as WebAssembly. The code must define `pub fn run() -> String`.";

pub const RUN_RUST_WASM_PARAMETERS: &'static str = "{\"properties\":{\"code\":{\"description\":\"Rust code that defines `pub fn run() -> String`.\",\"type\":\"string\"}},\"required\":[\"code\"],\"type\":\"object\"}";

pub const RUN_BASH_COMMAND_DESCRIPTION: &'static str = "Run one non-interactive bash command in an approved local CLI session. The command runs with a cleaned environment, bounded output, a timeout, and cwd validation against allowed roots.";

pub const RUN_BASH_PARAMETERS_HEAD: &'static str = "{\"additionalProperties\":false,\"properties\":{\"command\":{\"description\":\"The bash command to execute via a non-interactive bash shell.\",\"type\":\"string\"},\"cwd\":{\"description\":\"Working directory for the command. It must be inside one of the configured allowed roots.\",\"type\":[\"string\",\"null\"]},\"timeout_ms\":{\"description\":\"Optional command timeout in milliseconds. Values above the configured cap are clamped.\",\"maximum\":";

pub const RUN_BASH_PARAMETERS_TAIL: &'static str = ",\"minimum\":1,\"type\":[\"integer\",\"null\"]}},\"required\":[\"command\"],\"type\":\"object\"}";

pub open spec fn function_def(name: Seq<char>, description: Seq<char>, parameters: Seq<char>) -> ToolDefModel {
    ToolDefModel {
        kind: "function"@,
        function: FunctionDefModel { name, description, parameters: Some(parameters), strict: None },
    }
}

fn tool_with_parameters(name: &str, description: &str, parameters: String) -> (t: ToolDef)
    ensures
        t@ == function_def(name@, description@, parameters@),
{
    let mut tool = ToolDef::function(String::from_str(name), String::from_str(description));
    tool.function.parameters = Some(parameters);
    tool
}

pub fn web_search_tool() -> (t: ToolDef)
    ensures
        t@ == function_def(WEB_SEARCH_TOOL@, WEB_SEARCH_DESCRIPTION@, WEB_SEARCH_PARAMETERS@),
{
    tool_with_parameters(WEB_SEARCH_TOOL, WEB_SEARCH_DESCRIPTION, String::from_str(WEB_SEARCH_PARAMETERS))
}

pub fn run_rust_wasm_tool() -> (t: ToolDef)
    ensures
        t@ == function_def(RUN_RUST_WASM_TOOL@, RUN_RUST_WASM_DESCRIPTION@, RUN_RUST_WASM_PARAMETERS@),
{
    tool_with_parameters(
        RUN_RUST_WASM_TOOL,
        RUN_RUST_WASM_DESCRIPTION,
        String::from_str(RUN_RUST_WASM_PARAMETERS),
    )
}

/// The bash tool; its timeout is capped at the configured maximum.
pub fn run_bash_command_tool(config: &BashConfig) -> (t: ToolDef)
    ensures
        t@ == function_def(
            RUN_BASH_COMMAND_TOOL@,
            RUN_BASH_COMMAND_DESCRIPTION@,
            RUN_BASH_PARAMETERS_HEAD@ + decimal(config.max_timeout_ms as nat) + RUN_BASH_PARAMETERS_TAIL@,
        ),
{
    let mut v = str_chars(RUN_BASH_PARAMETERS_HEAD);
    append_chars(&mut v, decimal_chars(config.max_timeout_ms).as_slice());
    append_str(&mut v, RUN_BASH_PARAMETERS_TAIL);
    tool_with_parameters(RUN_BASH_COMMAND_TOOL, RUN_BASH_COMMAND_DESCRIPTION, string_from_chars(v.as_slice()))
}

/// Which local tool a call is for.
#[derive(Debug, Clone, Copy, PartialEq, Eq, Structural)]
pub enum LocalTool {
    WebSearch,
    RunRustWasm,
    RunBashCommand,
}

/// The decoded arguments of the bash tool.
#[derive(Debug, Clone)]
pub struct RunBashCommandArgs {
    pub command: String,
    pub cwd: Option<String>,
    pub timeout_ms: Option<u64>,
}

/// The local tools offered: web search and WebAssembly always, bash only
/// when it is enabled.
pub struct LocalToolProvider {
    pub tavily_api_key: String,
    pub bash_config: Option<BashConfig>,
    pub definitions: Vec<ToolDef>,
}

impl LocalToolProvider {
    pub fn new(tavily_api_key: String, bash_config: BashConfig) -> (p: Self)
        ensures
            p.tavily_api_key == tavily_api_key,
            bash_config.enabled ==> p.bash_config == Some(bash_config) && tool_def_views(p.definitions@) == seq![
                function_def(WEB_SEARCH_TOOL@, WEB_SEARCH_DESCRIPTION@, WEB_SEARCH_PARAMETERS@),
                function_def(RUN_RUST_WASM_TOOL@, RUN_RUST_WASM_DESCRIPTION@, RUN_RUST_WASM_PARAMETERS@),
                function_def(
                    RUN_BASH_COMMAND_TOOL@,
                    RUN_BASH_COMMAND_DESCRIPTION@,
                    RUN_BASH_PARAMETERS_HEAD@ + decimal(bash_config.max_timeout_ms as nat)
                        + RUN_BASH_PARAMETERS_TAIL@,
                ),
            ],
            !bash_config.enabled ==> p.bash_config is None && tool_def_views(p.definitions@) == seq![
                function_def(WEB_SEARCH_TOOL@, WEB_SEARCH_DESCRIPTION@, WEB_SEARCH_PARAMETERS@),
                function_def(RUN_RUST_WASM_TOOL@, RUN_RUST_WASM_DESCRIPTION@, RUN_RUST_WASM_PARAMETERS@),
            ],
    {
        let mut definitions: Vec<ToolDef> = Vec::new();
        definitions.push(web_search_tool());
        definitions.push(run_rust_wasm_tool());
        let bash = if bash_config.enabled {
            definitions.push(run_bash_command_tool(&bash_config));
            Some(bash_config)
        } else {
            None
        };
        proof {
            if bash is Some {
                assert(tool_def_views(definitions@) =~= seq![
                    definitions@[0]@,
                    definitions@[1]@,
                    definitions@[2]@,
                ]);
            } else {
                assert(tool_def_views(definitions@) =~= seq![definitions@[0]@, definitions@[1]@]);
            }
        }
        LocalToolProvider { tavily_api_key, bash_config: bash, definitions }
    }

    pub fn id(&self) -> (s: &'static str)
        ensures
            s@ == "local"@,
    {
        "local"
    }

    pub fn definitions(&self) -> (r: &[ToolDef])
        ensures
            r@ == self.definitions@,
    {
        self.definitions.as_slice()
    }

    /// The local tool a call is for; the bash tool only when it is enabled.
    pub fn route(&self, tool_name: &str) -> (r: Option<LocalTool>)
        ensures
            r == if tool_name@ == WEB_SEARCH_TOOL@ {
                Some(LocalTool::WebSearch)
            } else if tool_name@ == RUN_RUST_WASM_TOOL@ {
                Some(LocalTool::RunRustWasm)
            } else if tool_name@ == RUN_BASH_COMMAND_TOOL@ && self.bash_config is Some {
                Some(LocalTool::RunBashCommand)
            } else {
                None::<LocalTool>
            },
    {
        if str_eq(tool_name, WEB_SEARCH_TOOL) {
            Some(LocalTool::WebSearch)
        } else if str_eq(tool_name, RUN_RUST_WASM_TOOL) {
            Some(LocalTool::RunRustWasm)
        } else if str_eq(tool_name, RUN_BASH_COMMAND_TOOL) && self.bash_config.is_some() {
            Some(LocalTool::RunBashCommand)
        } else {
            None
        }
    }
}

/// The command request of a bash call.
pub fn bash_request(args: RunBashCommandArgs) -> (r: BashCommandRequest)
    ensures
        r.command == args.command,
        r.cwd == args.cwd,
        r.timeout_ms == args.timeout_ms,
{
    BashCommandRequest { command: args.command, cwd: args.cwd, timeout_ms: args.timeout_ms }
}

} // verus!
