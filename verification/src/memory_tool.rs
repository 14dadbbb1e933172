//! The `updateMemory` tool: the model's requests to change the working
//! memory, queued until the next step.
use vstd::prelude::*;
use vstd::string::*;
use crate::api::{ToolDef, ToolDefModel, FunctionDefModel};
use crate::context::memory::{MemoryDelta, MemoryScope};
use crate::text::{append_str, str_chars, str_eq, string_from_chars};

verus! {

pub const UPDATE_MEMORY_TOOL: &'static str = "updateMemory";

pub const UPDATE_MEMORY_DESCRIPTION: &'static str = "Persist a durable fact, decision, or open question for the ongoing task. Use sparingly for things that must survive conversation compaction. Each call performs exactly one operation.";

pub const UPDATE_MEMORY_PARAMETERS: &'static str = "{\"type\":\"object\",\"properties\":{\"operation\":{\"type\":\"string\",\"enum\":[\"set_goal\",\"add_fact\",\"add_decision\",\"add_question\",\"resolve_question\",\"remove_fact\",\"clear\"],\"description\":\"The memory operation to perform.\"},\"content\":{\"type\":\"string\",\"description\":\"Text to store, for add_fact / add_decision / add_question.\"},\"goal\":{\"type\":\"string\",\"description\":\"The task goal, for set_goal. An empty string clears the goal.\"},\"needle\":{\"type\":\"string\",\"description\":\"Case-insensitive substring; the first matching item is removed, for resolve_question / remove_fact.\"},\"scope\":{\"type\":\"string\",\"enum\":[\"all\",\"facts\",\"decisions\",\"open_questions\"],\"description\":\"What to clear, for clear. Defaults to all.\"}},\"required\":[\"operation\"]}";

/// The pending memory operations, drained before each model request.
pub type MemoryBuffer = Vec<MemoryDelta>;

pub fn new_memory_buffer() -> (b: MemoryBuffer)
    ensures
        b@.len() == 0,
{
    Vec::new()
}

/// The arguments of one call, as decoded from its JSON.
#[derive(Debug, Clone)]
pub struct UpdateMemoryArgs {
    pub operation: String,
    pub content: Option<String>,
    pub goal: Option<String>,
    pub needle: Option<String>,
    pub scope: Option<String>,
}

#[derive(Debug, Clone, PartialEq, Eq)]
pub enum MemoryToolError {
    InvalidArguments,
    UnknownOperation { operation: String },
}

impl MemoryToolError {
    pub fn describe(&self) -> (s: String)
        ensures
            s@ == match *self {
                MemoryToolError::InvalidArguments => "invalid arguments for updateMemory"@,
                MemoryToolError::UnknownOperation { operation } => "unknown operation '"@
                    + operation@ + "' for updateMemory"@,
            },
    {
        match self {
            MemoryToolError::InvalidArguments => String::from_str("invalid arguments for updateMemory"),
            MemoryToolError::UnknownOperation { operation } => {
                let mut v = str_chars("unknown operation '");
                append_str(&mut v, operation.as_str());
                append_str(&mut v, "' for updateMemory");
                string_from_chars(v.as_slice())
            },
        }
    }
}

pub struct ParsedUpdate {
    pub delta: MemoryDelta,
    pub operation_label: &'static str,
}

pub open spec fn text_or_empty(o: Option<String>) -> Seq<char> {
    match o {
        Some(s) => s@,
        None => Seq::empty(),
    }
}

/// `facts`, `decisions` and `open_questions` name their scope; anything
/// else, or nothing, means all of memory.
pub open spec fn spec_scope(scope: Option<Seq<char>>) -> MemoryScope {
    match scope {
        Some(s) => if s == "facts"@ {
            MemoryScope::Facts
        } else if s == "decisions"@ {
            MemoryScope::Decisions
        } else if s == "open_questions"@ {
            MemoryScope::OpenQuestions
        } else {
            MemoryScope::All
        },
        None => MemoryScope::All,
    }
}

pub fn parse_scope(scope: Option<&str>) -> (s: MemoryScope)
    ensures
        s == spec_scope(match scope {
            Some(t) => Some(t@),
            None => None,
        }),
{
    match scope {
        Some(s) => if str_eq(s, "facts") {
            MemoryScope::Facts
        } else if str_eq(s, "decisions") {
            MemoryScope::Decisions
        } else if str_eq(s, "open_questions") {
            MemoryScope::OpenQuestions
        } else {
            MemoryScope::All
        },
        None => MemoryScope::All,
    }
}

/// The change that a call asks for: the operation names the kind of change,
/// and a missing text is empty.
pub open spec fn delta_matches(args: UpdateMemoryArgs, delta: MemoryDelta) -> bool {
    let op = args.operation@;
    if op == "set_goal"@ {
        delta matches MemoryDelta::SetGoal { goal } && goal@ == text_or_empty(args.goal)
    } else if op == "add_fact"@ {
        delta matches MemoryDelta::AddFact { content } && content@ == text_or_empty(args.content)
    } else if op == "add_decision"@ {
        delta matches MemoryDelta::AddDecision { content } && content@ == text_or_empty(
            args.content,
        )
    } else if op == "add_question"@ {
        delta matches MemoryDelta::AddQuestion { content } && content@ == text_or_empty(
            args.content,
        )
    } else if op == "resolve_question"@ {
        delta matches MemoryDelta::ResolveQuestion { needle } && needle@ == text_or_empty(
            args.needle,
        )
    } else if op == "remove_fact"@ {
        delta matches MemoryDelta::RemoveFact { needle } && needle@ == text_or_empty(args.needle)
    } else {
        op == "clear"@ && delta == MemoryDelta::Clear {
            scope: spec_scope(crate::api::opt_text(args.scope)),
        }
    }
}

/// A parsed call: labelled with its operation, asking for its change.
pub open spec fn update_matches(args: UpdateMemoryArgs, p: ParsedUpdate) -> bool {
    p.operation_label@ == args.operation@ && delta_matches(args, p.delta)
}

pub open spec fn is_known_operation(op: Seq<char>) -> bool {
    ||| op == "set_goal"@
    ||| op == "add_fact"@
    ||| op == "add_decision"@
    ||| op == "add_question"@
    ||| op == "resolve_question"@
    ||| op == "remove_fact"@
    ||| op == "clear"@
}

fn text_or_default(o: Option<String>) -> (s: String)
    ensures
        s@ == text_or_empty(o),
{
    match o {
        Some(s) => s,
        None => String::new(),
    }
}

pub fn parse_update_memory(args: UpdateMemoryArgs) -> (r: Result<ParsedUpdate, MemoryToolError>)
    ensures
        is_known_operation(args.operation@) ==> (r matches Ok(p) && update_matches(args, p)),
        !is_known_operation(args.operation@) ==> (r matches Err(e) && e
            == (MemoryToolError::UnknownOperation { operation: e->operation })
            && e->operation@ == args.operation@),
{
    let ghost a = args;
    let op = args.operation.as_str();
    if str_eq(op, "set_goal") {
        Ok(ParsedUpdate { delta: MemoryDelta::SetGoal { goal: text_or_default(args.goal) }, operation_label: "set_goal" })
    } else if str_eq(op, "add_fact") {
        Ok(ParsedUpdate { delta: MemoryDelta::AddFact { content: text_or_default(args.content) }, operation_label: "add_fact" })
    } else if str_eq(op, "add_decision") {
        Ok(ParsedUpdate { delta: MemoryDelta::AddDecision { content: text_or_default(args.content) }, operation_label: "add_decision" })
    } else if str_eq(op, "add_question") {
        Ok(ParsedUpdate { delta: MemoryDelta::AddQuestion { content: text_or_default(args.content) }, operation_label: "add_question" })
    } else if str_eq(op, "resolve_question") {
        Ok(ParsedUpdate { delta: MemoryDelta::ResolveQuestion { needle: text_or_default(args.needle) }, operation_label: "resolve_question" })
    } else if str_eq(op, "remove_fact") {
        Ok(ParsedUpdate { delta: MemoryDelta::RemoveFact { needle: text_or_default(args.needle) }, operation_label: "remove_fact" })
    } else if str_eq(op, "clear") {
        let scope = match &args.scope {
            Some(s) => parse_scope(Some(s.as_str())),
            None => parse_scope(None),
        };
        Ok(ParsedUpdate { delta: MemoryDelta::Clear { scope }, operation_label: "clear" })
    } else {
        Err(MemoryToolError::UnknownOperation { operation: args.operation.clone() })
    }
}

/// The acknowledgement returned to the model.
pub fn queued_message(operation_label: &str) -> (s: String)
    ensures
        s@ == "Memory update queued: "@ + operation_label@ + ". It will apply on the next step."@,
{
    let mut v = str_chars("Memory update queued: ");
    append_str(&mut v, operation_label);
    append_str(&mut v, ". It will apply on the next step.");
    string_from_chars(v.as_slice())
}

pub fn update_memory_tool() -> (t: ToolDef)
    ensures
        t@ == (ToolDefModel {
            kind: "function"@,
            function: FunctionDefModel {
                name: UPDATE_MEMORY_TOOL@,
                description: UPDATE_MEMORY_DESCRIPTION@,
                parameters: Some(UPDATE_MEMORY_PARAMETERS@),
                strict: None,
            },
        }),
{
    let mut tool = ToolDef::function(
        String::from_str(UPDATE_MEMORY_TOOL),
        String::from_str(UPDATE_MEMORY_DESCRIPTION),
    );
    tool.function.parameters = Some(String::from_str(UPDATE_MEMORY_PARAMETERS));
    tool
}

/// The tool, with the buffer its calls are queued in.
pub struct MemoryToolProvider {
    pub buffer: MemoryBuffer,
    pub definitions: Vec<ToolDef>,
}

impl MemoryToolProvider {
    pub fn new(buffer: MemoryBuffer) -> (p: Self)
        ensures
            p.buffer == buffer,
            p.definitions@.len() == 1,
            p.definitions@[0].function.name@ == UPDATE_MEMORY_TOOL@,
    {
        let mut definitions: Vec<ToolDef> = Vec::new();
        definitions.push(update_memory_tool());
        MemoryToolProvider { buffer, definitions }
    }

    pub fn id(&self) -> (s: &'static str)
        ensures
            s@ == "memory"@,
    {
        "memory"
    }

    /// Handles a call to `tool_name` with its decoded arguments (`None` when
    /// they were not valid JSON of the right shape).  Other tools are not
    /// handled (`Ok(None)`); a valid call is queued and acknowledged; an
    /// invalid one queues nothing.
    pub fn execute(&mut self, tool_name: &str, args: Option<UpdateMemoryArgs>) -> (r: Result<
        Option<String>,
        MemoryToolError,
    >)
        ensures
            final(self).definitions == old(self).definitions,
            tool_name@ != UPDATE_MEMORY_TOOL@ ==> r == Ok::<Option<String>, MemoryToolError>(None)
                && final(self).buffer@ == old(self).buffer@,
            tool_name@ == UPDATE_MEMORY_TOOL@ ==> match args {
                None => r == Err::<Option<String>, MemoryToolError>(
                    MemoryToolError::InvalidArguments,
                ) && final(self).buffer@ == old(self).buffer@,
                Some(a) => if is_known_operation(a.operation@) {
                    &&& final(self).buffer@.len() == old(self).buffer@.len() + 1
                    &&& final(self).buffer@.drop_last() == old(self).buffer@
                    &&& delta_matches(a, final(self).buffer@.last())
                    &&& r matches Ok(Some(msg)) && msg@ == "Memory update queued: "@
                        + a.operation@ + ". It will apply on the next step."@
                } else {
                    r matches Err(e) && e == (MemoryToolError::UnknownOperation {
                        operation: e->operation,
                    }) && e->operation@ == a.operation@ && final(self).buffer@
                        == old(self).buffer@
                },
            },
    {
        if !str_eq(tool_name, UPDATE_MEMORY_TOOL) {
            return Ok(None);
        }
        let args = match args {
            Some(a) => a,
            None => {
                return Err(MemoryToolError::InvalidArguments);
            },
        };
        match parse_update_memory(args) {
            Ok(parsed) => {
                let msg = queued_message(parsed.operation_label);
                self.buffer.push(parsed.delta);
                Ok(Some(msg))
            },
            Err(e) => Err(e),
        }
    }

    /// Hands out the queued operations, oldest first, and empties the buffer.
    pub fn drain(&mut self) -> (r: Vec<MemoryDelta>)
        ensures
            r@ == old(self).buffer@,
            final(self).buffer@.len() == 0,
            final(self).definitions == old(self).definitions,
    {
        let mut out: Vec<MemoryDelta> = Vec::new();
        std::mem::swap(&mut out, &mut self.buffer);
        out
    }
}

} // verus!
