//! Chat-completion messages as the library sees them.
//!
//! The wire format (JSON) is handled by the caller; these are the plain
//! values that the context logic reads and builds.
use vstd::prelude::*;
use vstd::string::*;

verus! {

#[derive(Debug, Clone)]
pub struct FunctionCall {
    pub name: String,
    pub arguments: String,
}

#[derive(Debug, Clone)]
pub struct ToolCall {
    pub id: String,
    pub kind: String,
    pub function: FunctionCall,
}

pub struct ToolCallModel {
    pub id: Seq<char>,
    pub kind: Seq<char>,
    pub name: Seq<char>,
    pub arguments: Seq<char>,
}

impl View for ToolCall {
    type V = ToolCallModel;

    open spec fn view(&self) -> ToolCallModel {
        ToolCallModel {
            id: self.id@,
            kind: self.kind@,
            name: self.function.name@,
            arguments: self.function.arguments@,
        }
    }
}

pub open spec fn tool_call_views(v: Seq<ToolCall>) -> Seq<ToolCallModel> {
    v.map_values(|c: ToolCall| c@)
}

pub open spec fn opt_text(o: Option<String>) -> Option<Seq<char>> {
    match o {
        Some(s) => Some(s@),
        None => None,
    }
}

pub open spec fn opt_calls(o: Option<Vec<ToolCall>>) -> Option<Seq<ToolCallModel>> {
    match o {
        Some(v) => Some(tool_call_views(v@)),
        None => None,
    }
}

/// One message of a chat-completion request.
#[derive(Debug, Clone)]
pub struct ChatMessage {
    pub role: String,
    pub content: Option<String>,
    pub tool_calls: Option<Vec<ToolCall>>,
    pub tool_call_id: Option<String>,
    pub reasoning_content: Option<String>,
}

pub struct MessageModel {
    pub role: Seq<char>,
    pub content: Option<Seq<char>>,
    pub tool_calls: Option<Seq<ToolCallModel>>,
    pub tool_call_id: Option<Seq<char>>,
    pub reasoning_content: Option<Seq<char>>,
}

impl View for ChatMessage {
    type V = MessageModel;

    open spec fn view(&self) -> MessageModel {
        MessageModel {
            role: self.role@,
            content: opt_text(self.content),
            tool_calls: opt_calls(self.tool_calls),
            tool_call_id: opt_text(self.tool_call_id),
            reasoning_content: opt_text(self.reasoning_content),
        }
    }
}

pub open spec fn message_views(v: Seq<ChatMessage>) -> Seq<MessageModel> {
    v.map_values(|m: ChatMessage| m@)
}

pub open spec fn text_message(role: Seq<char>, content: Seq<char>) -> MessageModel {
    MessageModel {
        role,
        content: Some(content),
        tool_calls: None,
        tool_call_id: None,
        reasoning_content: None,
    }
}

pub open spec fn tool_message(content: Seq<char>, tool_call_id: Seq<char>) -> MessageModel {
    MessageModel {
        role: "tool"@,
        content: Some(content),
        tool_calls: None,
        tool_call_id: Some(tool_call_id),
        reasoning_content: None,
    }
}

pub fn clone_text(o: &Option<String>) -> (r: Option<String>)
    ensures
        opt_text(r) == opt_text(*o),
{
    match o {
        Some(s) => Some(s.clone()),
        None => None,
    }
}

impl ToolCall {
    pub fn clone_call(&self) -> (r: ToolCall)
        ensures
            r@ == self@,
    {
        ToolCall {
            id: self.id.clone(),
            kind: self.kind.clone(),
            function: FunctionCall {
                name: self.function.name.clone(),
                arguments: self.function.arguments.clone(),
            },
        }
    }
}

pub fn clone_calls(v: &Vec<ToolCall>) -> (r: Vec<ToolCall>)
    ensures
        tool_call_views(r@) == tool_call_views(v@),
{
    let mut r: Vec<ToolCall> = Vec::new();
    let mut i: usize = 0;
    while i < v.len()
        invariant
            i <= v@.len(),
            r@.len() == i,
            forall|k: int| 0 <= k < i ==> #[trigger] r@[k]@ == v@[k]@,
        decreases v.len() - i,
    {
        r.push(v[i].clone_call());
        i = i + 1;
    }
    assert(tool_call_views(r@) =~= tool_call_views(v@));
    r
}

pub fn clone_opt_calls(o: &Option<Vec<ToolCall>>) -> (r: Option<Vec<ToolCall>>)
    ensures
        opt_calls(r) == opt_calls(*o),
{
    match o {
        Some(v) => Some(clone_calls(v)),
        None => None,
    }
}

impl ChatMessage {
    pub fn system(content: String) -> (m: Self)
        ensures
            m@ == text_message("system"@, content@),
    {
        ChatMessage {
            role: String::from_str("system"),
            content: Some(content),
            tool_calls: None,
            tool_call_id: None,
            reasoning_content: None,
        }
    }

    pub fn user(content: String) -> (m: Self)
        ensures
            m@ == text_message("user"@, content@),
    {
        ChatMessage {
            role: String::from_str("user"),
            content: Some(content),
            tool_calls: None,
            tool_call_id: None,
            reasoning_content: None,
        }
    }

    pub fn assistant(content: String) -> (m: Self)
        ensures
            m@ == text_message("assistant"@, content@),
    {
        ChatMessage {
            role: String::from_str("assistant"),
            content: Some(content),
            tool_calls: None,
            tool_call_id: None,
            reasoning_content: None,
        }
    }

    pub fn tool(content: String, tool_call_id: &str) -> (m: Self)
        ensures
            m@ == tool_message(content@, tool_call_id@),
    {
        ChatMessage {
            role: String::from_str("tool"),
            content: Some(content),
            tool_calls: None,
            tool_call_id: Some(String::from_str(tool_call_id)),
            reasoning_content: None,
        }
    }

    pub fn clone_message(&self) -> (m: Self)
        ensures
            m@ == self@,
    {
        ChatMessage {
            role: self.role.clone(),
            content: clone_text(&self.content),
            tool_calls: clone_opt_calls(&self.tool_calls),
            tool_call_id: clone_text(&self.tool_call_id),
            reasoning_content: clone_text(&self.reasoning_content),
        }
    }
}

#[derive(Debug, Clone)]
pub struct ThinkingConfig {
    pub kind: String,
}

impl ThinkingConfig {
    pub fn enabled() -> (t: Self)
        ensures
            t.kind@ == "enabled"@,
    {
        ThinkingConfig { kind: String::from_str("enabled") }
    }
}

pub fn clone_messages(v: &Vec<ChatMessage>) -> (r: Vec<ChatMessage>)
    ensures
        message_views(r@) == message_views(v@),
{
    let mut r: Vec<ChatMessage> = Vec::new();
    let mut i: usize = 0;
    while i < v.len()
        invariant
            i <= v@.len(),
            r@.len() == i,
            forall|k: int| 0 <= k < i ==> #[trigger] r@[k]@ == v@[k]@,
        decreases v.len() - i,
    {
        r.push(v[i].clone_message());
        i = i + 1;
    }
    assert(message_views(r@) =~= message_views(v@));
    r
}

/// A function that the model may call.  The parameters are a JSON schema,
/// held as JSON text.
#[derive(Debug, Clone)]
pub struct FunctionDef {
    pub name: String,
    pub description: String,
    pub parameters: Option<String>,
    pub strict: Option<bool>,
}

pub struct FunctionDefModel {
    pub name: Seq<char>,
    pub description: Seq<char>,
    pub parameters: Option<Seq<char>>,
    pub strict: Option<bool>,
}

#[derive(Debug, Clone)]
pub struct ToolDef {
    pub kind: String,
    pub function: FunctionDef,
}

pub struct ToolDefModel {
    pub kind: Seq<char>,
    pub function: FunctionDefModel,
}

impl View for ToolDef {
    type V = ToolDefModel;

    open spec fn view(&self) -> ToolDefModel {
        ToolDefModel {
            kind: self.kind@,
            function: FunctionDefModel {
                name: self.function.name@,
                description: self.function.description@,
                parameters: opt_text(self.function.parameters),
                strict: self.function.strict,
            },
        }
    }
}

pub open spec fn tool_def_views(v: Seq<ToolDef>) -> Seq<ToolDefModel> {
    v.map_values(|t: ToolDef| t@)
}

pub open spec fn opt_tool_defs(o: Option<Vec<ToolDef>>) -> Option<Seq<ToolDefModel>> {
    match o {
        Some(v) => Some(tool_def_views(v@)),
        None => None,
    }
}

impl ToolDef {
    /// A function tool without parameters.
    pub fn function(name: String, description: String) -> (t: Self)
        ensures
            t@ == (ToolDefModel {
                kind: "function"@,
                function: FunctionDefModel {
                    name: name@,
                    description: description@,
                    parameters: None,
                    strict: None,
                },
            }),
    {
        ToolDef {
            kind: String::from_str("function"),
            function: FunctionDef { name, description, parameters: None, strict: None },
        }
    }

    pub fn clone_def(&self) -> (t: Self)
        ensures
            t@ == self@,
    {
        ToolDef {
            kind: self.kind.clone(),
            function: FunctionDef {
                name: self.function.name.clone(),
                description: self.function.description.clone(),
                parameters: clone_text(&self.function.parameters),
                strict: self.function.strict,
            },
        }
    }
}

pub fn clone_tool_defs(o: &Option<Vec<ToolDef>>) -> (r: Option<Vec<ToolDef>>)
    ensures
        opt_tool_defs(r) == opt_tool_defs(*o),
{
    match o {
        Some(v) => {
            let mut r: Vec<ToolDef> = Vec::new();
            let mut i: usize = 0;
            while i < v.len()
                invariant
                    i <= v@.len(),
                    r@.len() == i,
                    forall|k: int| 0 <= k < i ==> #[trigger] r@[k]@ == v@[k]@,
                decreases v.len() - i,
            {
                r.push(v[i].clone_def());
                i = i + 1;
            }
            assert(tool_def_views(r@) =~= tool_def_views(v@));
            Some(r)
        },
        None => None,
    }
}

#[derive(Debug, Clone, Copy, PartialEq, Eq, Structural)]
pub struct StreamOptions {
    pub include_usage: bool,
}

/// A chat-completion request.
#[derive(Debug, Clone)]
pub struct ChatCompletionRequest {
    pub model: String,
    pub messages: Vec<ChatMessage>,
    pub tools: Option<Vec<ToolDef>>,
    pub thinking: Option<ThinkingConfig>,
    pub reasoning_effort: Option<String>,
    pub stream: Option<bool>,
    pub stream_options: Option<StreamOptions>,
}

pub open spec fn opt_thinking(o: Option<ThinkingConfig>) -> Option<Seq<char>> {
    match o {
        Some(t) => Some(t.kind@),
        None => None,
    }
}

/// The message of one choice in a model's reply.
#[derive(Debug, Clone)]
pub struct ChoiceMessage {
    pub role: String,
    pub content: Option<String>,
    pub reasoning_content: Option<String>,
    pub tool_calls: Option<Vec<ToolCall>>,
}

#[derive(Debug, Clone, Copy)]
pub struct PromptTokensDetails {
    pub cached_tokens: u32,
}

#[derive(Debug, Clone, Copy)]
pub struct CompletionTokensDetails {
    pub reasoning_tokens: u32,
}

/// Token usage that a model reports for one request.
#[derive(Debug, Clone, Copy)]
pub struct Usage {
    pub prompt_tokens: u32,
    pub completion_tokens: u32,
    pub total_tokens: u32,
    pub prompt_tokens_details: PromptTokensDetails,
    pub completion_tokens_details: CompletionTokensDetails,
    pub prompt_cache_hit_tokens: u32,
    pub prompt_cache_miss_tokens: u32,
}

/// A piece of a streamed tool call.
#[derive(Debug, Clone)]
pub struct FunctionCallDelta {
    pub name: Option<String>,
    pub arguments: Option<String>,
}

#[derive(Debug, Clone)]
pub struct ToolCallDelta {
    pub index: u32,
    pub id: Option<String>,
    pub kind: Option<String>,
    pub function: Option<FunctionCallDelta>,
}

/// The change that one streamed chunk brings to a choice.
#[derive(Debug, Clone)]
pub struct ChoiceDelta {
    pub role: Option<String>,
    pub content: Option<String>,
    pub reasoning_content: Option<String>,
    pub tool_calls: Option<Vec<ToolCallDelta>>,
}

#[derive(Debug, Clone)]
pub struct StreamChoice {
    pub index: u32,
    pub delta: ChoiceDelta,
    pub finish_reason: Option<String>,
}

/// One chunk of a streamed chat completion.
#[derive(Debug, Clone)]
pub struct ChatCompletionStreamChunk {
    pub id: Option<String>,
    pub object: Option<String>,
    pub created: Option<u64>,
    pub model: Option<String>,
    pub choices: Vec<StreamChoice>,
    pub usage: Option<Usage>,
}

} // verus!
