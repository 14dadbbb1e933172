//! The decisions of the agent loop.  The caller talks to the model and runs
//! the tools; the agent keeps the conversation, builds each request, decides
//! after each reply whether tools must run or the turn is complete, and turns
//! the streamed reply into trace events.
use vstd::prelude::*;
use vstd::string::*;
use crate::api::{
    clone_calls, clone_messages, clone_text, message_views, opt_calls, opt_text, opt_tool_defs,
    tool_call_views, tool_def_views, ChatCompletionRequest, ChatMessage, ChoiceMessage, MessageModel,
    ThinkingConfig, ToolCall, ToolDef, Usage,
};
use crate::config::AppConfig;
use crate::context::budget::{json_string, json_string_literal};
use crate::context_usage::ContextUsage;
use crate::streaming::{AgentEventSink, AgentStreamEvent};
use crate::text::{
    append_chars, append_str, decimal, decimal_chars, join, str_chars, string_from_chars, string_views,
};
use crate::tool_registry::ToolExecutionResult;
use crate::trace::{is_trace_id, trace_id, TraceEventType};

verus! {

/// What a reply asks of the loop: run these tool calls and ask again, or
/// stop with the turn complete.
#[derive(Debug)]
pub enum TurnStatus {
    RunTools(Vec<ToolCall>),
    Complete,
}

/// The same, with the final answer of a completed turn.
#[derive(Debug)]
pub enum TracedTurnStatus {
    RunTools(Vec<ToolCall>),
    Complete(String),
}

/// The assistant message that asks for tool calls, as kept in the history:
/// empty content, the reasoning, and the calls.
pub open spec fn tool_request_message(message: ChoiceMessage) -> MessageModel {
    MessageModel {
        role: "assistant"@,
        content: Some(Seq::empty()),
        tool_calls: opt_calls(message.tool_calls),
        tool_call_id: None,
        reasoning_content: opt_text(message.reasoning_content),
    }
}

/// A final assistant message as kept in the history.
pub open spec fn answer_message(content: Seq<char>, reasoning: Option<Seq<char>>) -> MessageModel {
    MessageModel {
        role: "assistant"@,
        content: Some(content),
        tool_calls: None,
        tool_call_id: None,
        reasoning_content: reasoning,
    }
}

pub open spec fn result_messages(results: Seq<ToolExecutionResult>) -> Seq<MessageModel> {
    results.map_values(
        |r: ToolExecutionResult|
            crate::api::tool_message(r.content@, r.tool_call_id@),
    )
}

pub open spec fn max_rounds_text(max_tool_rounds: usize) -> Seq<char> {
    "reached the maximum number of tool rounds ("@ + decimal(max_tool_rounds as nat) + ")"@
}

/// The conversation of one agent and what it needs to ask the model.
pub struct Agent {
    pub config: AppConfig,
    pub messages: Vec<ChatMessage>,
    pub tool_definitions: Vec<ToolDef>,
    pub context_usage: ContextUsage,
}

impl Agent {
    /// An agent whose history starts with the system prompt.
    pub fn new(config: AppConfig, tool_definitions: Vec<ToolDef>) -> (a: Self)
        ensures
            message_views(a.messages@) == seq![
                crate::api::text_message("system"@, config.system_prompt@),
            ],
            a.config == config,
            a.tool_definitions == tool_definitions,
            a.context_usage.used_tokens == 0,
            a.context_usage.total_tokens == if config.model@ == "deepseek-v4-flash"@ || config.model@
                == "deepseek-v4-pro"@ {
                Some(crate::context_usage::DEEPSEEK_V4_CONTEXT_WINDOW)
            } else {
                None::<u32>
            },
    {
        let context_usage = ContextUsage::for_model(config.model.as_str());
        let mut messages: Vec<ChatMessage> = Vec::new();
        messages.push(ChatMessage::system(config.system_prompt.clone()));
        assert(message_views(messages@) =~= seq![
            crate::api::text_message("system"@, config.system_prompt@),
        ]);
        Agent { config, messages, tool_definitions, context_usage }
    }

    pub fn context_usage_line(&self) -> (s: String)
        ensures
            exists|bar: Seq<char>| crate::context_usage::usage_bar(
                bar,
                self.context_usage.used_tokens,
                self.context_usage.total_tokens,
            ) && s@ == crate::context_usage::spec_render_line(self.context_usage, bar),
    {
        self.context_usage.render_line()
    }

    /// Appends the user's input to the history.
    pub fn push_user_input(&mut self, input: String)
        ensures
            message_views(final(self).messages@) == message_views(old(self).messages@).push(
                crate::api::text_message("user"@, input@),
            ),
            final(self).config == old(self).config,
            final(self).tool_definitions == old(self).tool_definitions,
            final(self).context_usage == old(self).context_usage,
    {
        let ghost before = message_views(self.messages@);
        self.messages.push(ChatMessage::user(input));
        assert(message_views(self.messages@) =~= before.push(
            crate::api::text_message("user"@, input@),
        ));
    }

    /// The tokens used become those of the last reply.
    pub fn record_usage(&mut self, usage: &Usage)
        ensures
            final(self).context_usage.used_tokens == usage.total_tokens,
            final(self).context_usage.total_tokens == old(self).context_usage.total_tokens,
            final(self).messages == old(self).messages,
            final(self).config == old(self).config,
            final(self).tool_definitions == old(self).tool_definitions,
    {
        self.context_usage.update_from_usage(usage);
    }

    /// The request for the next round: the whole history, every tool,
    /// thinking enabled and the configured reasoning effort.
    pub fn build_request(&self) -> (r: ChatCompletionRequest)
        ensures
            r.model@ == self.config.model@,
            message_views(r.messages@) == message_views(self.messages@),
            opt_tool_defs(r.tools) == Some(tool_def_views(self.tool_definitions@)),
            crate::api::opt_thinking(r.thinking) == Some("enabled"@),
            opt_text(r.reasoning_effort) == Some(self.config.reasoning_effort@),
            r.stream is None,
            r.stream_options is None,
    {
        let mut tools: Vec<ToolDef> = Vec::new();
        let mut i: usize = 0;
        while i < self.tool_definitions.len()
            invariant
                i <= self.tool_definitions@.len(),
                tools@.len() == i,
                forall|k: int| 0 <= k < i ==> #[trigger] tools@[k]@ == self.tool_definitions@[k]@,
            decreases self.tool_definitions.len() - i,
        {
            tools.push(self.tool_definitions[i].clone_def());
            i = i + 1;
        }
        assert(tool_def_views(tools@) =~= tool_def_views(self.tool_definitions@));
        ChatCompletionRequest {
            model: self.config.model.clone(),
            messages: clone_messages(&self.messages),
            tools: Some(tools),
            thinking: Some(ThinkingConfig::enabled()),
            reasoning_effort: Some(self.config.reasoning_effort.clone()),
            stream: None,
            stream_options: None,
        }
    }

    fn push_tool_request(&mut self, message: &ChoiceMessage)
        ensures
            message_views(final(self).messages@) == message_views(old(self).messages@).push(
                tool_request_message(*message),
            ),
            final(self).config == old(self).config,
            final(self).tool_definitions == old(self).tool_definitions,
            final(self).context_usage == old(self).context_usage,
    {
        let ghost before = message_views(self.messages@);
        let m = ChatMessage {
            role: String::from_str("assistant"),
            content: Some(String::new()),
            tool_calls: crate::api::clone_opt_calls(&message.tool_calls),
            tool_call_id: None,
            reasoning_content: clone_text(&message.reasoning_content),
        };
        self.messages.push(m);
        assert(message_views(self.messages@) =~= before.push(tool_request_message(*message)));
    }

    /// A reply with tool calls (even an empty list) is kept and its calls are
    /// to run; otherwise a reply with content is kept as the answer and the
    /// turn is complete.
    pub fn handle_assistant_message(&mut self, message: &ChoiceMessage) -> (s: TurnStatus)
        ensures
            final(self).config == old(self).config,
            final(self).tool_definitions == old(self).tool_definitions,
            final(self).context_usage == old(self).context_usage,
            match message.tool_calls {
                Some(calls) => s matches TurnStatus::RunTools(run) && tool_call_views(run@)
                    == tool_call_views(calls@) && message_views(final(self).messages@)
                    == message_views(old(self).messages@).push(tool_request_message(*message)),
                None => s is Complete && message_views(final(self).messages@) == match message.content {
                    Some(c) => message_views(old(self).messages@).push(
                        answer_message(c@, opt_text(message.reasoning_content)),
                    ),
                    None => message_views(old(self).messages@),
                },
            },
    {
        match &message.tool_calls {
            Some(calls) => {
                self.push_tool_request(message);
                TurnStatus::RunTools(clone_calls(calls))
            },
            None => {
                match &message.content {
                    Some(c) => {
                        let ghost before = message_views(self.messages@);
                        self.messages.push(
                            ChatMessage {
                                role: String::from_str("assistant"),
                                content: Some(c.clone()),
                                tool_calls: None,
                                tool_call_id: None,
                                reasoning_content: clone_text(&message.reasoning_content),
                            },
                        );
                        assert(message_views(self.messages@) =~= before.push(
                            answer_message(c@, opt_text(message.reasoning_content)),
                        ));
                    },
                    None => {},
                }
                TurnStatus::Complete
            },
        }
    }

    /// As `handle_assistant_message`, but a reply without tool calls always
    /// completes the turn with its content (empty when it has none) as the
    /// final answer.
    pub fn handle_assistant_message_with_trace(&mut self, message: &ChoiceMessage) -> (s:
        TracedTurnStatus)
        ensures
            final(self).config == old(self).config,
            final(self).tool_definitions == old(self).tool_definitions,
            final(self).context_usage == old(self).context_usage,
            match message.tool_calls {
                Some(calls) => s matches TracedTurnStatus::RunTools(run) && tool_call_views(run@)
                    == tool_call_views(calls@) && message_views(final(self).messages@)
                    == message_views(old(self).messages@).push(tool_request_message(*message)),
                None => {
                    let answer = match message.content {
                        Some(c) => c@,
                        None => Seq::empty(),
                    };
                    s matches TracedTurnStatus::Complete(a) && a@ == answer && message_views(
                        final(self).messages@,
                    ) == message_views(old(self).messages@).push(
                        answer_message(answer, opt_text(message.reasoning_content)),
                    )
                },
            },
    {
        match &message.tool_calls {
            Some(calls) => {
                self.push_tool_request(message);
                TracedTurnStatus::RunTools(clone_calls(calls))
            },
            None => {
                let answer = match &message.content {
                    Some(c) => c.clone(),
                    None => String::new(),
                };
                let ghost before = message_views(self.messages@);
                self.messages.push(
                    ChatMessage {
                        role: String::from_str("assistant"),
                        content: Some(answer.clone()),
                        tool_calls: None,
                        tool_call_id: None,
                        reasoning_content: clone_text(&message.reasoning_content),
                    },
                );
                assert(message_views(self.messages@) =~= before.push(
                    answer_message(answer@, opt_text(message.reasoning_content)),
                ));
                TracedTurnStatus::Complete(answer)
            },
        }
    }

    /// Appends the tool results, in order, as tool messages.
    pub fn record_tool_results(&mut self, results: Vec<ToolExecutionResult>)
        ensures
            message_views(final(self).messages@) == message_views(old(self).messages@) + result_messages(
                results@,
            ),
            final(self).config == old(self).config,
            final(self).tool_definitions == old(self).tool_definitions,
            final(self).context_usage == old(self).context_usage,
    {
        let mut i: usize = 0;
        let ghost start = message_views(self.messages@);
        while i < results.len()
            invariant
                i <= results@.len(),
                message_views(self.messages@) == start + result_messages(results@.take(i as int)),
                self.config == old(self).config,
                self.tool_definitions == old(self).tool_definitions,
                self.context_usage == old(self).context_usage,
            decreases results.len() - i,
        {
            let ghost before = message_views(self.messages@);
            let r = &results[i];
            self.messages.push(ChatMessage::tool(r.content.clone(), r.tool_call_id.as_str()));
            assert(result_messages(results@.take(i + 1)) =~= result_messages(results@.take(i as int)).push(
                crate::api::tool_message(results@[i as int].content@, results@[i as int].tool_call_id@),
            ));
            assert(message_views(self.messages@) =~= before.push(
                crate::api::tool_message(results@[i as int].content@, results@[i as int].tool_call_id@),
            ));
            i = i + 1;
        }
        assert(results@.take(results@.len() as int) =~= results@);
    }

    /// Whether another round may start after `rounds_done` rounds.
    pub fn may_start_round(&self, rounds_done: usize) -> (b: bool)
        ensures
            b == (rounds_done < self.config.max_tool_rounds),
    {
        rounds_done < self.config.max_tool_rounds
    }

    /// The error of a turn that used up its rounds.
    pub fn max_rounds_error(&self) -> (s: String)
        ensures
            s@ == max_rounds_text(self.config.max_tool_rounds),
    {
        let mut v = str_chars("reached the maximum number of tool rounds (");
        append_chars(&mut v, decimal_chars(self.config.max_tool_rounds as u64).as_slice());
        append_str(&mut v, ")");
        string_from_chars(v.as_slice())
    }
}

// ---------------------------------------------------------------------------
// Trace events of a streamed reply.
// ---------------------------------------------------------------------------

/// The kind of output node a reply opens.
#[derive(Debug, Clone, Copy, PartialEq, Eq, Structural)]
pub enum OutputKind {
    FinalAnswer,
    ToolCalls,
}

pub open spec fn kind_name(k: OutputKind) -> Seq<char> {
    match k {
        OutputKind::FinalAnswer => "final_answer"@,
        OutputKind::ToolCalls => "tool_calls"@,
    }
}

fn kind_name_exec(k: OutputKind) -> (s: &'static str)
    ensures
        s@ == kind_name(k),
{
    match k {
        OutputKind::FinalAnswer => "final_answer",
        OutputKind::ToolCalls => "tool_calls",
    }
}

/// A JSON value that is a string or `null`.
pub open spec fn json_opt_string(o: Option<Seq<char>>) -> Seq<char> {
    match o {
        Some(s) => json_string(s),
        None => "null"@,
    }
}

pub open spec fn reasoning_payload(model_call_id: Seq<char>, delta: Seq<char>) -> Seq<char> {
    "{\"delta\":"@ + json_string(delta) + ",\"node_id\":"@ + json_string(model_call_id) + "}"@
}

pub open spec fn started_payload(node_id: Seq<char>, model_call_id: Seq<char>, kind: OutputKind) -> Seq<char> {
    "{\"kind\":"@ + json_string(kind_name(kind)) + ",\"node_id\":"@ + json_string(node_id)
        + ",\"parent_model_call_id\":"@ + json_string(model_call_id) + "}"@
}

pub open spec fn answer_delta_payload(node_id: Seq<char>, delta: Seq<char>) -> Seq<char> {
    "{\"content_delta\":"@ + json_string(delta) + ",\"kind\":"@ + json_string("final_answer"@)
        + ",\"node_id\":"@ + json_string(node_id) + "}"@
}

pub open spec fn tool_delta_payload(
    node_id: Seq<char>,
    index: u32,
    id: Option<Seq<char>>,
    name: Option<Seq<char>>,
    arguments_delta: Option<Seq<char>>,
) -> Seq<char> {
    "{\"kind\":"@ + json_string("tool_calls"@) + ",\"node_id\":"@ + json_string(node_id)
        + ",\"tool_call\":{\"arguments_delta\":"@ + json_opt_string(arguments_delta) + ",\"index\":"@
        + decimal(index as nat) + ",\"name\":"@ + json_opt_string(name) + ",\"tool_call_id\":"@
        + json_opt_string(id) + "}}"@
}

fn push_json_string(v: &mut Vec<char>, s: &str)
    ensures
        final(v)@ == old(v)@ + json_string(s@),
{
    append_str(v, json_string_literal(s).as_str());
}

fn push_json_opt_string(v: &mut Vec<char>, o: &Option<String>)
    ensures
        final(v)@ == old(v)@ + json_opt_string(opt_text(*o)),
{
    match o {
        Some(s) => push_json_string(v, s.as_str()),
        None => append_str(v, "null"),
    }
}

pub open spec fn text_or_empty(o: Option<String>) -> Seq<char> {
    match o {
        Some(c) => c@,
        None => Seq::empty(),
    }
}

pub open spec fn calls_or_empty(o: Option<Vec<ToolCall>>) -> Seq<crate::api::ToolCallModel> {
    match o {
        Some(c) => tool_call_views(c@),
        None => Seq::empty(),
    }
}

/// One reported tool call of a completed output.
pub open spec fn completed_call_json(c: crate::api::ToolCallModel, snapshot: Seq<char>, index: int) -> Seq<char> {
    "{\"arguments\":"@ + snapshot + ",\"index\":"@ + decimal(index as nat) + ",\"name\":"@
        + json_string(c.name) + ",\"tool_call_id\":"@ + json_string(c.id) + "}"@
}

pub open spec fn completed_calls_json(calls: Seq<crate::api::ToolCallModel>, snapshots: Seq<Seq<char>>) -> Seq<char> {
    join(
        Seq::new(calls.len(), |k: int| completed_call_json(calls[k], snapshots[k], k)),
        ","@,
    )
}

/// The report of a completed output.
pub open spec fn completed_payload(
    content: Seq<char>,
    kind: OutputKind,
    node_id: Seq<char>,
    calls: Seq<crate::api::ToolCallModel>,
    snapshots: Seq<Seq<char>>,
) -> Seq<char> {
    "{\"content\":"@ + json_string(content) + ",\"kind\":"@ + json_string(kind_name(kind))
        + ",\"node_id\":"@ + json_string(node_id) + ",\"tool_calls\":["@ + completed_calls_json(
        calls,
        snapshots,
    ) + "]}"@
}

/// Forwards a streamed reply as trace events of one model call, opening an
/// output node (a final answer or tool calls) when the kind of output
/// changes.  The events are collected for the caller to emit.
pub struct StreamingTraceForwarder {
    pub model_call_id: String,
    pub output_node_id: Option<String>,
    pub output_kind: Option<OutputKind>,
    pub emitted: Vec<(TraceEventType, String)>,
}

pub open spec fn emitted_views(v: Seq<(TraceEventType, String)>) -> Seq<(TraceEventType, Seq<char>)> {
    v.map_values(|e: (TraceEventType, String)| (e.0, e.1@))
}

impl StreamingTraceForwarder {
    pub fn new(model_call_id: String) -> (f: Self)
        ensures
            f.model_call_id == model_call_id,
            f.output_node_id is None,
            f.output_kind is None,
            f.emitted@.len() == 0,
    {
        StreamingTraceForwarder { model_call_id, output_node_id: None, output_kind: None, emitted: Vec::new() }
    }

    /// The output node is open for `kind`.
    pub open spec fn open_for(&self, kind: OutputKind) -> bool {
        self.output_kind == Some(kind) && self.output_node_id is Some
    }

    fn emit(&mut self, t: TraceEventType, payload: String)
        ensures
            emitted_views(final(self).emitted@) == emitted_views(old(self).emitted@).push((t, payload@)),
            final(self).model_call_id == old(self).model_call_id,
            final(self).output_node_id == old(self).output_node_id,
            final(self).output_kind == old(self).output_kind,
    {
        let ghost before = emitted_views(self.emitted@);
        self.emitted.push((t, payload));
        assert(emitted_views(self.emitted@) =~= before.push((t, payload@)));
    }

    /// The node of the current output of this kind, opening a new one (and
    /// reporting it started) when the current output is of another kind.
    pub fn ensure_output_started(&mut self, kind: OutputKind) -> (node_id: String)
        ensures
            final(self).model_call_id == old(self).model_call_id,
            final(self).output_kind == Some(kind),
            final(self).output_node_id == Some(node_id),
            old(self).open_for(kind) ==> node_id == old(self).output_node_id->Some_0
                && final(self).emitted == old(self).emitted,
            !old(self).open_for(kind) ==> is_trace_id(node_id@, "output"@) && emitted_views(
                final(self).emitted@,
            ) == emitted_views(old(self).emitted@).push(
                (
                    TraceEventType::ModelOutputStarted,
                    started_payload(node_id@, old(self).model_call_id@, kind),
                ),
            ),
    {
        if self.output_kind == Some(kind) {
            match &self.output_node_id {
                Some(id) => {
                    return id.clone();
                },
                None => {},
            }
        }
        let node_id = trace_id("output");
        self.output_node_id = Some(node_id.clone());
        self.output_kind = Some(kind);
        let mut v = str_chars("{\"kind\":");
        push_json_string(&mut v, kind_name_exec(kind));
        append_str(&mut v, ",\"node_id\":");
        push_json_string(&mut v, node_id.as_str());
        append_str(&mut v, ",\"parent_model_call_id\":");
        push_json_string(&mut v, self.model_call_id.as_str());
        append_str(&mut v, "}");
        self.emit(TraceEventType::ModelOutputStarted, string_from_chars(v.as_slice()));
        node_id
    }

    /// The reply is complete: reports the finished output, if any, with its
    /// content and its tool calls, whose arguments come as ready snapshots
    /// (JSON text), one per call.  Returns the output node.
    pub fn emit_completed(&mut self, message: &ChoiceMessage, argument_snapshots: &Vec<String>) -> (r:
        Option<String>)
        requires
            argument_snapshots@.len() == match message.tool_calls {
                Some(c) => c@.len(),
                None => 0,
            },
        ensures
            final(self).model_call_id == old(self).model_call_id,
            ({
                let has_calls = message.tool_calls matches Some(c) && c@.len() > 0;
                let has_content = message.content matches Some(c) && c@.len() > 0;
                if has_calls || has_content {
                    let kind = if has_calls {
                        OutputKind::ToolCalls
                    } else {
                        OutputKind::FinalAnswer
                    };
                    &&& r == final(self).output_node_id
                    &&& final(self).output_kind == Some(kind)
                    &&& r is Some
                    &&& emitted_views(final(self).emitted@) == opened_trace(*old(self), *final(self), kind).push(
                        (
                            TraceEventType::ModelOutputCompleted,
                            completed_payload(
                                match message.content {
                                    Some(c) => c@,
                                    None => Seq::empty(),
                                },
                                kind,
                                r->Some_0@,
                                match message.tool_calls {
                                    Some(c) => tool_call_views(c@),
                                    None => Seq::empty(),
                                },
                                string_views(argument_snapshots@),
                            ),
                        ),
                    )
                } else {
                    r is None && final(self).emitted == old(self).emitted
                        && final(self).output_node_id == old(self).output_node_id
                }
            }),
    {
        let has_calls = match &message.tool_calls {
            Some(c) => c.len() > 0,
            None => false,
        };
        let has_content = match &message.content {
            Some(c) => !c.as_str().is_empty(),
            None => false,
        };
        let kind = if has_calls {
            OutputKind::ToolCalls
        } else if has_content {
            OutputKind::FinalAnswer
        } else {
            return None;
        };
        let ghost start = *self;
        let node_id = self.ensure_output_started(kind);
        let ghost started = emitted_views(self.emitted@);
        assert(started == opened_trace(start, *self, kind));
        let mut v = str_chars("{\"content\":");
        match &message.content {
            Some(c) => push_json_string(&mut v, c.as_str()),
            None => {
                proof {
                    reveal_strlit("");
                    assert(""@ =~= Seq::<char>::empty());
                }
                push_json_string(&mut v, "");
            },
        }
        append_str(&mut v, ",\"kind\":");
        push_json_string(&mut v, kind_name_exec(kind));
        append_str(&mut v, ",\"node_id\":");
        push_json_string(&mut v, node_id.as_str());
        append_str(&mut v, ",\"tool_calls\":[");
        let ghost content_text = text_or_empty(message.content);
        let ghost call_views = calls_or_empty(message.tool_calls);
        let ghost pre = v@;
        assert(pre =~= "{\"content\":"@ + json_string(content_text) + ",\"kind\":"@ + json_string(
            kind_name(kind),
        ) + ",\"node_id\":"@ + json_string(node_id@) + ",\"tool_calls\":["@);
        match &message.tool_calls {
            Some(calls) => {
                let mut i: usize = 0;
                let ghost prefix = v@;
                let ghost items = Seq::new(
                    calls@.len(),
                    |k: int| completed_call_json(calls@[k]@, argument_snapshots@[k]@, k),
                );
                assert(items.take(0) =~= Seq::<Seq<char>>::empty());
                while i < calls.len()
                    invariant
                        i <= calls@.len(),
                        argument_snapshots@.len() == calls@.len(),
                        items == Seq::new(
                            calls@.len(),
                            |k: int| completed_call_json(calls@[k]@, argument_snapshots@[k]@, k),
                        ),
                        v@ == prefix + join(items.take(i as int), ","@),
                    decreases calls.len() - i,
                {
                    let ghost before = v@;
                    proof {
                        assert(items.take(i + 1).drop_last() =~= items.take(i as int));
                        assert(items.take(i + 1).last() == items[i as int]);
                    }
                    if i > 0 {
                        append_str(&mut v, ",");
                    }
                    append_str(&mut v, "{\"arguments\":");
                    append_str(&mut v, argument_snapshots[i].as_str());
                    append_str(&mut v, ",\"index\":");
                    append_chars(&mut v, decimal_chars(i as u64).as_slice());
                    append_str(&mut v, ",\"name\":");
                    push_json_string(&mut v, calls[i].function.name.as_str());
                    append_str(&mut v, ",\"tool_call_id\":");
                    push_json_string(&mut v, calls[i].id.as_str());
                    append_str(&mut v, "}");
                    proof {
                        if i > 0 {
                            assert(v@ =~= before + ","@ + items[i as int]);
                        } else {
                            assert(v@ =~= before + items[i as int]);
                            assert(items.take(1) =~= seq![items[0]]);
                        }
                    }
                    i = i + 1;
                }
                proof {
                    assert(items.take(calls@.len() as int) =~= items);
                    assert(string_views(argument_snapshots@).len() == calls@.len());
                    assert(Seq::new(
                        tool_call_views(calls@).len(),
                        |k: int| completed_call_json(
                            tool_call_views(calls@)[k],
                            string_views(argument_snapshots@)[k],
                            k,
                        ),
                    ) =~= items);
                }
            },
            None => {
                proof {
                    assert(Seq::new(
                        Seq::<crate::api::ToolCallModel>::empty().len(),
                        |k: int| completed_call_json(
                            Seq::<crate::api::ToolCallModel>::empty()[k],
                            string_views(argument_snapshots@)[k],
                            k,
                        ),
                    ) =~= Seq::<Seq<char>>::empty());
                }
            },
        }
        assert(v@ =~= pre + completed_calls_json(call_views, string_views(argument_snapshots@)));
        append_str(&mut v, "]}");
        assert(v@ =~= completed_payload(
            match message.content {
                Some(c) => c@,
                None => Seq::empty(),
            },
            kind,
            node_id@,
            match message.tool_calls {
                Some(c) => tool_call_views(c@),
                None => Seq::empty(),
            },
            string_views(argument_snapshots@),
        ));
        let ghost before = emitted_views(self.emitted@);
        self.emit(TraceEventType::ModelOutputCompleted, string_from_chars(v.as_slice()));
        self.output_node_id.clone()
    }
}

/// The trace so far after making sure an output of `kind` is open: when
/// one was not, the new node (fresh `output_` id) is reported started.
pub open spec fn opened(before: StreamingTraceForwarder, after: StreamingTraceForwarder, kind: OutputKind) -> bool {
    &&& after.output_kind == Some(kind)
    &&& after.output_node_id is Some
    &&& before.open_for(kind) ==> after.output_node_id == before.output_node_id
    &&& !before.open_for(kind) ==> is_trace_id(after.output_node_id->Some_0@, "output"@)
}

pub open spec fn opened_trace(before: StreamingTraceForwarder, after: StreamingTraceForwarder, kind: OutputKind) -> Seq<
    (TraceEventType, Seq<char>),
> {
    let prior = emitted_views(before.emitted@);
    if before.open_for(kind) {
        prior
    } else {
        prior.push(
            (
                TraceEventType::ModelOutputStarted,
                started_payload(after.output_node_id->Some_0@, before.model_call_id@, kind),
            ),
        )
    }
}

/// What one stream event adds to the trace of a model call: reasoning is
/// reported on the call, answer and tool-call deltas on the open output of
/// their kind, and the other events add nothing.
pub open spec fn forwards(
    before: StreamingTraceForwarder,
    after: StreamingTraceForwarder,
    event: AgentStreamEvent,
) -> bool {
    let prior = emitted_views(before.emitted@);
    let now = emitted_views(after.emitted@);
    &&& after.model_call_id == before.model_call_id
    &&& match event {
        AgentStreamEvent::ReasoningDelta(d) => now == prior.push(
            (
                TraceEventType::ModelCallReasoningDelta,
                reasoning_payload(before.model_call_id@, d@),
            ),
        ) && after.output_node_id == before.output_node_id && after.output_kind
            == before.output_kind,
        AgentStreamEvent::AnswerStarted => opened(before, after, OutputKind::FinalAnswer) && now
            == opened_trace(before, after, OutputKind::FinalAnswer),
        AgentStreamEvent::AnswerDelta(d) => opened(before, after, OutputKind::FinalAnswer) && now
            == opened_trace(before, after, OutputKind::FinalAnswer).push(
            (
                TraceEventType::ModelOutputDelta,
                answer_delta_payload(after.output_node_id->Some_0@, d@),
            ),
        ),
        AgentStreamEvent::ToolCallDelta { index, id, name, arguments_delta } => opened(
            before,
            after,
            OutputKind::ToolCalls,
        ) && now == opened_trace(before, after, OutputKind::ToolCalls).push(
            (
                TraceEventType::ModelOutputDelta,
                tool_delta_payload(
                    after.output_node_id->Some_0@,
                    index,
                    opt_text(id),
                    opt_text(name),
                    opt_text(arguments_delta),
                ),
            ),
        ),
        _ => after.emitted == before.emitted && after.output_node_id == before.output_node_id
            && after.output_kind == before.output_kind,
    }
}

impl StreamingTraceForwarder {
    /// Takes one stream event; never fails.
    pub fn forward(&mut self, event: &AgentStreamEvent)
        ensures
            forwards(*old(self), *final(self), *event),
    {
        match event {
            AgentStreamEvent::ReasoningDelta(delta) => {
                let mut v = str_chars("{\"delta\":");
                push_json_string(&mut v, delta.as_str());
                append_str(&mut v, ",\"node_id\":");
                push_json_string(&mut v, self.model_call_id.as_str());
                append_str(&mut v, "}");
                self.emit(TraceEventType::ModelCallReasoningDelta, string_from_chars(v.as_slice()));
            },
            AgentStreamEvent::AnswerStarted => {
                let _ = self.ensure_output_started(OutputKind::FinalAnswer);
            },
            AgentStreamEvent::AnswerDelta(content_delta) => {
                let node_id = self.ensure_output_started(OutputKind::FinalAnswer);
                let mut v = str_chars("{\"content_delta\":");
                push_json_string(&mut v, content_delta.as_str());
                append_str(&mut v, ",\"kind\":");
                push_json_string(&mut v, "final_answer");
                append_str(&mut v, ",\"node_id\":");
                push_json_string(&mut v, node_id.as_str());
                append_str(&mut v, "}");
                let ghost before = emitted_views(self.emitted@);
                self.emit(TraceEventType::ModelOutputDelta, string_from_chars(v.as_slice()));
            },
            AgentStreamEvent::ToolCallDelta { index, id, name, arguments_delta } => {
                let node_id = self.ensure_output_started(OutputKind::ToolCalls);
                let mut v = str_chars("{\"kind\":");
                push_json_string(&mut v, "tool_calls");
                append_str(&mut v, ",\"node_id\":");
                push_json_string(&mut v, node_id.as_str());
                append_str(&mut v, ",\"tool_call\":{\"arguments_delta\":");
                push_json_opt_string(&mut v, arguments_delta);
                append_str(&mut v, ",\"index\":");
                append_chars(&mut v, decimal_chars(*index as u64).as_slice());
                append_str(&mut v, ",\"name\":");
                push_json_opt_string(&mut v, name);
                append_str(&mut v, ",\"tool_call_id\":");
                push_json_opt_string(&mut v, id);
                append_str(&mut v, "}}");
                self.emit(TraceEventType::ModelOutputDelta, string_from_chars(v.as_slice()));
            },
            _ => {},
        }
    }
}

impl AgentEventSink for StreamingTraceForwarder {
    fn on_event(&mut self, event: &AgentStreamEvent) -> (r: Result<(), String>) {
        self.forward(event);
        Ok(())
    }
}

} // verus!
