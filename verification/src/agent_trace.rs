//! The traced agent loop: when a round starts and when the turn ends, and
//! the payloads of the `model_call.started` and `model_call.completed`
//! events of each round.  Talking to the model, running the tools and
//! recording the events is left to the caller.
use vstd::prelude::*;
use vstd::string::*;
use crate::agent::{max_rounds_text, TracedTurnStatus};
use crate::api::{opt_thinking, ChatCompletionRequest, ChoiceMessage, ToolCall, Usage};
use crate::json::{json_number, json_str, lemma_member_models, member, member_models, object_of, opt_text, Json, JsonModel};
use crate::text::{append_chars, decimal, decimal_chars, str_chars, string_from_chars};
use crate::trace::{snapshot_json, snapshot_of, JsonSnapshot, DEFAULT_SNAPSHOT_MAX_BYTES};

verus! {

/// A text, or `null`.
pub open spec fn text_or_null(o: Option<Seq<char>>) -> JsonModel {
    match o {
        Some(t) => JsonModel::Str(t),
        None => JsonModel::Null,
    }
}

/// The thinking setting as it is sent: `{"type": ...}`, or `null`.
pub open spec fn thinking_json(o: Option<Seq<char>>) -> JsonModel {
    match o {
        Some(k) => JsonModel::Object(seq![("type"@, JsonModel::Str(k))]),
        None => JsonModel::Null,
    }
}

pub open spec fn tool_count(request: ChatCompletionRequest) -> nat {
    match request.tools {
        Some(t) => t@.len(),
        None => 0,
    }
}

/// What a round's trace records of its request: the model, how many
/// messages and tools it carries, and its thinking settings.
pub open spec fn request_summary(request: ChatCompletionRequest) -> JsonModel {
    JsonModel::Object(
        seq![
            ("message_count"@, JsonModel::Number(decimal(request.messages@.len()))),
            ("model"@, JsonModel::Str(request.model@)),
            ("reasoning_effort"@, text_or_null(opt_text(request.reasoning_effort))),
            ("thinking"@, thinking_json(opt_thinking(request.thinking))),
            ("tool_count"@, JsonModel::Number(decimal(tool_count(request)))),
        ],
    )
}

fn text_or_null_exec(o: &Option<String>) -> (j: Json)
    ensures
        j@ == text_or_null(opt_text(*o)),
{
    match o {
        Some(t) => Json::Str(t.clone()),
        None => Json::Null,
    }
}

/// `model_request_snapshot`: the request's summary as a snapshot.
pub fn model_request_snapshot(request: &ChatCompletionRequest) -> (s: JsonSnapshot)
    ensures
        s@ == snapshot_of(request_summary(*request), DEFAULT_SNAPSHOT_MAX_BYTES),
{
    let tools: usize = match &request.tools {
        Some(t) => t.len(),
        None => 0,
    };
    let thinking = match &request.thinking {
        Some(t) => {
            let mut ms: Vec<(String, Json)> = Vec::new();
            ms.push(member("type", Json::Str(t.kind.clone())));
            proof {
                lemma_member_models(ms@);
                reveal_strlit("type");
                assert(member_models(ms@) =~= seq![("type"@, JsonModel::Str(t.kind@))]);
            }
            object_of(ms)
        },
        None => Json::Null,
    };
    let mut ms: Vec<(String, Json)> = Vec::new();
    ms.push(member("message_count", json_number(request.messages.len() as u64)));
    ms.push(member("model", Json::Str(request.model.clone())));
    ms.push(member("reasoning_effort", text_or_null_exec(&request.reasoning_effort)));
    ms.push(member("thinking", thinking));
    ms.push(member("tool_count", json_number(tools as u64)));
    proof {
        lemma_member_models(ms@);
        reveal_strlit("message_count");
        reveal_strlit("model");
        reveal_strlit("reasoning_effort");
        reveal_strlit("thinking");
        reveal_strlit("tool_count");
        assert(member_models(ms@) =~= request_summary(*request)->Object_0);
    }
    JsonSnapshot::from_value(object_of(ms), DEFAULT_SNAPSHOT_MAX_BYTES)
}

/// The payload of `model_call.started`: the model, the call's node, the
/// request's snapshot and the round (counted from 1).
pub open spec fn model_call_started_json(node_id: Seq<char>, round: nat, request: ChatCompletionRequest) -> JsonModel {
    JsonModel::Object(
        seq![
            ("model"@, JsonModel::Str(request.model@)),
            ("node_id"@, JsonModel::Str(node_id)),
            ("request"@, snapshot_json(snapshot_of(request_summary(request), DEFAULT_SNAPSHOT_MAX_BYTES))),
            ("round"@, JsonModel::Number(decimal(round))),
        ],
    )
}

pub fn model_call_started_payload(node_id: &str, round: usize, request: &ChatCompletionRequest) -> (j: Json)
    ensures
        j@ == model_call_started_json(node_id@, round as nat, *request),
{
    let snapshot = model_request_snapshot(request);
    let mut ms: Vec<(String, Json)> = Vec::new();
    ms.push(member("model", Json::Str(request.model.clone())));
    ms.push(member("node_id", json_str(node_id)));
    ms.push(member("request", snapshot.to_json()));
    ms.push(member("round", json_number(round as u64)));
    proof {
        lemma_member_models(ms@);
        reveal_strlit("model");
        reveal_strlit("node_id");
        reveal_strlit("request");
        reveal_strlit("round");
        assert(member_models(ms@) =~= model_call_started_json(node_id@, round as nat, *request)->Object_0);
    }
    object_of(ms)
}

/// The usage a round records: the token counts, with the reasoning tokens.
pub open spec fn usage_json(u: Usage) -> JsonModel {
    JsonModel::Object(
        seq![
            ("completion_tokens"@, JsonModel::Number(decimal(u.completion_tokens as nat))),
            ("prompt_tokens"@, JsonModel::Number(decimal(u.prompt_tokens as nat))),
            ("reasoning_tokens"@, JsonModel::Number(decimal(u.completion_tokens_details.reasoning_tokens as nat))),
            ("total_tokens"@, JsonModel::Number(decimal(u.total_tokens as nat))),
        ],
    )
}

pub open spec fn usage_or_null(o: Option<Usage>) -> JsonModel {
    match o {
        Some(u) => usage_json(u),
        None => JsonModel::Null,
    }
}

/// Whether a reply has content that is not empty.
pub open spec fn has_content(m: ChoiceMessage) -> bool {
    m.content matches Some(c) && c@.len() > 0
}

pub open spec fn reply_tool_call_count(m: ChoiceMessage) -> nat {
    match m.tool_calls {
        Some(c) => c@.len(),
        None => 0,
    }
}

/// What a round's trace records of the reply: whether it has content and
/// how many tool calls it asks for.
pub open spec fn response_json(m: ChoiceMessage) -> JsonModel {
    JsonModel::Object(
        seq![
            ("has_content"@, JsonModel::Bool(has_content(m))),
            ("tool_call_count"@, JsonModel::Number(decimal(reply_tool_call_count(m)))),
        ],
    )
}

/// The payload of `model_call.completed`: the duration, the finish reason,
/// the call's node, the reply's snapshot and the usage.
pub open spec fn model_call_completed_json(
    node_id: Seq<char>,
    duration_ms: u64,
    finish_reason: Option<Seq<char>>,
    usage: Option<Usage>,
    message: ChoiceMessage,
) -> JsonModel {
    JsonModel::Object(
        seq![
            ("duration_ms"@, JsonModel::Number(decimal(duration_ms as nat))),
            ("finish_reason"@, text_or_null(finish_reason)),
            ("node_id"@, JsonModel::Str(node_id)),
            ("response"@, snapshot_json(snapshot_of(response_json(message), DEFAULT_SNAPSHOT_MAX_BYTES))),
            ("usage"@, usage_or_null(usage)),
        ],
    )
}

fn usage_value(u: &Usage) -> (j: Json)
    ensures
        j@ == usage_json(*u),
{
    let mut ms: Vec<(String, Json)> = Vec::new();
    ms.push(member("completion_tokens", json_number(u.completion_tokens as u64)));
    ms.push(member("prompt_tokens", json_number(u.prompt_tokens as u64)));
    ms.push(member("reasoning_tokens", json_number(u.completion_tokens_details.reasoning_tokens as u64)));
    ms.push(member("total_tokens", json_number(u.total_tokens as u64)));
    proof {
        lemma_member_models(ms@);
        reveal_strlit("completion_tokens");
        reveal_strlit("prompt_tokens");
        reveal_strlit("reasoning_tokens");
        reveal_strlit("total_tokens");
        assert(member_models(ms@) =~= usage_json(*u)->Object_0);
    }
    object_of(ms)
}

pub fn model_call_completed_payload(
    node_id: &str,
    duration_ms: u64,
    finish_reason: &Option<String>,
    usage: &Option<Usage>,
    message: &ChoiceMessage,
) -> (j: Json)
    ensures
        j@ == model_call_completed_json(node_id@, duration_ms, opt_text(*finish_reason), *usage, *message),
{
    let content = match &message.content {
        Some(c) => !c.as_str().is_empty(),
        None => false,
    };
    let calls: usize = match &message.tool_calls {
        Some(c) => c.len(),
        None => 0,
    };
    let mut rs: Vec<(String, Json)> = Vec::new();
    rs.push(member("has_content", Json::Bool(content)));
    rs.push(member("tool_call_count", json_number(calls as u64)));
    proof {
        lemma_member_models(rs@);
        reveal_strlit("has_content");
        reveal_strlit("tool_call_count");
        assert(member_models(rs@) =~= response_json(*message)->Object_0);
    }
    let response = JsonSnapshot::from_value(object_of(rs), DEFAULT_SNAPSHOT_MAX_BYTES);
    let usage_json_value = match usage {
        Some(u) => usage_value(u),
        None => Json::Null,
    };
    let mut ms: Vec<(String, Json)> = Vec::new();
    ms.push(member("duration_ms", json_number(duration_ms)));
    ms.push(member("finish_reason", text_or_null_exec(finish_reason)));
    ms.push(member("node_id", json_str(node_id)));
    ms.push(member("response", response.to_json()));
    ms.push(member("usage", usage_json_value));
    proof {
        lemma_member_models(ms@);
        reveal_strlit("duration_ms");
        reveal_strlit("finish_reason");
        reveal_strlit("node_id");
        reveal_strlit("response");
        reveal_strlit("usage");
        assert(member_models(ms@) =~= model_call_completed_json(
            node_id@,
            duration_ms,
            opt_text(*finish_reason),
            *usage,
            *message,
        )->Object_0);
    }
    object_of(ms)
}

/// How far a traced turn is: the rounds started and the most it may start.
#[derive(Debug, Clone, Copy)]
pub struct TraceLoopState {
    pub rounds_started: usize,
    pub max_tool_rounds: usize,
}

/// What the caller reports: the turn begins, a round's reply was handled,
/// or the tools a reply asked for have run and their results are recorded.
#[derive(Debug)]
pub enum LoopEvent {
    Start,
    Replied(TracedTurnStatus),
    ToolsDone,
}

/// What the caller is to do next: start round `round` (emit its
/// `model_call.started`, stream the reply, emit its `model_call.completed`,
/// handle the reply), run these tool calls, end the turn with this answer,
/// or fail the turn with this error.
#[derive(Debug)]
pub enum LoopAction {
    StartRound { round: usize },
    RunTools(Vec<ToolCall>),
    Finish(String),
    Fail(String),
}

fn next_round(state: &TraceLoopState) -> (r: (TraceLoopState, LoopAction))
    ensures
        state.rounds_started < state.max_tool_rounds ==> r.0 == (TraceLoopState {
            rounds_started: (state.rounds_started + 1) as usize,
            ..*state
        }) && r.1 == (LoopAction::StartRound { round: (state.rounds_started + 1) as usize }),
        state.rounds_started >= state.max_tool_rounds ==> r.0 == *state,
        state.rounds_started >= state.max_tool_rounds ==> (r.1 matches LoopAction::Fail(e) && e@ == max_rounds_text(
            state.max_tool_rounds,
        )),
{
    if state.rounds_started < state.max_tool_rounds {
        let n = state.rounds_started + 1;
        (TraceLoopState { rounds_started: n, max_tool_rounds: state.max_tool_rounds }, LoopAction::StartRound {
            round: n,
        })
    } else {
        let mut v = str_chars("reached the maximum number of tool rounds (");
        append_chars(&mut v, decimal_chars(state.max_tool_rounds as u64).as_slice());
        let close = str_chars(")");
        append_chars(&mut v, close.as_slice());
        proof {
            reveal_strlit("reached the maximum number of tool rounds (");
            reveal_strlit(")");
        }
        (*state, LoopAction::Fail(string_from_chars(v.as_slice())))
    }
}

/// One step of the traced loop: a turn starts with round 1; a reply that
/// asks for tools has them run; after the tools the next round starts while
/// fewer than the most rounds have started, else the turn fails; a reply
/// with the final answer ends the turn.
pub fn trace_round_step(state: &TraceLoopState, event: LoopEvent) -> (r: (TraceLoopState, LoopAction))
    ensures
        match event {
            LoopEvent::Start => {
                let s0 = TraceLoopState { rounds_started: 0, ..*state };
                &&& 0 < state.max_tool_rounds ==> r.0 == (TraceLoopState { rounds_started: 1, ..*state })
                    && r.1 == (LoopAction::StartRound { round: 1 })
                &&& state.max_tool_rounds == 0 ==> r.0 == s0
                &&& state.max_tool_rounds == 0 ==> (r.1 matches LoopAction::Fail(e) && e@ == max_rounds_text(
                    state.max_tool_rounds,
                ))
            },
            LoopEvent::Replied(TracedTurnStatus::RunTools(calls)) => r.0 == *state && r.1 == LoopAction::RunTools(
                calls,
            ),
            LoopEvent::Replied(TracedTurnStatus::Complete(answer)) => r.0 == *state && r.1 == LoopAction::Finish(
                answer,
            ),
            LoopEvent::ToolsDone => {
                &&& state.rounds_started < state.max_tool_rounds ==> r.0 == (TraceLoopState {
                    rounds_started: (state.rounds_started + 1) as usize,
                    ..*state
                }) && r.1 == (LoopAction::StartRound { round: (state.rounds_started + 1) as usize })
                &&& state.rounds_started >= state.max_tool_rounds ==> r.0 == *state
                &&& state.rounds_started >= state.max_tool_rounds ==> (r.1 matches LoopAction::Fail(e) && e@
                    == max_rounds_text(state.max_tool_rounds))
            },
        },
{
    match event {
        LoopEvent::Start => {
            let s0 = TraceLoopState { rounds_started: 0, max_tool_rounds: state.max_tool_rounds };
            next_round(&s0)
        },
        LoopEvent::Replied(TracedTurnStatus::RunTools(calls)) => (*state, LoopAction::RunTools(calls)),
        LoopEvent::Replied(TracedTurnStatus::Complete(answer)) => (*state, LoopAction::Finish(answer)),
        LoopEvent::ToolsDone => next_round(state),
    }
}

} // verus!
