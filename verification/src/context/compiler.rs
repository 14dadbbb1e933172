//! Compiling the transcript and working memory into the messages of one
//! request, within a token budget.
//!
//! The most recent turns are kept in full; older turns are replaced by one
//! summary message.  When even the most recent turn does not fit, the
//! summary and then the working memory are left out, with a warning.  The
//! messages are checked for protocol safety: every assistant message with
//! tool calls is followed directly by one tool result per call.
use vstd::prelude::*;
use vstd::string::*;
use crate::api::{ChatMessage, MessageModel, message_views, text_message};
use crate::context::budget::{
    ContextBudget, ContextPolicy, TokenEstimator, max_int, sat, spec_estimate_messages,
    spec_preserves_reasoning, spec_target_tokens, spec_truncate_to_tokens,
    spec_window_or_default,
};
use crate::context::memory::{WorkingMemory, spec_memory_message};
use crate::context::summary::{fallback_turn_summary, spec_turn_summary};
use crate::context::transcript::{
    ConversationTranscript, ConversationTurn, RetentionClass, TurnModel, TurnSummary,
    append_messages, spec_legacy_messages, spec_reasoning_count, turn_views, turns_messages,
};
use crate::text::{
    append_chars, append_str, decimal, decimal_chars, join, join_strings, join_vecs, str_chars,
    str_eq, string_from_chars, string_views, trim, trim_vec, views,
};

verus! {

#[derive(Debug, Clone, Copy, Default)]
pub struct CompileInput;

/// What went into a compiled request.
#[derive(Debug, Clone, PartialEq, Eq)]
pub struct ContextCompileReport {
    pub estimated_prompt_tokens: usize,
    pub target_prompt_tokens: usize,
    pub reserved_completion_tokens: usize,
    pub included_recent_turns: usize,
    pub summarized_turns: usize,
    pub included_tool_exchanges: usize,
    pub summarized_tool_exchanges: usize,
    pub reasoning_policy: String,
    pub preserved_reasoning_messages: usize,
    pub summarized_reasoning_messages: usize,
    pub warnings: Vec<String>,
}

pub struct ReportModel {
    pub estimated_prompt_tokens: int,
    pub target_prompt_tokens: int,
    pub reserved_completion_tokens: int,
    pub included_recent_turns: int,
    pub summarized_turns: int,
    pub included_tool_exchanges: int,
    pub summarized_tool_exchanges: int,
    pub reasoning_policy: Seq<char>,
    pub preserved_reasoning_messages: int,
    pub summarized_reasoning_messages: int,
    pub warnings: Seq<Seq<char>>,
}

impl View for ContextCompileReport {
    type V = ReportModel;

    open spec fn view(&self) -> ReportModel {
        ReportModel {
            estimated_prompt_tokens: self.estimated_prompt_tokens as int,
            target_prompt_tokens: self.target_prompt_tokens as int,
            reserved_completion_tokens: self.reserved_completion_tokens as int,
            included_recent_turns: self.included_recent_turns as int,
            summarized_turns: self.summarized_turns as int,
            included_tool_exchanges: self.included_tool_exchanges as int,
            summarized_tool_exchanges: self.summarized_tool_exchanges as int,
            reasoning_policy: self.reasoning_policy@,
            preserved_reasoning_messages: self.preserved_reasoning_messages as int,
            summarized_reasoning_messages: self.summarized_reasoning_messages as int,
            warnings: string_views(self.warnings@),
        }
    }
}

#[derive(Debug, Clone)]
pub struct CompiledContext {
    pub messages: Vec<ChatMessage>,
    pub report: ContextCompileReport,
}

// ---------------------------------------------------------------------------
// Protocol safety.
// ---------------------------------------------------------------------------

/// Why a message list is not protocol safe.
#[derive(Debug, Clone, PartialEq, Eq)]
pub enum ProtocolError {
    MissingAdjacentToolResults { assistant_index: usize, index: usize },
    MissingToolCallId,
    OrphanToolMessage { tool_call_id: String },
    DuplicateToolMessage { tool_call_id: String },
    MissingToolResults { ids: Vec<String> },
}

pub enum ProtocolFault {
    MissingAdjacentToolResults { assistant_index: usize, index: usize },
    MissingToolCallId,
    OrphanToolMessage { tool_call_id: Seq<char> },
    DuplicateToolMessage { tool_call_id: Seq<char> },
    MissingToolResults { ids: Seq<Seq<char>> },
}

impl View for ProtocolError {
    type V = ProtocolFault;

    open spec fn view(&self) -> ProtocolFault {
        match self {
            ProtocolError::MissingAdjacentToolResults { assistant_index, index } =>
                ProtocolFault::MissingAdjacentToolResults {
                assistant_index: *assistant_index,
                index: *index,
            },
            ProtocolError::MissingToolCallId => ProtocolFault::MissingToolCallId,
            ProtocolError::OrphanToolMessage { tool_call_id } => ProtocolFault::OrphanToolMessage {
                tool_call_id: tool_call_id@,
            },
            ProtocolError::DuplicateToolMessage { tool_call_id } =>
                ProtocolFault::DuplicateToolMessage { tool_call_id: tool_call_id@ },
            ProtocolError::MissingToolResults { ids } => ProtocolFault::MissingToolResults {
                ids: string_views(ids@),
            },
        }
    }
}

pub open spec fn spec_describe_fault(f: ProtocolFault) -> Seq<char> {
    match f {
        ProtocolFault::MissingAdjacentToolResults { assistant_index, index } =>
            "assistant tool_calls at message "@ + decimal(assistant_index as nat)
            + " are missing adjacent tool results before message "@ + decimal(index as nat),
        ProtocolFault::MissingToolCallId => "tool message missing tool_call_id"@,
        ProtocolFault::OrphanToolMessage { tool_call_id } => "orphan tool message for tool_call_id `"@
            + tool_call_id + "`"@,
        ProtocolFault::DuplicateToolMessage { tool_call_id } =>
            "duplicate tool message for tool_call_id `"@ + tool_call_id + "`"@,
        ProtocolFault::MissingToolResults { ids } => "assistant tool_calls missing tool results for ids: "@
            + join(ids, ", "@),
    }
}

impl ProtocolError {
    /// The error as text.
    pub fn describe(&self) -> (s: String)
        ensures
            s@ == spec_describe_fault(self@),
    {
        match self {
            ProtocolError::MissingAdjacentToolResults { assistant_index, index } => {
                let mut v = str_chars("assistant tool_calls at message ");
                append_chars(&mut v, decimal_chars(*assistant_index as u64).as_slice());
                append_str(&mut v, " are missing adjacent tool results before message ");
                append_chars(&mut v, decimal_chars(*index as u64).as_slice());
                string_from_chars(v.as_slice())
            },
            ProtocolError::MissingToolCallId => String::from_str("tool message missing tool_call_id"),
            ProtocolError::OrphanToolMessage { tool_call_id } => {
                let mut v = str_chars("orphan tool message for tool_call_id `");
                append_str(&mut v, tool_call_id.as_str());
                append_str(&mut v, "`");
                string_from_chars(v.as_slice())
            },
            ProtocolError::DuplicateToolMessage { tool_call_id } => {
                let mut v = str_chars("duplicate tool message for tool_call_id `");
                append_str(&mut v, tool_call_id.as_str());
                append_str(&mut v, "`");
                string_from_chars(v.as_slice())
            },
            ProtocolError::MissingToolResults { ids } => {
                let mut v = str_chars("assistant tool_calls missing tool results for ids: ");
                let j = join_strings(ids, ", ");
                append_str(&mut v, j.as_str());
                string_from_chars(v.as_slice())
            },
        }
    }
}

/// The state of the check: the ids of the calls that still await results,
/// and the ids answered so far (without repetition).
pub struct CheckState {
    pub expected: Seq<Seq<char>>,
    pub seen: Seq<Seq<char>>,
}

pub open spec fn call_ids(m: MessageModel) -> Seq<Seq<char>> {
    match m.tool_calls {
        Some(c) => c.map_values(|t: crate::api::ToolCallModel| t.id),
        None => Seq::empty(),
    }
}

/// One message of the check.
pub open spec fn check_step(m: MessageModel, index: int, st: CheckState) -> Result<CheckState, ProtocolFault> {
    if st.expected.len() > 0 && m.role != "tool"@ {
        Err(
            ProtocolFault::MissingAdjacentToolResults {
                assistant_index: (if index >= 1 {
                    index - 1
                } else {
                    0
                }) as usize,
                index: index as usize,
            },
        )
    } else if m.role == "assistant"@ {
        if call_ids(m).len() > 0 {
            Ok(CheckState { expected: call_ids(m), seen: Seq::empty() })
        } else {
            Ok(st)
        }
    } else if m.role == "tool"@ {
        match m.tool_call_id {
            None => Err(ProtocolFault::MissingToolCallId),
            Some(id) => if !st.expected.contains(id) {
                Err(ProtocolFault::OrphanToolMessage { tool_call_id: id })
            } else if st.seen.contains(id) {
                Err(ProtocolFault::DuplicateToolMessage { tool_call_id: id })
            } else if st.seen.len() + 1 == st.expected.len() {
                Ok(CheckState { expected: Seq::empty(), seen: Seq::empty() })
            } else {
                Ok(CheckState { expected: st.expected, seen: st.seen.push(id) })
            },
        }
    } else {
        Ok(st)
    }
}

/// The check over the first `n` messages.
pub open spec fn check_prefix(ms: Seq<MessageModel>, n: int) -> Result<CheckState, ProtocolFault>
    decreases n,
{
    if n <= 0 {
        Ok(CheckState { expected: Seq::empty(), seen: Seq::empty() })
    } else {
        match check_prefix(ms, n - 1) {
            Err(e) => Err(e),
            Ok(st) => check_step(ms[n - 1], n - 1, st),
        }
    }
}

/// The protocol check of a whole message list.
pub open spec fn spec_validate(ms: Seq<MessageModel>) -> Result<(), ProtocolFault> {
    match check_prefix(ms, ms.len() as int) {
        Err(e) => Err(e),
        Ok(st) => if st.expected.len() > 0 {
            Err(ProtocolFault::MissingToolResults { ids: st.expected })
        } else {
            Ok(())
        },
    }
}

proof fn lemma_check_err_persists(ms: Seq<MessageModel>, n: int, m: int, e: ProtocolFault)
    requires
        0 < n <= m,
        check_prefix(ms, n) == Err::<CheckState, ProtocolFault>(e),
    ensures
        check_prefix(ms, m) == Err::<CheckState, ProtocolFault>(e),
    decreases m - n,
{
    if n < m {
        lemma_check_err_persists(ms, n, m - 1, e);
    }
}

fn strings_contain(v: &Vec<String>, s: &str) -> (b: bool)
    ensures
        b == string_views(v@).contains(s@),
{
    let mut i: usize = 0;
    while i < v.len()
        invariant
            i <= v@.len(),
            forall|k: int| 0 <= k < i ==> v@[k]@ != s@,
        decreases v.len() - i,
    {
        if str_eq(v[i].as_str(), s) {
            assert(string_views(v@)[i as int] == s@);
            return true;
        }
        i = i + 1;
    }
    assert forall|k: int| 0 <= k < string_views(v@).len() implies string_views(v@)[k] != s@ by {
        assert(string_views(v@)[k] == v@[k]@);
    }
    false
}

/// Checks that every assistant message with tool calls is followed directly
/// by exactly one tool result for each of its calls, and that no tool
/// result stands elsewhere.
pub fn validate_protocol_safe_messages(messages: &[ChatMessage]) -> (r: Result<(), ProtocolError>)
    ensures
        match r {
            Ok(()) => spec_validate(message_views(messages@)) is Ok,
            Err(e) => spec_validate(message_views(messages@)) == Err::<(), ProtocolFault>(e@),
        },
{
    let ghost ms = message_views(messages@);
    let mut expected: Vec<String> = Vec::new();
    let mut seen: Vec<String> = Vec::new();
    let mut i: usize = 0;
    assert(string_views(expected@) =~= Seq::<Seq<char>>::empty());
    assert(string_views(seen@) =~= Seq::<Seq<char>>::empty());
    while i < messages.len()
        invariant
            i <= messages@.len(),
            ms == message_views(messages@),
            check_prefix(ms, i as int) == Ok::<CheckState, ProtocolFault>(
                CheckState { expected: string_views(expected@), seen: string_views(seen@) },
            ),
        decreases messages.len() - i,
    {
        let message = &messages[i];
        let ghost st = CheckState { expected: string_views(expected@), seen: string_views(seen@) };
        assert(ms[i as int] == message@);
        let is_tool = str_eq(message.role.as_str(), "tool");
        if expected.len() > 0 && !is_tool {
            let assistant_index = if i >= 1 {
                i - 1
            } else {
                0
            };
            let err = ProtocolError::MissingAdjacentToolResults { assistant_index, index: i };
            proof {
                lemma_check_err_persists(ms, i + 1, ms.len() as int, err@);
            }
            return Err(err);
        }
        if str_eq(message.role.as_str(), "assistant") {
            match &message.tool_calls {
                Some(calls) => {
                    if calls.len() > 0 {
                        let mut ids: Vec<String> = Vec::new();
                        let mut j: usize = 0;
                        while j < calls.len()
                            invariant
                                j <= calls@.len(),
                                ids@.len() == j,
                                forall|k: int| 0 <= k < j ==> #[trigger] ids@[k]@ == calls@[k].id@,
                            decreases calls.len() - j,
                        {
                            ids.push(calls[j].id.clone());
                            j = j + 1;
                        }
                        expected = ids;
                        seen = Vec::new();
                        assert(string_views(expected@) =~= call_ids(message@));
                        assert(string_views(seen@) =~= Seq::<Seq<char>>::empty());
                    }
                },
                None => {},
            }
        } else if is_tool {
            match &message.tool_call_id {
                None => {
                    let err = ProtocolError::MissingToolCallId;
                    proof {
                        lemma_check_err_persists(ms, i + 1, ms.len() as int, err@);
                    }
                    return Err(err);
                },
                Some(id) => {
                    if !strings_contain(&expected, id.as_str()) {
                        let err = ProtocolError::OrphanToolMessage { tool_call_id: id.clone() };
                        proof {
                            lemma_check_err_persists(ms, i + 1, ms.len() as int, err@);
                        }
                        return Err(err);
                    }
                    if strings_contain(&seen, id.as_str()) {
                        let err = ProtocolError::DuplicateToolMessage { tool_call_id: id.clone() };
                        proof {
                            lemma_check_err_persists(ms, i + 1, ms.len() as int, err@);
                        }
                        return Err(err);
                    }
                    if seen.len() == expected.len() - 1 {
                        expected = Vec::new();
                        seen = Vec::new();
                        assert(string_views(expected@) =~= Seq::<Seq<char>>::empty());
                        assert(string_views(seen@) =~= Seq::<Seq<char>>::empty());
                    } else {
                        let ghost before = string_views(seen@);
                        seen.push(id.clone());
                        assert(string_views(seen@) =~= before.push(id@));
                    }
                },
            }
        }
        i = i + 1;
    }
    if expected.len() > 0 {
        return Err(ProtocolError::MissingToolResults { ids: expected });
    }
    Ok(())
}

// ---------------------------------------------------------------------------
// Packs of messages.
// ---------------------------------------------------------------------------

/// What a pack is built from: the original transcript, the memory, the
/// policy and the budget of the model.
pub struct PackInputs {
    pub system_prompt: Seq<char>,
    pub turns: Seq<TurnModel>,
    pub memory: WorkingMemory,
    pub policy: ContextPolicy,
    pub preserve: bool,
    pub label: Seq<char>,
    pub target: int,
    pub reserved: int,
}

/// The summary text of a turn: the one it has, else the fallback summary.
pub open spec fn turn_summary_text(t: TurnModel, max_tool_exchange_tokens: int) -> Seq<char> {
    match t.summary {
        Some(s) => s,
        None => spec_turn_summary(t, max_tool_exchange_tokens),
    }
}

/// A turn that has been folded into the history summary.
pub open spec fn summarized_turn(t: TurnModel, max_tool_exchange_tokens: int) -> TurnModel {
    TurnModel {
        retention: RetentionClass::Summarized,
        summary: Some(turn_summary_text(t, max_tool_exchange_tokens)),
        ..t
    }
}

/// The turns with the first `upto` of them summarized.
pub open spec fn summarize_prefix(ts: Seq<TurnModel>, upto: int, max_tool_exchange_tokens: int) -> Seq<
    TurnModel,
> {
    Seq::new(
        ts.len(),
        |k: int|
            if k < upto {
                summarized_turn(ts[k], max_tool_exchange_tokens)
            } else {
                ts[k]
            },
    )
}

pub open spec fn history_preamble() -> Seq<char> {
    "Previous conversation summary. This message is compressed context, not a new request.\n\n"@
}

/// The history summary of the first `upto` turns, cut to the summary budget.
pub open spec fn history_summary(ts: Seq<TurnModel>, upto: int, policy: ContextPolicy) -> Seq<char> {
    spec_truncate_to_tokens(
        history_preamble() + join(
            ts.take(upto).map_values(
                |t: TurnModel| turn_summary_text(t, policy.max_tool_exchange_tokens as int),
            ),
            "\n\n"@,
        ),
        policy.max_summary_tokens as int,
    )
}

pub struct PackModel {
    pub messages: Seq<MessageModel>,
    pub has_memory: bool,
    pub has_summary: bool,
}

pub open spec fn memory_part(inp: PackInputs, include_memory: bool) -> Option<MessageModel> {
    if include_memory {
        spec_memory_message(inp.memory, inp.policy.max_memory_tokens as int)
    } else {
        None
    }
}

pub open spec fn summary_part(inp: PackInputs, start: int, include_summary: bool) -> Option<
    MessageModel,
> {
    if include_summary && start > 0 && trim(history_summary(inp.turns, start, inp.policy)).len() > 0 {
        Some(text_message("user"@, history_summary(inp.turns, start, inp.policy)))
    } else {
        None
    }
}

pub open spec fn opt_seq(o: Option<MessageModel>) -> Seq<MessageModel> {
    match o {
        Some(m) => seq![m],
        None => Seq::empty(),
    }
}

/// The messages of a pack: the system prompt, the memory, the history
/// summary, and the turns from `start` on in full.
pub open spec fn pack(inp: PackInputs, start: int, include_memory: bool, include_summary: bool) -> PackModel {
    PackModel {
        messages: seq![text_message("system"@, inp.system_prompt)] + opt_seq(
            memory_part(inp, include_memory),
        ) + opt_seq(summary_part(inp, start, include_summary)) + turns_messages(
            inp.turns.subrange(start, inp.turns.len() as int),
            inp.preserve,
        ),
        has_memory: memory_part(inp, include_memory) is Some,
        has_summary: summary_part(inp, start, include_summary) is Some,
    }
}

pub open spec fn pack_estimate(inp: PackInputs, start: int, m: bool, s: bool) -> int {
    spec_estimate_messages(pack(inp, start, m, s).messages)
}

pub open spec fn exchange_total(ts: Seq<TurnModel>) -> int
    decreases ts.len(),
{
    if ts.len() == 0 {
        0
    } else {
        sat(exchange_total(ts.drop_last()) + ts.last().exchanges.len())
    }
}

pub open spec fn reasoning_total(ts: Seq<TurnModel>) -> int
    decreases ts.len(),
{
    if ts.len() == 0 {
        0
    } else {
        sat(reasoning_total(ts.drop_last()) + spec_reasoning_count(ts.last()))
    }
}

/// The report of a pack, before warnings.
pub open spec fn pack_report(inp: PackInputs, start: int, m: bool, s: bool) -> ReportModel {
    let n = inp.turns.len() as int;
    let recent = inp.turns.subrange(start, n);
    let older = inp.turns.take(start);
    ReportModel {
        estimated_prompt_tokens: pack_estimate(inp, start, m, s),
        target_prompt_tokens: inp.target,
        reserved_completion_tokens: inp.reserved,
        included_recent_turns: n - start,
        summarized_turns: start,
        included_tool_exchanges: exchange_total(recent),
        summarized_tool_exchanges: exchange_total(older),
        reasoning_policy: inp.label,
        preserved_reasoning_messages: if inp.preserve {
            reasoning_total(recent)
        } else {
            0
        },
        summarized_reasoning_messages: sat(reasoning_total(older) + if inp.preserve {
            0
        } else {
            reasoning_total(recent)
        }),
        warnings: Seq::empty(),
    }
}

/// The first start from `start` on whose full pack fits the target, or
/// `min_start` when none before it does.
/// The full pack at `start` exceeds the target.
#[verifier::opaque]
pub open spec fn full_pack_exceeds(inp: PackInputs, start: int) -> bool {
    pack_estimate(inp, start, true, true) > inp.target
}

pub open spec fn choose_start(inp: PackInputs, start: int, min_start: int) -> int
    decreases min_start - start,
{
    if start < min_start && full_pack_exceeds(inp, start) {
        choose_start(inp, start + 1, min_start)
    } else {
        start
    }
}

pub open spec fn warning_summary_omitted() -> Seq<char> {
    "history summaries were omitted because the current turn exceeded the target budget"@
}

pub open spec fn warning_memory_omitted() -> Seq<char> {
    "working memory was omitted because the current turn exceeded the target budget"@
}

pub open spec fn warning_over_budget(estimated: int, target: int) -> Seq<char> {
    "compiled context is over target budget: estimated="@ + decimal(estimated as nat) + " target="@
        + decimal(target as nat)
}

/// The final choice: the full pack at the chosen start, then without the
/// summary, then without the memory, while it exceeds the target.
pub struct CompileOutcome {
    pub start: int,
    pub include_memory: bool,
    pub include_summary: bool,
    pub warnings: Seq<Seq<char>>,
}

pub open spec fn initial_start(inp: PackInputs) -> int {
    let n = inp.turns.len() as int;
    let keep = max_int(inp.policy.recent_turns as int, 1);
    if n >= keep {
        n - keep
    } else {
        0
    }
}

pub open spec fn min_start(inp: PackInputs) -> int {
    let n = inp.turns.len() as int;
    if n >= 1 {
        n - 1
    } else {
        0
    }
}

/// The summary and the memory are dropped, in that order, while the pack at
/// `start` exceeds the target; each drop and a remaining excess leave a
/// warning.
pub open spec fn outcome_at(inp: PackInputs, start: int) -> CompileOutcome {
    let p0 = pack(inp, start, true, true);
    let drop_summary = pack_estimate(inp, start, true, true) > inp.target && p0.has_summary;
    let s1 = !drop_summary;
    let p1 = pack(inp, start, true, s1);
    let drop_memory = pack_estimate(inp, start, true, s1) > inp.target && p1.has_memory;
    let m2 = !drop_memory;
    let est = pack_estimate(inp, start, m2, s1);
    CompileOutcome {
        start,
        include_memory: m2,
        include_summary: s1,
        warnings: (if drop_summary {
            seq![warning_summary_omitted()]
        } else {
            Seq::empty()
        }) + (if drop_memory {
            seq![warning_memory_omitted()]
        } else {
            Seq::empty()
        }) + (if est > inp.target {
            seq![warning_over_budget(est, inp.target)]
        } else {
            Seq::empty()
        }),
    }
}

/// The outcome of a compilation: the start is the first from the initial
/// one (all but the most recent `recent_turns`) whose full pack fits, or
/// the last turn.
pub open spec fn compile_outcome(inp: PackInputs) -> CompileOutcome {
    outcome_at(inp, choose_start(inp, initial_start(inp), min_start(inp)))
}

pub open spec fn pack_inputs(
    transcript: ConversationTranscript,
    memory: WorkingMemory,
    model: Seq<char>,
    policy: ContextPolicy,
) -> PackInputs {
    let preserve = spec_preserves_reasoning(model, policy.reasoning_policy);
    PackInputs {
        system_prompt: transcript@.system_prompt,
        turns: transcript@.turns,
        memory,
        policy,
        preserve,
        label: if preserve {
            "preserve"@
        } else {
            "omit_when_supported"@
        },
        target: spec_target_tokens(
            spec_window_or_default(model) as int,
            policy.target_ratio_permille as int,
            policy.reserved_completion_tokens as int,
        ),
        reserved: policy.reserved_completion_tokens as int,
    }
}

/// The report of a compilation with the context feature off.
pub open spec fn legacy_report(inp: PackInputs, messages: Seq<MessageModel>) -> ReportModel {
    ReportModel {
        estimated_prompt_tokens: spec_estimate_messages(messages),
        target_prompt_tokens: inp.target,
        reserved_completion_tokens: inp.reserved,
        included_recent_turns: inp.turns.len() as int,
        summarized_turns: 0,
        included_tool_exchanges: exchange_total(inp.turns),
        summarized_tool_exchanges: 0,
        reasoning_policy: "legacy"@,
        preserved_reasoning_messages: reasoning_total(inp.turns),
        summarized_reasoning_messages: 0,
        warnings: Seq::empty(),
    }
}

struct BuiltPack {
    messages: Vec<ChatMessage>,
    report: ContextCompileReport,
    has_memory: bool,
    has_summary: bool,
}

proof fn lemma_summarized_idempotent(t: TurnModel, m: int)
    ensures
        summarized_turn(summarized_turn(t, m), m) == summarized_turn(t, m),
        turn_summary_text(summarized_turn(t, m), m) == turn_summary_text(t, m),
{
}

proof fn lemma_summarize_prefix_twice(ts: Seq<TurnModel>, a: int, b: int, m: int)
    requires
        a <= b,
    ensures
        summarize_prefix(summarize_prefix(ts, a, m), b, m) == summarize_prefix(ts, b, m),
{
    let l = summarize_prefix(summarize_prefix(ts, a, m), b, m);
    let r = summarize_prefix(ts, b, m);
    assert forall|k: int| 0 <= k < ts.len() implies l[k] == r[k] by {
        if k < a {
            lemma_summarized_idempotent(ts[k], m);
        }
    }
    assert(l =~= r);
}

/// A pack does not depend on which turns before its start were summarized.
proof fn lemma_pack_ignores_summaries(inp: PackInputs, a: int, start: int, mm: bool, ss: bool)
    requires
        0 <= a <= start <= inp.turns.len(),
    ensures
        pack(
            PackInputs {
                turns: summarize_prefix(inp.turns, a, inp.policy.max_tool_exchange_tokens as int),
                ..inp
            },
            start,
            mm,
            ss,
        ) == pack(inp, start, mm, ss),
        pack_report(
            PackInputs {
                turns: summarize_prefix(inp.turns, a, inp.policy.max_tool_exchange_tokens as int),
                ..inp
            },
            start,
            mm,
            ss,
        ) == pack_report(inp, start, mm, ss),
{
    let m = inp.policy.max_tool_exchange_tokens as int;
    let ts2 = summarize_prefix(inp.turns, a, m);
    let inp2 = PackInputs { turns: ts2, ..inp };
    let n = inp.turns.len() as int;
    assert(ts2.subrange(start, n) =~= inp.turns.subrange(start, n));
    let f = |t: TurnModel| turn_summary_text(t, m);
    assert forall|k: int| 0 <= k < start implies #[trigger] ts2.take(start).map_values(f)[k]
        == inp.turns.take(start).map_values(f)[k] by {
        if k < a {
            lemma_summarized_idempotent(inp.turns[k], m);
        }
    }
    assert(ts2.take(start).map_values(f) =~= inp.turns.take(start).map_values(f));
    assert(history_summary(ts2, start, inp.policy) == history_summary(inp.turns, start, inp.policy));
    assert(pack(inp2, start, mm, ss) == pack(inp, start, mm, ss));
    lemma_totals_ignore_summaries(inp.turns, a, start, m);
}

proof fn lemma_totals_ignore_summaries(ts: Seq<TurnModel>, a: int, start: int, m: int)
    requires
        0 <= a <= start <= ts.len(),
    ensures
        exchange_total(summarize_prefix(ts, a, m).take(start)) == exchange_total(ts.take(start)),
        reasoning_total(summarize_prefix(ts, a, m).take(start)) == reasoning_total(ts.take(start)),
    decreases start,
{
    let ts2 = summarize_prefix(ts, a, m);
    if start > 0 {
        if a == start {
            lemma_totals_ignore_summaries(ts, a - 1, start - 1, m);
            let ts3 = summarize_prefix(ts, a - 1, m);
            assert(ts2.take(start).drop_last() =~= ts3.take(start - 1)) by {
                assert forall|k: int| 0 <= k < start - 1 implies ts2.take(start).drop_last()[k]
                    == ts3.take(start - 1)[k] by {}
            }
        } else {
            lemma_totals_ignore_summaries(ts, a, start - 1, m);
            assert(ts2.take(start).drop_last() =~= ts2.take(start - 1));
        }
        assert(ts.take(start).drop_last() =~= ts.take(start - 1));
    } else {
        assert(ts2.take(0) =~= ts.take(0));
    }
}

fn exchange_total_exec(turns: &[ConversationTurn], from: usize, to: usize) -> (r: usize)
    requires
        from <= to <= turns@.len(),
    ensures
        r == exchange_total(turn_views(turns@).subrange(from as int, to as int)),
{
    let ghost ts = turn_views(turns@);
    let mut total: usize = 0;
    let mut i: usize = from;
    while i < to
        invariant
            from <= i <= to <= turns@.len(),
            ts == turn_views(turns@),
            total == exchange_total(ts.subrange(from as int, i as int)),
        decreases to - i,
    {
        proof {
            assert(ts.subrange(from as int, i + 1).drop_last() =~= ts.subrange(from as int, i as int));
        }
        total = total.saturating_add(turns[i].tool_exchange_count());
        i = i + 1;
    }
    total
}

fn reasoning_total_exec(turns: &[ConversationTurn], from: usize, to: usize) -> (r: usize)
    requires
        from <= to <= turns@.len(),
    ensures
        r == reasoning_total(turn_views(turns@).subrange(from as int, to as int)),
{
    let ghost ts = turn_views(turns@);
    let mut total: usize = 0;
    let mut i: usize = from;
    while i < to
        invariant
            from <= i <= to <= turns@.len(),
            ts == turn_views(turns@),
            total == reasoning_total(ts.subrange(from as int, i as int)),
        decreases to - i,
    {
        proof {
            assert(ts.subrange(from as int, i + 1).drop_last() =~= ts.subrange(from as int, i as int));
        }
        total = total.saturating_add(turns[i].reasoning_message_count());
        i = i + 1;
    }
    total
}

/// Turns `from..` as messages.
fn recent_messages(turns: &[ConversationTurn], from: usize, preserve: bool, out: &mut Vec<ChatMessage>)
    requires
        from <= turns@.len(),
    ensures
        message_views(final(out)@) == message_views(old(out)@) + turns_messages(
            turn_views(turns@).subrange(from as int, turns@.len() as int),
            preserve,
        ),
{
    let ghost ts = turn_views(turns@);
    let ghost start = message_views(out@);
    let mut i: usize = from;
    while i < turns.len()
        invariant
            from <= i <= turns@.len(),
            ts == turn_views(turns@),
            message_views(out@) == start + turns_messages(ts.subrange(from as int, i as int), preserve),
        decreases turns.len() - i,
    {
        let part = turns[i].to_messages(preserve);
        append_messages(out, part);
        proof {
            let s = ts.subrange(from as int, i + 1);
            assert(s.drop_last() =~= ts.subrange(from as int, i as int));
            assert(s.last() == turns@[i as int]@);
            assert(message_views(out@) =~= start + turns_messages(s, preserve));
        }
        i = i + 1;
    }
}

fn sat_add3(a: usize, b: usize) -> (r: usize)
    ensures
        r == sat(a + b),
{
    a.saturating_add(b)
}

impl ContextCompiler {
    pub fn new(policy: ContextPolicy, estimator: TokenEstimator) -> (c: Self)
        ensures
            c.policy == policy,
    {
        ContextCompiler { policy, estimator }
    }

    /// Marks turn `k` summarized, giving it its fallback summary when it had
    /// none, and returns its summary text.
    fn summarize_turn_at(&self, turns: &mut Vec<ConversationTurn>, k: usize) -> (r: Vec<char>)
        requires
            k < old(turns)@.len(),
        ensures
            turn_views(final(turns)@) == turn_views(old(turns)@).update(
                k as int,
                summarized_turn(old(turns)@[k as int]@, self.policy.max_tool_exchange_tokens as int),
            ),
            r@ == turn_summary_text(old(turns)@[k as int]@, self.policy.max_tool_exchange_tokens as int),
    {
        let ghost before = turns@;
        let mut turn = turns.remove(k);
        turn.retention = RetentionClass::Summarized;
        let needs = match &turn.summary {
            Some(_) => false,
            None => true,
        };
        if needs {
            let s = fallback_turn_summary(&turn, self.policy.max_tool_exchange_tokens, &self.estimator);
            turn.summary = Some(s);
        }
        let text = match &turn.summary {
            Some(s) => str_chars(s.content.as_str()),
            None => Vec::new(),
        };
        let ghost newt = turn@;
        turns.insert(k, turn);
        proof {
            assert(turn_views(turns@) =~= turn_views(before).update(k as int, newt));
        }
        text
    }

    /// Folds the first `full_start` turns into the history summary.
    fn history_summary_message(&self, transcript: &mut ConversationTranscript, full_start: usize) -> (r:
        String)
        requires
            full_start <= old(transcript)@.turns.len(),
        ensures
            final(transcript)@.system_prompt == old(transcript)@.system_prompt,
            final(transcript)@.turns == summarize_prefix(
                old(transcript)@.turns,
                full_start as int,
                self.policy.max_tool_exchange_tokens as int,
            ),
            r@ == history_summary(old(transcript)@.turns, full_start as int, self.policy),
    {
        let ghost ts = old(transcript)@.turns;
        let ghost m = self.policy.max_tool_exchange_tokens as int;
        let mut summaries: Vec<Vec<char>> = Vec::new();
        let mut k: usize = 0;
        assert(summarize_prefix(ts, 0, m) =~= ts);
        assert(ts.take(0).map_values(|t: TurnModel| turn_summary_text(t, m)) =~= views(summaries@));
        while k < full_start
            invariant
                k <= full_start <= ts.len(),
                transcript@.system_prompt == old(transcript)@.system_prompt,
                m == self.policy.max_tool_exchange_tokens as int,
                transcript@.turns == summarize_prefix(ts, k as int, m),
                transcript.turns@.len() == ts.len(),
                views(summaries@) == ts.take(k as int).map_values(
                    |t: TurnModel| turn_summary_text(t, m),
                ),
            decreases full_start - k,
        {
            let ghost cur = transcript@.turns;
            let text = self.summarize_turn_at(&mut transcript.turns, k);
            let ghost sv = views(summaries@);
            summaries.push(text);
            proof {
                assert(cur[k as int] == ts[k as int]);
                assert(transcript@.turns =~= summarize_prefix(ts, k + 1, m));
                assert(views(summaries@) =~= sv.push(turn_summary_text(ts[k as int], m)));
                assert(ts.take(k + 1) =~= ts.take(k as int).push(ts[k as int]));
                assert(ts.take(k + 1).map_values(|t: TurnModel| turn_summary_text(t, m))
                    =~= ts.take(k as int).map_values(|t: TurnModel| turn_summary_text(t, m)).push(
                    turn_summary_text(ts[k as int], m),
                ));
            }
            k = k + 1;
        }
        let mut content = str_chars(
            "Previous conversation summary. This message is compressed context, not a new request.\n\n",
        );
        let sep = str_chars("\n\n");
        let joined = join_vecs(&summaries, sep.as_slice());
        append_chars(&mut content, joined.as_slice());
        let text = string_from_chars(content.as_slice());
        self.estimator.truncate_text_to_tokens(text.as_str(), self.policy.max_summary_tokens)
    }

    #[verifier::rlimit(60)]
    fn build_pack(
        &self,
        transcript: &mut ConversationTranscript,
        memory: &WorkingMemory,
        budget: &ContextBudget,
        full_start: usize,
        include_memory: bool,
        include_summary: bool,
        Ghost(inp): Ghost<PackInputs>,
    ) -> (p: BuiltPack)
        requires
            inp.system_prompt == old(transcript)@.system_prompt,
            inp.turns == old(transcript)@.turns,
            inp.memory == *memory,
            inp.policy == self.policy,
            inp.preserve == budget.preserve_reasoning_content,
            inp.label == budget.reasoning_policy_label@,
            inp.target == budget.target_prompt_tokens,
            inp.reserved == budget.reserved_completion_tokens,
            full_start <= old(transcript)@.turns.len(),
        ensures
            final(transcript)@.system_prompt == old(transcript)@.system_prompt,
            final(transcript)@.turns == if include_summary && full_start > 0 {
                summarize_prefix(
                    old(transcript)@.turns,
                    full_start as int,
                    self.policy.max_tool_exchange_tokens as int,
                )
            } else {
                old(transcript)@.turns
            },
            message_views(p.messages@) == pack(
                inp,
                full_start as int,
                include_memory,
                include_summary,
            ).messages,
            p.has_memory == pack(inp, full_start as int, include_memory, include_summary).has_memory,
            p.has_summary == pack(
                inp,
                full_start as int,
                include_memory,
                include_summary,
            ).has_summary,
            p.report@ == pack_report(inp, full_start as int, include_memory, include_summary),
    {
        let mut messages: Vec<ChatMessage> = Vec::new();
        messages.push(ChatMessage::system(String::from_str(transcript.system_prompt())));
        let mut has_memory = false;
        let mut has_summary = false;
        let turn_count = transcript.turns.len();
        if include_memory {
            match memory.to_context_message(&self.estimator, self.policy.max_memory_tokens) {
                Some(m) => {
                    has_memory = true;
                    messages.push(m);
                },
                None => {},
            }
        }
        let summarized_tool_exchanges = exchange_total_exec(transcript.turns.as_slice(), 0, full_start);
        let summarized_reasoning = reasoning_total_exec(transcript.turns.as_slice(), 0, full_start);
        proof {
            assert(turn_views(transcript.turns@).subrange(0, full_start as int) =~= inp.turns.take(
                full_start as int,
            ));
        }
        let ghost mid = message_views(messages@);
        if include_summary && full_start > 0 {
            let summary = self.history_summary_message(transcript, full_start);
            let sv = str_chars(summary.as_str());
            let t = trim_vec(sv.as_slice());
            if t.len() > 0 {
                has_summary = true;
                messages.push(ChatMessage::user(summary));
            }
        }
        let ghost after_summary = message_views(messages@);
        proof {
            let n = inp.turns.len() as int;
            assert(transcript@.turns.len() == n);
            assert(transcript.turns@.len() == turn_count);
            assert(turn_views(transcript.turns@).subrange(full_start as int, n) =~= inp.turns.subrange(
                full_start as int,
                n,
            ));
        }
        let included_tool_exchanges = exchange_total_exec(
            transcript.turns.as_slice(),
            full_start,
            turn_count,
        );
        let recent_reasoning = reasoning_total_exec(transcript.turns.as_slice(), full_start, turn_count);
        let (preserved, omitted) = if budget.preserve_reasoning_content {
            (recent_reasoning, 0usize)
        } else {
            (0usize, recent_reasoning)
        };
        recent_messages(transcript.turns.as_slice(), full_start, budget.preserve_reasoning_content, &mut messages);
        assert(message_views(messages@) =~= pack(
            inp,
            full_start as int,
            include_memory,
            include_summary,
        ).messages);
        let estimated_prompt_tokens = self.estimator.estimate_messages(messages.as_slice());
        let report = ContextCompileReport {
            estimated_prompt_tokens,
            target_prompt_tokens: budget.target_prompt_tokens,
            reserved_completion_tokens: budget.reserved_completion_tokens,
            included_recent_turns: turn_count - full_start,
            summarized_turns: full_start,
            included_tool_exchanges,
            summarized_tool_exchanges,
            reasoning_policy: budget.reasoning_policy_label.clone(),
            preserved_reasoning_messages: preserved,
            summarized_reasoning_messages: sat_add3(summarized_reasoning, omitted),
            warnings: Vec::new(),
        };
        assert(string_views(report.warnings@) =~= Seq::<Seq<char>>::empty());
        BuiltPack { messages, report, has_memory, has_summary }
    }

    /// Builds full packs from the initial start on, one turn later each
    /// time, until one fits the target or only the last turn is left.
    #[verifier::rlimit(60)]
    fn first_fitting_pack(
        &self,
        transcript: &mut ConversationTranscript,
        memory: &WorkingMemory,
        budget: &ContextBudget,
        Ghost(inp): Ghost<PackInputs>,
    ) -> (r: (BuiltPack, usize))
        requires
            inp.system_prompt == old(transcript)@.system_prompt,
            inp.turns == old(transcript)@.turns,
            inp.memory == *memory,
            inp.policy == self.policy,
            inp.preserve == budget.preserve_reasoning_content,
            inp.label == budget.reasoning_policy_label@,
            inp.target == budget.target_prompt_tokens,
            inp.reserved == budget.reserved_completion_tokens,
        ensures
            r.1 == choose_start(inp, initial_start(inp), min_start(inp)),
            r.1 <= inp.turns.len(),
            final(transcript)@.system_prompt == inp.system_prompt,
            final(transcript)@.turns == summarize_prefix(
                inp.turns,
                r.1 as int,
                self.policy.max_tool_exchange_tokens as int,
            ),
            message_views(r.0.messages@) == pack(inp, r.1 as int, true, true).messages,
            r.0.has_memory == pack(inp, r.1 as int, true, true).has_memory,
            r.0.has_summary == pack(inp, r.1 as int, true, true).has_summary,
            r.0.report@ == pack_report(inp, r.1 as int, true, true),
    {
        let turn_count = transcript.turns.len();
        let min_full_start = turn_count.saturating_sub(1);
        let keep = if self.policy.recent_turns >= 1 {
            self.policy.recent_turns
        } else {
            1
        };
        let mut full_start = turn_count.saturating_sub(keep);
        let ghost m = self.policy.max_tool_exchange_tokens as int;
        let mut built = self.build_pack(transcript, memory, budget, full_start, true, true, Ghost(inp));
        proof {
            assert(summarize_prefix(inp.turns, 0, m) =~= inp.turns);
        }
        while built.report.estimated_prompt_tokens > budget.target_prompt_tokens && full_start
            < min_full_start
            invariant
                initial_start(inp) <= full_start <= min_full_start <= turn_count,
                turn_count == inp.turns.len(),
                min_full_start == min_start(inp),
                m == self.policy.max_tool_exchange_tokens as int,
                inp.memory == *memory,
                inp.policy == self.policy,
                budget.target_prompt_tokens == inp.target,
                budget.reserved_completion_tokens == inp.reserved,
                budget.preserve_reasoning_content == inp.preserve,
                budget.reasoning_policy_label@ == inp.label,
                transcript@.system_prompt == inp.system_prompt,
                transcript@.turns == summarize_prefix(inp.turns, full_start as int, m),
                choose_start(inp, initial_start(inp), min_start(inp)) == choose_start(
                    inp,
                    full_start as int,
                    min_start(inp),
                ),
                message_views(built.messages@) == pack(inp, full_start as int, true, true).messages,
                built.has_memory == pack(inp, full_start as int, true, true).has_memory,
                built.has_summary == pack(inp, full_start as int, true, true).has_summary,
                built.report@ == pack_report(inp, full_start as int, true, true),
            decreases min_full_start - full_start,
        {
            let ghost cur = transcript@.turns;
            full_start = full_start + 1;
            built = self.build_pack(
                transcript,
                memory,
                budget,
                full_start,
                true,
                true,
                Ghost(PackInputs { turns: cur, ..inp }),
            );
            proof {
                reveal(full_pack_exceeds);
                lemma_pack_ignores_summaries(inp, full_start - 1, full_start as int, true, true);
                lemma_summarize_prefix_twice(inp.turns, full_start - 1, full_start as int, m);
            }
        }
        proof {
            reveal(full_pack_exceeds);
        }
        (built, full_start)
    }

    /// Drops the summary and then the memory while the pack exceeds the
    /// target, with the warnings of `outcome_at`.
    #[verifier::rlimit(60)]
    fn shed_to_budget(
        &self,
        transcript: &mut ConversationTranscript,
        memory: &WorkingMemory,
        budget: &ContextBudget,
        start: usize,
        built: BuiltPack,
        Ghost(inp): Ghost<PackInputs>,
    ) -> (r: BuiltPack)
        requires
            inp.system_prompt == old(transcript)@.system_prompt,
            inp.memory == *memory,
            inp.policy == self.policy,
            inp.preserve == budget.preserve_reasoning_content,
            inp.label == budget.reasoning_policy_label@,
            inp.target == budget.target_prompt_tokens,
            inp.reserved == budget.reserved_completion_tokens,
            start <= inp.turns.len(),
            old(transcript)@.turns == summarize_prefix(
                inp.turns,
                start as int,
                self.policy.max_tool_exchange_tokens as int,
            ),
            message_views(built.messages@) == pack(inp, start as int, true, true).messages,
            built.has_memory == pack(inp, start as int, true, true).has_memory,
            built.has_summary == pack(inp, start as int, true, true).has_summary,
            built.report@ == pack_report(inp, start as int, true, true),
        ensures
            final(transcript)@ == old(transcript)@,
            message_views(r.messages@) == pack(
                inp,
                start as int,
                outcome_at(inp, start as int).include_memory,
                outcome_at(inp, start as int).include_summary,
            ).messages,
            r.report@ == (ReportModel {
                warnings: outcome_at(inp, start as int).warnings,
                ..pack_report(
                    inp,
                    start as int,
                    outcome_at(inp, start as int).include_memory,
                    outcome_at(inp, start as int).include_summary,
                )
            }),
    {
        let mut built = built;
        let ghost cur = transcript@.turns;
        let ghost cur_inp = PackInputs { turns: cur, ..inp };
        if built.report.estimated_prompt_tokens > budget.target_prompt_tokens && built.has_summary {
            built = self.build_pack(transcript, memory, budget, start, true, false, Ghost(cur_inp));
            proof {
                lemma_pack_ignores_summaries(inp, start as int, start as int, true, false);
            }
            let ghost w = string_views(built.report.warnings@);
            built.report.warnings.push(
                String::from_str(
                    "history summaries were omitted because the current turn exceeded the target budget",
                ),
            );
            assert(string_views(built.report.warnings@) =~= w.push(warning_summary_omitted()));
        }
        if built.report.estimated_prompt_tokens > budget.target_prompt_tokens && built.has_memory {
            let ghost w0 = string_views(built.report.warnings@);
            let mut next = self.build_pack(
                transcript,
                memory,
                budget,
                start,
                false,
                false,
                Ghost(cur_inp),
            );
            proof {
                lemma_pack_ignores_summaries(inp, start as int, start as int, false, false);
            }
            next.report.warnings = built.report.warnings;
            built = next;
            let ghost w = string_views(built.report.warnings@);
            built.report.warnings.push(
                String::from_str(
                    "working memory was omitted because the current turn exceeded the target budget",
                ),
            );
            assert(string_views(built.report.warnings@) =~= w.push(warning_memory_omitted()));
            assert(w == w0);
        }
        if built.report.estimated_prompt_tokens > budget.target_prompt_tokens {
            let mut v = str_chars("compiled context is over target budget: estimated=");
            append_chars(&mut v, decimal_chars(built.report.estimated_prompt_tokens as u64).as_slice());
            append_str(&mut v, " target=");
            append_chars(&mut v, decimal_chars(budget.target_prompt_tokens as u64).as_slice());
            let ghost w = string_views(built.report.warnings@);
            built.report.warnings.push(string_from_chars(v.as_slice()));
            assert(string_views(built.report.warnings@) =~= w.push(
                warning_over_budget(
                    built.report.estimated_prompt_tokens as int,
                    budget.target_prompt_tokens as int,
                ),
            ));
        }
        assert(string_views(built.report.warnings@) =~= outcome_at(inp, start as int).warnings);
        built
    }

    /// Compiles the request messages for `model`.  With the context feature
    /// off, the whole transcript is sent.  Fails when the messages are not
    /// protocol safe.  The turns folded into the history summary are marked
    /// summarized in the transcript and keep their summaries.
    pub fn compile(
        &self,
        transcript: &mut ConversationTranscript,
        memory: &WorkingMemory,
        model: &str,
        input: CompileInput,
    ) -> (r: Result<CompiledContext, ProtocolError>)
        ensures
            final(transcript)@.system_prompt == old(transcript)@.system_prompt,
            ({
                let inp = pack_inputs(*old(transcript), *memory, model@, self.policy);
                if !self.policy.enabled {
                    let ms = spec_legacy_messages(old(transcript)@);
                    &&& final(transcript)@ == old(transcript)@
                    &&& match r {
                        Ok(c) => spec_validate(ms) is Ok && message_views(c.messages@) == ms
                            && c.report@ == legacy_report(inp, ms),
                        Err(e) => spec_validate(ms) == Err::<(), ProtocolFault>(e@),
                    }
                } else {
                    let o = compile_outcome(inp);
                    let ms = pack(inp, o.start, o.include_memory, o.include_summary).messages;
                    &&& final(transcript)@.turns == summarize_prefix(
                        old(transcript)@.turns,
                        o.start,
                        self.policy.max_tool_exchange_tokens as int,
                    )
                    &&& match r {
                        Ok(c) => spec_validate(ms) is Ok && message_views(c.messages@) == ms
                            && c.report@ == (ReportModel {
                            warnings: o.warnings,
                            ..pack_report(inp, o.start, o.include_memory, o.include_summary)
                        }),
                        Err(e) => spec_validate(ms) == Err::<(), ProtocolFault>(e@),
                    }
                }
            }),
    {
        let budget = ContextBudget::for_model(model, &self.policy);
        let ghost inp = pack_inputs(*transcript, *memory, model@, self.policy);
        if !self.policy.enabled {
            let messages = transcript.to_legacy_messages();
            match validate_protocol_safe_messages(messages.as_slice()) {
                Err(e) => {
                    return Err(e);
                },
                Ok(()) => {},
            }
            let n = transcript.turns.len();
            let report = ContextCompileReport {
                estimated_prompt_tokens: self.estimator.estimate_messages(messages.as_slice()),
                target_prompt_tokens: budget.target_prompt_tokens,
                reserved_completion_tokens: budget.reserved_completion_tokens,
                included_recent_turns: n,
                summarized_turns: 0,
                included_tool_exchanges: exchange_total_exec(transcript.turns.as_slice(), 0, n),
                summarized_tool_exchanges: 0,
                reasoning_policy: String::from_str("legacy"),
                preserved_reasoning_messages: reasoning_total_exec(transcript.turns.as_slice(), 0, n),
                summarized_reasoning_messages: 0,
                warnings: Vec::new(),
            };
            proof {
                assert(turn_views(transcript.turns@).subrange(0, n as int) =~= inp.turns);
                assert(string_views(report.warnings@) =~= Seq::<Seq<char>>::empty());
            }
            return Ok(CompiledContext { messages, report });
        }
        let (built, start) = self.first_fitting_pack(transcript, memory, &budget, Ghost(inp));
        let built = self.shed_to_budget(transcript, memory, &budget, start, built, Ghost(inp));
        match validate_protocol_safe_messages(built.messages.as_slice()) {
            Err(e) => Err(e),
            Ok(()) => Ok(CompiledContext { messages: built.messages, report: built.report }),
        }
    }
}

pub struct ContextCompiler {
    pub policy: ContextPolicy,
    pub estimator: TokenEstimator,
}

// ---------------------------------------------------------------------------
// Laws.
// ---------------------------------------------------------------------------

/// Message `i` is a tool message that answers a call of an earlier
/// assistant message, with only tool messages between the two.
pub open spec fn answers_earlier_call(ms: Seq<MessageModel>, i: int) -> bool {
    exists|j: int|
        #![trigger call_ids(ms[j])]
        0 <= j < i && ms[j].role == "assistant"@ && ms[i].tool_call_id is Some && call_ids(
            ms[j],
        ).contains(ms[i].tool_call_id->0) && forall|l: int| j < l < i ==> (#[trigger] ms[l]).role
            == "tool"@
}

pub open spec fn check_invariant(ms: Seq<MessageModel>, n: int, st: CheckState) -> bool {
    &&& forall|i: int| 0 <= i < n && (#[trigger] ms[i]).role == "tool"@ ==> answers_earlier_call(ms, i)
    &&& st.expected.len() > 0 ==> exists|j: int|
        #![trigger call_ids(ms[j])]
        0 <= j < n && ms[j].role == "assistant"@ && call_ids(ms[j]) == st.expected && forall|l: int|
            j < l < n ==> (#[trigger] ms[l]).role == "tool"@
}

proof fn lemma_check_invariant(ms: Seq<MessageModel>, n: int)
    requires
        0 <= n <= ms.len(),
        check_prefix(ms, n) is Ok,
    ensures
        check_invariant(ms, n, check_prefix(ms, n)->Ok_0),
    decreases n,
{
    if n > 0 {
        lemma_check_invariant(ms, n - 1);
        let st = check_prefix(ms, n - 1)->Ok_0;
        let st2 = check_prefix(ms, n)->Ok_0;
        let m = ms[n - 1];
        reveal_strlit("tool");
        reveal_strlit("assistant");
        assert("tool"@ != "assistant"@) by {
            assert("tool"@.len() != "assistant"@.len());
        }
        assert(check_prefix(ms, n) == check_step(m, n - 1, st));
        if m.role == "tool"@ {
            let id = m.tool_call_id->0;
            assert(st.expected.contains(id));
            assert(st.expected.len() > 0);
            let j = choose|j: int|
                #![trigger call_ids(ms[j])]
                0 <= j < n - 1 && ms[j].role == "assistant"@ && call_ids(ms[j]) == st.expected
                    && forall|l: int| j < l < n - 1 ==> (#[trigger] ms[l]).role == "tool"@;
            assert(call_ids(ms[j]).contains(id));
            assert forall|l: int| j < l < n implies (#[trigger] ms[l]).role == "tool"@ by {}
            assert(answers_earlier_call(ms, n - 1));
            if st2.expected.len() > 0 {
                assert(call_ids(ms[j]) == st2.expected);
            }
        } else if m.role == "assistant"@ && call_ids(m).len() > 0 {
            assert(call_ids(ms[n - 1]) == st2.expected);
        }
    }
}

/// A message list that passes the protocol check has no orphan tool
/// message: every tool message answers a call of an earlier assistant
/// message, and only tool messages stand between the two.
pub proof fn lemma_validated_messages_have_no_orphans(ms: Seq<MessageModel>)
    requires
        spec_validate(ms) is Ok,
    ensures
        forall|i: int|
            0 <= i < ms.len() && (#[trigger] ms[i]).role == "tool"@ ==> answers_earlier_call(ms, i),
{
    lemma_check_invariant(ms, ms.len() as int);
}

/// A compiled request never holds an orphan tool message.
pub proof fn lemma_compiled_messages_have_no_orphans(ms: Seq<MessageModel>, c: CompiledContext)
    requires
        message_views(c.messages@) == ms,
        spec_validate(ms) is Ok,
    ensures
        forall|i: int|
            0 <= i < c.messages@.len() && (#[trigger] ms[i]).role == "tool"@
                ==> answers_earlier_call(ms, i),
{
    lemma_validated_messages_have_no_orphans(ms);
}

/// The start of the turns kept in full is the first from `start` on whose
/// full pack fits the target; every earlier start exceeded it, and a later
/// start is taken only while the last turn is not yet reached.
pub proof fn lemma_choose_start_is_first_fitting(inp: PackInputs, start: int, last: int)
    requires
        start <= last,
    ensures
        start <= choose_start(inp, start, last) <= last,
        forall|k: int|
            start <= k < choose_start(inp, start, last) ==> #[trigger] full_pack_exceeds(inp, k),
        choose_start(inp, start, last) == last || !full_pack_exceeds(
            inp,
            choose_start(inp, start, last),
        ),
    decreases last - start,
{
    if start < last && full_pack_exceeds(inp, start) {
        lemma_choose_start_is_first_fitting(inp, start + 1, last);
    }
}

} // verus!
