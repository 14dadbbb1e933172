//! Plain-text summaries of turns and tool exchanges, written without a model.
use vstd::prelude::*;
use vstd::string::*;
use crate::api::{ToolCall, ToolCallModel, tool_call_views};
use crate::context::budget::{TokenEstimator, max_int, spec_truncate_to_tokens};
use crate::context::transcript::{
    ConversationTurn, ExchangeModel, ToolExchange, ToolExchangeStatus, ToolExchangeSummary,
    ToolResultModel, TranscriptToolResult, TurnModel, TurnSummary, exchange_calls, exchange_views,
    result_views,
};
use crate::text::{
    append_chars, append_str, decimal, decimal_chars, join, join_vecs, replace_char,
    replace_char_vec, str_chars, str_eq, string_from_chars, trim, trim_vec, views,
};

verus! {

pub open spec fn bool_text(b: bool) -> Seq<char> {
    if b {
        "true"@
    } else {
        "false"@
    }
}

pub open spec fn status_text(s: ToolExchangeStatus) -> Seq<char> {
    match s {
        ToolExchangeStatus::Pending => "Pending"@,
        ToolExchangeStatus::Completed => "Completed"@,
    }
}

/// Continuation lines are indented under a list item.
pub open spec fn indent(s: Seq<char>) -> Seq<char> {
    replace_char(s, '\n', "\n  "@)
}

/// The name of the first call with the given id, or `unknown_tool`.
pub open spec fn tool_name_for(calls: Seq<ToolCallModel>, id: Seq<char>) -> Seq<char>
    decreases calls.len(),
{
    if calls.len() == 0 {
        "unknown_tool"@
    } else if calls[0].id == id {
        calls[0].name
    } else {
        tool_name_for(calls.drop_first(), id)
    }
}

pub open spec fn call_line(c: ToolCallModel) -> Seq<char> {
    "- model requested: "@ + c.name + "("@ + spec_truncate_to_tokens(c.arguments, 512) + ")"@
}

/// The excerpt budget of a result: half the exchange budget, at least 256.
pub open spec fn excerpt_budget(max_tool_exchange_tokens: int) -> int {
    max_int(max_tool_exchange_tokens / 2, 256)
}

pub open spec fn result_lines(
    calls: Seq<ToolCallModel>,
    r: ToolResultModel,
    max_tool_exchange_tokens: int,
) -> Seq<Seq<char>> {
    let excerpt = spec_truncate_to_tokens(r.content, excerpt_budget(max_tool_exchange_tokens));
    seq![
        "- result for "@ + tool_name_for(calls, r.tool_call_id) + ": original_chars="@ + decimal(
            r.metadata.original_chars as nat,
        ) + ", injected_chars="@ + decimal(r.metadata.injected_chars as nat) + ", truncated="@
            + bool_text(r.metadata.truncated),
    ] + match r.metadata.artifact_path {
        Some(p) => seq!["- artifact: "@ + p],
        None => Seq::empty(),
    } + if trim(excerpt).len() == 0 {
        Seq::<Seq<char>>::empty()
    } else {
        seq!["- excerpt: "@ + indent(excerpt)]
    }
}

pub open spec fn results_lines(
    calls: Seq<ToolCallModel>,
    rs: Seq<ToolResultModel>,
    max_tool_exchange_tokens: int,
) -> Seq<Seq<char>>
    decreases rs.len(),
{
    if rs.len() == 0 {
        Seq::empty()
    } else {
        results_lines(calls, rs.drop_last(), max_tool_exchange_tokens) + result_lines(
            calls,
            rs.last(),
            max_tool_exchange_tokens,
        )
    }
}

/// The lines of an exchange summary: a title, one line per call, the
/// status, then for each result its sizes, its artifact and an excerpt.
pub open spec fn exchange_summary_lines(e: ExchangeModel, max_tool_exchange_tokens: int) -> Seq<
    Seq<char>,
> {
    let calls = exchange_calls(e);
    seq!["Tool exchange summary:"@] + calls.map_values(|c: ToolCallModel| call_line(c)) + seq![
        "- status: "@ + status_text(e.status),
    ] + results_lines(calls, e.results, max_tool_exchange_tokens)
}

pub open spec fn spec_exchange_summary(e: ExchangeModel, max_tool_exchange_tokens: int) -> Seq<char> {
    join(exchange_summary_lines(e, max_tool_exchange_tokens), "\n"@)
}

pub open spec fn text_or_empty(o: Option<Seq<char>>) -> Seq<char> {
    match o {
        Some(s) => s,
        None => Seq::empty(),
    }
}

/// The lines of a turn summary: a title, the user message, each exchange
/// summary as a list item, and the answer.
pub open spec fn turn_summary_lines(t: TurnModel, max_tool_exchange_tokens: int) -> Seq<Seq<char>> {
    seq![
        "Turn "@ + t.id + " summary:"@,
        "- user: "@ + spec_truncate_to_tokens(text_or_empty(t.user.message.content), 1000),
    ] + t.exchanges.map_values(
        |e: ExchangeModel| "- "@ + indent(spec_exchange_summary(e, max_tool_exchange_tokens)),
    ) + match t.assistant {
        Some(a) => seq![
            "- assistant: "@ + spec_truncate_to_tokens(text_or_empty(a.message.content), 2000),
        ],
        None => Seq::empty(),
    }
}

pub open spec fn spec_turn_summary(t: TurnModel, max_tool_exchange_tokens: int) -> Seq<char> {
    join(turn_summary_lines(t, max_tool_exchange_tokens), "\n"@)
}

fn bool_text_exec(b: bool) -> (r: &'static str)
    ensures
        r@ == bool_text(b),
{
    if b {
        "true"
    } else {
        "false"
    }
}

fn indent_exec(v: &[char]) -> (r: Vec<char>)
    ensures
        r@ == indent(v@),
{
    let to = str_chars("\n  ");
    replace_char_vec(v, '\n', to.as_slice())
}

fn tool_name_for_exec(calls: &[ToolCall], id: &str) -> (r: Vec<char>)
    ensures
        r@ == tool_name_for(tool_call_views(calls@), id@),
{
    let mut i: usize = 0;
    assert(tool_call_views(calls@).subrange(0, calls@.len() as int) =~= tool_call_views(calls@));
    while i < calls.len()
        invariant
            i <= calls@.len(),
            tool_name_for(tool_call_views(calls@), id@) == tool_name_for(
                tool_call_views(calls@).subrange(i as int, calls@.len() as int),
                id@,
            ),
        decreases calls.len() - i,
    {
        let ghost rest = tool_call_views(calls@).subrange(i as int, calls@.len() as int);
        assert(rest[0] == calls@[i as int]@);
        if str_eq(calls[i].id.as_str(), id) {
            return str_chars(calls[i].function.name.as_str());
        }
        assert(rest.drop_first() =~= tool_call_views(calls@).subrange(i + 1, calls@.len() as int));
        i = i + 1;
    }
    str_chars("unknown_tool")
}

fn push_line(lines: &mut Vec<Vec<char>>, line: Vec<char>)
    ensures
        views(final(lines)@) == views(old(lines)@).push(line@),
{
    let ghost before = views(lines@);
    lines.push(line);
    assert(views(lines@) =~= before.push(line@));
}

fn decimal_usize(n: usize) -> (r: Vec<char>)
    ensures
        r@ == decimal(n as nat),
{
    decimal_chars(n as u64)
}

fn result_lines_exec(
    calls: &[ToolCall],
    r: &TranscriptToolResult,
    max_tool_exchange_tokens: usize,
    estimator: &TokenEstimator,
    lines: &mut Vec<Vec<char>>,
)
    ensures
        views(final(lines)@) == views(old(lines)@) + result_lines(
            tool_call_views(calls@),
            r@,
            max_tool_exchange_tokens as int,
        ),
{
    let ghost start = views(lines@);
    let mut first = str_chars("- result for ");
    let name = tool_name_for_exec(calls, r.tool_call_id.as_str());
    append_chars(&mut first, name.as_slice());
    append_str(&mut first, ": original_chars=");
    append_chars(&mut first, decimal_usize(r.metadata.original_chars).as_slice());
    append_str(&mut first, ", injected_chars=");
    append_chars(&mut first, decimal_usize(r.metadata.injected_chars).as_slice());
    append_str(&mut first, ", truncated=");
    append_str(&mut first, bool_text_exec(r.metadata.truncated));
    push_line(lines, first);
    let ghost after_first = views(lines@);
    match r.metadata.artifact_path_display() {
        Some(path) => {
            let mut line = str_chars("- artifact: ");
            append_str(&mut line, path.as_str());
            push_line(lines, line);
        },
        None => {},
    }
    let ghost after_artifact = views(lines@);
    let half = max_tool_exchange_tokens / 2;
    let budget = if half >= 256 {
        half
    } else {
        256
    };
    let excerpt = estimator.truncate_text_to_tokens(r.content.as_str(), budget);
    let ex = str_chars(excerpt.as_str());
    let trimmed = trim_vec(ex.as_slice());
    if trimmed.len() > 0 {
        let mut line = str_chars("- excerpt: ");
        let ind = indent_exec(ex.as_slice());
        append_chars(&mut line, ind.as_slice());
        push_line(lines, line);
    }
    assert(views(lines@) =~= start + result_lines(
        tool_call_views(calls@),
        r@,
        max_tool_exchange_tokens as int,
    ));
}

/// A summary of one tool exchange, with excerpts of its results.
pub fn fallback_tool_exchange_summary(
    exchange: &ToolExchange,
    max_tool_exchange_tokens: usize,
    estimator: &TokenEstimator,
) -> (s: ToolExchangeSummary)
    ensures
        s.content@ == spec_exchange_summary(exchange@, max_tool_exchange_tokens as int),
{
    let mut lines: Vec<Vec<char>> = Vec::new();
    push_line(&mut lines, str_chars("Tool exchange summary:"));
    let calls = exchange.tool_calls();
    let ghost cs = tool_call_views(calls@);
    let mut i: usize = 0;
    while i < calls.len()
        invariant
            i <= calls@.len(),
            cs == tool_call_views(calls@),
            cs == exchange_calls(exchange@),
            views(lines@) == seq!["Tool exchange summary:"@] + cs.take(i as int).map_values(
                |c: ToolCallModel| call_line(c),
            ),
        decreases calls.len() - i,
    {
        let mut line = str_chars("- model requested: ");
        append_str(&mut line, calls[i].function.name.as_str());
        append_str(&mut line, "(");
        let args = estimator.truncate_text_to_tokens(calls[i].function.arguments.as_str(), 512);
        append_str(&mut line, args.as_str());
        append_str(&mut line, ")");
        let ghost before = views(lines@);
        push_line(&mut lines, line);
        proof {
            assert(cs[i as int] == calls@[i as int]@);
            assert(cs.take(i + 1) =~= cs.take(i as int).push(cs[i as int]));
            assert(cs.take(i + 1).map_values(|c: ToolCallModel| call_line(c)) =~= cs.take(
                i as int,
            ).map_values(|c: ToolCallModel| call_line(c)).push(call_line(cs[i as int])));
        }
        i = i + 1;
    }
    assert(cs.take(calls@.len() as int) =~= cs);
    let mut status = str_chars("- status: ");
    match exchange.status {
        ToolExchangeStatus::Pending => append_str(&mut status, "Pending"),
        ToolExchangeStatus::Completed => append_str(&mut status, "Completed"),
    }
    push_line(&mut lines, status);
    let ghost head = views(lines@);
    let ghost rs = result_views(exchange.tool_results@);
    let mut j: usize = 0;
    while j < exchange.tool_results.len()
        invariant
            j <= exchange.tool_results@.len(),
            rs == result_views(exchange.tool_results@),
            cs == tool_call_views(calls@),
            views(lines@) == head + results_lines(
                cs,
                rs.take(j as int),
                max_tool_exchange_tokens as int,
            ),
        decreases exchange.tool_results.len() - j,
    {
        result_lines_exec(calls, &exchange.tool_results[j], max_tool_exchange_tokens, estimator, &mut lines);
        proof {
            assert(rs.take(j + 1).drop_last() =~= rs.take(j as int));
            assert(rs.take(j + 1).last() == exchange.tool_results@[j as int]@);
        }
        j = j + 1;
        assert(views(lines@) =~= head + results_lines(
            cs,
            rs.take(j as int),
            max_tool_exchange_tokens as int,
        ));
    }
    assert(rs.take(exchange.tool_results@.len() as int) =~= rs);
    assert(views(lines@) =~= exchange_summary_lines(exchange@, max_tool_exchange_tokens as int));
    let nl = str_chars("\n");
    let content = join_vecs(&lines, nl.as_slice());
    ToolExchangeSummary { content: string_from_chars(content.as_slice()) }
}

fn content_or_empty(o: &Option<String>) -> (r: &str)
    ensures
        r@ == text_or_empty(crate::api::opt_text(*o)),
{
    match o {
        Some(s) => s.as_str(),
        None => {
            proof {
                reveal_strlit("");
            }
            ""
        },
    }
}

/// A summary of one turn: its user message, its exchanges and its answer,
/// each cut to a token budget.
pub fn fallback_turn_summary(
    turn: &ConversationTurn,
    max_tool_exchange_tokens: usize,
    estimator: &TokenEstimator,
) -> (s: TurnSummary)
    ensures
        s.content@ == spec_turn_summary(turn@, max_tool_exchange_tokens as int),
{
    let mut lines: Vec<Vec<char>> = Vec::new();
    let mut title = str_chars("Turn ");
    append_str(&mut title, turn.id.as_str());
    append_str(&mut title, " summary:");
    push_line(&mut lines, title);
    let mut user = str_chars("- user: ");
    let u = estimator.truncate_text_to_tokens(content_or_empty(&turn.user.message.content), 1000);
    append_str(&mut user, u.as_str());
    push_line(&mut lines, user);
    let ghost head = views(lines@);
    let ghost es = exchange_views(turn.tool_exchanges@);
    let mut i: usize = 0;
    while i < turn.tool_exchanges.len()
        invariant
            i <= turn.tool_exchanges@.len(),
            es == exchange_views(turn.tool_exchanges@),
            views(lines@) == head + es.take(i as int).map_values(
                |e: ExchangeModel| "- "@ + indent(spec_exchange_summary(e, max_tool_exchange_tokens as int)),
            ),
        decreases turn.tool_exchanges.len() - i,
    {
        let summary = fallback_tool_exchange_summary(
            &turn.tool_exchanges[i],
            max_tool_exchange_tokens,
            estimator,
        );
        let mut line = str_chars("- ");
        let sc = str_chars(summary.content.as_str());
        let ind = indent_exec(sc.as_slice());
        append_chars(&mut line, ind.as_slice());
        push_line(&mut lines, line);
        proof {
            assert(es[i as int] == turn.tool_exchanges@[i as int]@);
            assert(es.take(i + 1) =~= es.take(i as int).push(es[i as int]));
        }
        i = i + 1;
        assert(views(lines@) =~= head + es.take(i as int).map_values(
            |e: ExchangeModel| "- "@ + indent(spec_exchange_summary(e, max_tool_exchange_tokens as int)),
        ));
    }
    assert(es.take(turn.tool_exchanges@.len() as int) =~= es);
    match &turn.assistant {
        Some(a) => {
            let mut line = str_chars("- assistant: ");
            let t = estimator.truncate_text_to_tokens(content_or_empty(&a.message.content), 2000);
            append_str(&mut line, t.as_str());
            push_line(&mut lines, line);
        },
        None => {},
    }
    assert(views(lines@) =~= turn_summary_lines(turn@, max_tool_exchange_tokens as int));
    let nl = str_chars("\n");
    let content = join_vecs(&lines, nl.as_slice());
    TurnSummary { content: string_from_chars(content.as_slice()) }
}

/// Something that can summarise a turn of the conversation.
pub trait ContextSummarizer {
    fn summarize_turn(&self, turn: &ConversationTurn) -> Result<TurnSummary, String>;
}

/// The summariser that needs no model: `fallback_turn_summary` with an
/// exchange budget of at least 512 tokens.
#[derive(Debug, Clone, Copy, Default)]
pub struct FallbackContextSummarizer {
    pub max_tool_exchange_tokens: usize,
}

impl ContextSummarizer for FallbackContextSummarizer {
    fn summarize_turn(&self, turn: &ConversationTurn) -> (r: Result<TurnSummary, String>)
        ensures
            r matches Ok(s) && s.content@ == spec_turn_summary(
                turn@,
                max_int(self.max_tool_exchange_tokens as int, 512),
            ),
    {
        let budget = if self.max_tool_exchange_tokens >= 512 {
            self.max_tool_exchange_tokens
        } else {
            512
        };
        Ok(fallback_turn_summary(turn, budget, &TokenEstimator))
    }
}

} // verus!
