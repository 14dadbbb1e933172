//! The conversation transcript: turns of a user message, tool exchanges and
//! an assistant reply.
//!
//! A tool exchange is an assistant message with tool calls and the tool
//! results that answer them; the transcript keeps each exchange together so
//! that the request always carries tool results right after the call.
use vstd::prelude::*;
use vstd::string::*;
use crate::api::{
    ChatMessage, ChoiceMessage, MessageModel, ToolCall, ToolCallModel, clone_calls, clone_text,
    message_views, opt_calls, opt_text, text_message, tool_call_views, tool_message,
};
use crate::context::budget::sat;
use crate::text::{append_str, new_ulid_text, str_chars, str_eq, string_from_chars};
use crate::tool_result_processor::{MetadataModel, ToolResultMetadata};

verus! {

/// A fresh id: the prefix, `_` and a ULID.
pub open spec fn is_fresh_id(id: Seq<char>, prefix: Seq<char>) -> bool {
    &&& id.len() == prefix.len() + 27
    &&& id.subrange(0, prefix.len() as int) == prefix
    &&& id[prefix.len() as int] == '_'
}

pub fn new_id(prefix: &str) -> (r: String)
    ensures
        is_fresh_id(r@, prefix@),
{
    let mut v = str_chars(prefix);
    append_str(&mut v, "_");
    let u = new_ulid_text();
    append_str(&mut v, u.as_str());
    proof {
        reveal_strlit("_");
        assert(v@.subrange(0, prefix@.len() as int) =~= prefix@);
    }
    string_from_chars(v.as_slice())
}

#[derive(Debug, Clone)]
pub struct TranscriptMessage {
    pub id: String,
    pub message: ChatMessage,
}

pub struct TranscriptMessageModel {
    pub id: Seq<char>,
    pub message: MessageModel,
}

impl View for TranscriptMessage {
    type V = TranscriptMessageModel;

    open spec fn view(&self) -> TranscriptMessageModel {
        TranscriptMessageModel { id: self.id@, message: self.message@ }
    }
}

/// The message as it is sent: an assistant message loses its reasoning
/// unless reasoning is preserved.
pub open spec fn spec_for_request(m: MessageModel, preserve_reasoning_content: bool) -> MessageModel {
    if m.role == "assistant"@ && !preserve_reasoning_content {
        MessageModel { reasoning_content: None, ..m }
    } else {
        m
    }
}

pub open spec fn spec_has_reasoning(m: MessageModel) -> bool {
    m.reasoning_content matches Some(r) && r.len() > 0
}

impl TranscriptMessage {
    fn new(message: ChatMessage) -> (t: Self)
        ensures
            is_fresh_id(t.id@, "msg"@),
            t.message@ == message@,
    {
        TranscriptMessage { id: new_id("msg"), message }
    }

    pub fn clone_transcript_message(&self) -> (t: Self)
        ensures
            t@ == self@,
    {
        TranscriptMessage { id: self.id.clone(), message: self.message.clone_message() }
    }

    pub fn for_request(&self, preserve_reasoning_content: bool) -> (m: ChatMessage)
        ensures
            m@ == spec_for_request(self.message@, preserve_reasoning_content),
    {
        let mut message = self.message.clone_message();
        if str_eq(message.role.as_str(), "assistant") && !preserve_reasoning_content {
            message.reasoning_content = None;
        }
        message
    }

    pub fn has_reasoning_content(&self) -> (b: bool)
        ensures
            b == spec_has_reasoning(self.message@),
    {
        match &self.message.reasoning_content {
            Some(r) => !r.as_str().is_empty(),
            None => false,
        }
    }
}

#[derive(Debug, Clone)]
pub struct TranscriptToolResult {
    pub id: String,
    pub tool_call_id: String,
    pub content: String,
    pub metadata: ToolResultMetadata,
}

pub struct ToolResultModel {
    pub id: Seq<char>,
    pub tool_call_id: Seq<char>,
    pub content: Seq<char>,
    pub metadata: MetadataModel,
}

impl View for TranscriptToolResult {
    type V = ToolResultModel;

    open spec fn view(&self) -> ToolResultModel {
        ToolResultModel {
            id: self.id@,
            tool_call_id: self.tool_call_id@,
            content: self.content@,
            metadata: self.metadata@,
        }
    }
}

pub open spec fn result_views(v: Seq<TranscriptToolResult>) -> Seq<ToolResultModel> {
    v.map_values(|r: TranscriptToolResult| r@)
}

pub open spec fn result_message(r: ToolResultModel) -> MessageModel {
    tool_message(r.content, r.tool_call_id)
}

impl TranscriptToolResult {
    pub fn to_message(&self) -> (m: ChatMessage)
        ensures
            m@ == result_message(self@),
    {
        ChatMessage::tool(self.content.clone(), self.tool_call_id.as_str())
    }
}

#[derive(Debug, Clone, Copy, PartialEq, Eq, Structural)]
pub enum ToolExchangeStatus {
    Pending,
    Completed,
}

#[derive(Debug, Clone)]
pub struct ToolExchangeSummary {
    pub content: String,
}

#[derive(Debug, Clone)]
pub struct TurnSummary {
    pub content: String,
}

#[derive(Debug, Clone, Copy, PartialEq, Eq, Structural)]
pub enum RetentionClass {
    Recent,
    Summarized,
}

#[derive(Debug, Clone)]
pub struct ToolExchange {
    pub assistant_message: TranscriptMessage,
    pub tool_results: Vec<TranscriptToolResult>,
    pub summary: Option<ToolExchangeSummary>,
    pub status: ToolExchangeStatus,
}

pub struct ExchangeModel {
    pub assistant: TranscriptMessageModel,
    pub results: Seq<ToolResultModel>,
    pub summary: Option<Seq<char>>,
    pub status: ToolExchangeStatus,
}

impl View for ToolExchange {
    type V = ExchangeModel;

    open spec fn view(&self) -> ExchangeModel {
        ExchangeModel {
            assistant: self.assistant_message@,
            results: result_views(self.tool_results@),
            summary: match self.summary {
                Some(s) => Some(s.content@),
                None => None,
            },
            status: self.status,
        }
    }
}

pub open spec fn exchange_views(v: Seq<ToolExchange>) -> Seq<ExchangeModel> {
    v.map_values(|e: ToolExchange| e@)
}

/// The tool calls of an exchange's assistant message.
pub open spec fn exchange_calls(e: ExchangeModel) -> Seq<ToolCallModel> {
    match e.assistant.message.tool_calls {
        Some(c) => c,
        None => Seq::empty(),
    }
}

pub open spec fn calls_include(calls: Seq<ToolCallModel>, id: Seq<char>) -> bool {
    exists|j: int| 0 <= j < calls.len() && (#[trigger] calls[j]).id == id
}

pub open spec fn results_include(results: Seq<ToolResultModel>, id: Seq<char>) -> bool {
    exists|j: int| 0 <= j < results.len() && (#[trigger] results[j]).tool_call_id == id
}

/// A pending exchange accepts a result for one of its calls.
pub open spec fn spec_accepts(e: ExchangeModel, tool_call_id: Seq<char>) -> bool {
    e.status == ToolExchangeStatus::Pending && calls_include(exchange_calls(e), tool_call_id)
}

/// Every call of the exchange has a result.
pub open spec fn spec_is_complete(e: ExchangeModel) -> bool {
    &&& exchange_calls(e).len() > 0
    &&& forall|j: int|
        0 <= j < exchange_calls(e).len() ==> results_include(e.results, #[trigger] exchange_calls(
            e,
        )[j].id)
}

impl ToolExchange {
    pub fn tool_calls(&self) -> (r: &[ToolCall])
        ensures
            tool_call_views(r@) == exchange_calls(self@),
    {
        match &self.assistant_message.message.tool_calls {
            Some(v) => v.as_slice(),
            None => {
                let r: &[ToolCall] = &[];
                assert(tool_call_views(r@) =~= Seq::<ToolCallModel>::empty());
                r
            },
        }
    }

    pub fn accepts_tool_result(&self, tool_call_id: &str) -> (b: bool)
        ensures
            b == spec_accepts(self@, tool_call_id@),
    {
        match self.status {
            ToolExchangeStatus::Pending => {},
            ToolExchangeStatus::Completed => {
                return false;
            },
        }
        let calls = self.tool_calls();
        let mut i: usize = 0;
        while i < calls.len()
            invariant
                i <= calls@.len(),
                tool_call_views(calls@) == exchange_calls(self@),
                self.status == ToolExchangeStatus::Pending,
                forall|j: int| 0 <= j < i ==> calls@[j].id@ != tool_call_id@,
            decreases calls.len() - i,
        {
            if str_eq(calls[i].id.as_str(), tool_call_id) {
                assert(exchange_calls(self@)[i as int].id == tool_call_id@);
                return true;
            }
            i = i + 1;
        }
        assert forall|j: int| 0 <= j < exchange_calls(self@).len() implies (#[trigger] exchange_calls(
            self@,
        )[j]).id != tool_call_id@ by {
            assert(exchange_calls(self@)[j] == calls@[j]@);
        }
        false
    }

    fn has_result_for(&self, id: &String) -> (b: bool)
        ensures
            b == results_include(self@.results, id@),
    {
        let mut i: usize = 0;
        while i < self.tool_results.len()
            invariant
                i <= self.tool_results@.len(),
                forall|j: int| 0 <= j < i ==> self.tool_results@[j].tool_call_id@ != id@,
            decreases self.tool_results.len() - i,
        {
            if str_eq(self.tool_results[i].tool_call_id.as_str(), id.as_str()) {
                assert(self@.results[i as int].tool_call_id == id@);
                return true;
            }
            i = i + 1;
        }
        assert forall|j: int| 0 <= j < self@.results.len() implies (#[trigger] self@.results[j]).tool_call_id
            != id@ by {
            assert(self@.results[j] == self.tool_results@[j]@);
        }
        false
    }

    pub fn is_complete(&self) -> (b: bool)
        ensures
            b == spec_is_complete(self@),
    {
        let calls = self.tool_calls();
        if calls.len() == 0 {
            return false;
        }
        let mut i: usize = 0;
        while i < calls.len()
            invariant
                i <= calls@.len(),
                tool_call_views(calls@) == exchange_calls(self@),
                forall|j: int|
                    0 <= j < i ==> results_include(self@.results, #[trigger] exchange_calls(
                        self@,
                    )[j].id),
            decreases calls.len() - i,
        {
            if !self.has_result_for(&calls[i].id) {
                assert(exchange_calls(self@)[i as int].id == calls@[i as int].id@);
                return false;
            }
            i = i + 1;
        }
        true
    }
}

#[derive(Debug, Clone)]
pub struct ConversationTurn {
    pub id: String,
    pub user: TranscriptMessage,
    pub assistant: Option<TranscriptMessage>,
    pub tool_exchanges: Vec<ToolExchange>,
    pub summary: Option<TurnSummary>,
    pub retention: RetentionClass,
}

pub struct TurnModel {
    pub id: Seq<char>,
    pub user: TranscriptMessageModel,
    pub assistant: Option<TranscriptMessageModel>,
    pub exchanges: Seq<ExchangeModel>,
    pub summary: Option<Seq<char>>,
    pub retention: RetentionClass,
}

impl View for ConversationTurn {
    type V = TurnModel;

    open spec fn view(&self) -> TurnModel {
        TurnModel {
            id: self.id@,
            user: self.user@,
            assistant: match self.assistant {
                Some(a) => Some(a@),
                None => None,
            },
            exchanges: exchange_views(self.tool_exchanges@),
            summary: match self.summary {
                Some(s) => Some(s.content@),
                None => None,
            },
            retention: self.retention,
        }
    }
}

pub open spec fn turn_views(v: Seq<ConversationTurn>) -> Seq<TurnModel> {
    v.map_values(|t: ConversationTurn| t@)
}

/// The messages of one exchange: its assistant message, then its results.
pub open spec fn exchange_messages(e: ExchangeModel, preserve: bool) -> Seq<MessageModel> {
    seq![spec_for_request(e.assistant.message, preserve)] + e.results.map_values(
        |r: ToolResultModel| result_message(r),
    )
}

pub open spec fn exchanges_messages(es: Seq<ExchangeModel>, preserve: bool) -> Seq<MessageModel>
    decreases es.len(),
{
    if es.len() == 0 {
        Seq::empty()
    } else {
        exchanges_messages(es.drop_last(), preserve) + exchange_messages(es.last(), preserve)
    }
}

/// The messages of a turn: the user message, each exchange, then the reply.
pub open spec fn spec_turn_messages(t: TurnModel, preserve: bool) -> Seq<MessageModel> {
    seq![t.user.message] + exchanges_messages(t.exchanges, preserve) + match t.assistant {
        Some(a) => seq![spec_for_request(a.message, preserve)],
        None => Seq::empty(),
    }
}

pub open spec fn turns_messages(ts: Seq<TurnModel>, preserve: bool) -> Seq<MessageModel>
    decreases ts.len(),
{
    if ts.len() == 0 {
        Seq::empty()
    } else {
        turns_messages(ts.drop_last(), preserve) + spec_turn_messages(ts.last(), preserve)
    }
}

pub open spec fn exchange_reasoning_count(es: Seq<ExchangeModel>) -> nat
    decreases es.len(),
{
    if es.len() == 0 {
        0
    } else {
        exchange_reasoning_count(es.drop_last()) + if spec_has_reasoning(
            es.last().assistant.message,
        ) {
            1nat
        } else {
            0nat
        }
    }
}

/// The number of messages of a turn that carry reasoning.
pub open spec fn spec_reasoning_count(t: TurnModel) -> int {
    sat(exchange_reasoning_count(t.exchanges) + match t.assistant {
        Some(a) => if spec_has_reasoning(a.message) {
            1int
        } else {
            0int
        },
        None => 0int,
    })
}

pub fn append_messages(dst: &mut Vec<ChatMessage>, src: Vec<ChatMessage>)
    ensures
        message_views(final(dst)@) == message_views(old(dst)@) + message_views(src@),
{
    let ghost a = dst@;
    let mut src = src;
    let ghost b = src@;
    dst.append(&mut src);
    assert(message_views(dst@) =~= message_views(a) + message_views(b));
}

impl ConversationTurn {
    pub fn to_messages(&self, preserve_reasoning_content: bool) -> (r: Vec<ChatMessage>)
        ensures
            message_views(r@) == spec_turn_messages(self@, preserve_reasoning_content),
    {
        let mut messages: Vec<ChatMessage> = Vec::new();
        messages.push(self.user.message.clone_message());
        let ghost es = exchange_views(self.tool_exchanges@);
        let mut i: usize = 0;
        while i < self.tool_exchanges.len()
            invariant
                i <= self.tool_exchanges@.len(),
                es == exchange_views(self.tool_exchanges@),
                message_views(messages@) == seq![self.user@.message] + exchanges_messages(
                    es.take(i as int),
                    preserve_reasoning_content,
                ),
            decreases self.tool_exchanges.len() - i,
        {
            let exchange = &self.tool_exchanges[i];
            let ghost before = message_views(messages@);
            messages.push(exchange.assistant_message.for_request(preserve_reasoning_content));
            let mut j: usize = 0;
            while j < exchange.tool_results.len()
                invariant
                    j <= exchange.tool_results@.len(),
                    message_views(messages@) == before + seq![
                        spec_for_request(exchange@.assistant.message, preserve_reasoning_content),
                    ] + exchange@.results.take(j as int).map_values(
                        |r: ToolResultModel| result_message(r),
                    ),
                decreases exchange.tool_results.len() - j,
            {
                let ghost mid = message_views(messages@);
                let ghost rs = exchange@.results;
                messages.push(exchange.tool_results[j].to_message());
                proof {
                    assert(rs[j as int] == exchange.tool_results@[j as int]@);
                    assert(rs.take(j + 1) =~= rs.take(j as int).push(rs[j as int]));
                    assert(rs.take(j + 1).map_values(|r: ToolResultModel| result_message(r))
                        =~= rs.take(j as int).map_values(|r: ToolResultModel| result_message(r)).push(
                        result_message(rs[j as int]),
                    ));
                    assert(message_views(messages@) =~= mid.push(result_message(rs[j as int])));
                }
                j = j + 1;
            }
            assert(exchange@.results.take(j as int) =~= exchange@.results);
            i = i + 1;
            proof {
                assert(es.take(i as int).drop_last() =~= es.take(i - 1));
                assert(es.take(i as int).last() == exchange@);
                assert(message_views(messages@) =~= seq![self.user@.message] + exchanges_messages(
                    es.take(i as int),
                    preserve_reasoning_content,
                ));
            }
        }
        assert(es.take(self.tool_exchanges@.len() as int) =~= es);
        match &self.assistant {
            Some(a) => {
                messages.push(a.for_request(preserve_reasoning_content));
            },
            None => {},
        }
        assert(message_views(messages@) =~= spec_turn_messages(self@, preserve_reasoning_content));
        messages
    }

    pub fn tool_exchange_count(&self) -> (n: usize)
        ensures
            n == self@.exchanges.len(),
    {
        self.tool_exchanges.len()
    }

    pub fn reasoning_message_count(&self) -> (n: usize)
        ensures
            n == spec_reasoning_count(self@),
    {
        let ghost es = exchange_views(self.tool_exchanges@);
        let mut count: usize = 0;
        let mut i: usize = 0;
        while i < self.tool_exchanges.len()
            invariant
                i <= self.tool_exchanges@.len(),
                es == exchange_views(self.tool_exchanges@),
                count == exchange_reasoning_count(es.take(i as int)),
                count <= i,
            decreases self.tool_exchanges.len() - i,
        {
            proof {
                assert(es.take(i + 1).drop_last() =~= es.take(i as int));
            }
            if self.tool_exchanges[i].assistant_message.has_reasoning_content() {
                count = count + 1;
            }
            i = i + 1;
        }
        assert(es.take(self.tool_exchanges@.len() as int) =~= es);
        let assistant_reasoning: usize = match &self.assistant {
            Some(a) => if a.has_reasoning_content() {
                1
            } else {
                0
            },
            None => 0,
        };
        count.saturating_add(assistant_reasoning)
    }
}

/// The conversation so far, under a system prompt.
#[derive(Debug, Clone)]
pub struct ConversationTranscript {
    pub system_prompt: String,
    pub turns: Vec<ConversationTurn>,
}

pub struct TranscriptModel {
    pub system_prompt: Seq<char>,
    pub turns: Seq<TurnModel>,
}

impl View for ConversationTranscript {
    type V = TranscriptModel;

    open spec fn view(&self) -> TranscriptModel {
        TranscriptModel { system_prompt: self.system_prompt@, turns: turn_views(self.turns@) }
    }
}

/// The messages of the whole transcript, reasoning kept.
pub open spec fn spec_legacy_messages(t: TranscriptModel) -> Seq<MessageModel> {
    seq![text_message("system"@, t.system_prompt)] + turns_messages(t.turns, true)
}

/// A turn that was just opened for a user message.
pub open spec fn is_new_turn(t: TurnModel, content: Seq<char>) -> bool {
    &&& is_fresh_id(t.id, "turn"@)
    &&& is_fresh_id(t.user.id, "msg"@)
    &&& t.user.message == text_message("user"@, content)
    &&& t.assistant is None
    &&& t.exchanges.len() == 0
    &&& t.summary is None
    &&& t.retention == RetentionClass::Recent
}

/// `after` continues `before` in its last turn: the same turn when there was
/// one, else a new turn with an empty user message.
pub open spec fn continues_current_turn(before: Seq<TurnModel>, after: Seq<TurnModel>) -> bool {
    if before.len() == 0 {
        &&& after.len() == 1
        &&& is_fresh_id(after[0].id, "turn"@)
        &&& is_fresh_id(after[0].user.id, "msg"@)
        &&& after[0].user.message == text_message("user"@, Seq::empty())
        &&& after[0].retention == RetentionClass::Recent
    } else {
        &&& after.len() == before.len()
        &&& forall|k: int| 0 <= k < before.len() - 1 ==> #[trigger] after[k] == before[k]
        &&& after.last().id == before.last().id
        &&& after.last().user == before.last().user
        &&& after.last().retention == before.last().retention
    }
}

pub open spec fn current_exchanges(before: Seq<TurnModel>) -> Seq<ExchangeModel> {
    if before.len() == 0 {
        Seq::empty()
    } else {
        before.last().exchanges
    }
}

pub open spec fn current_assistant(before: Seq<TurnModel>) -> Option<TranscriptMessageModel> {
    if before.len() == 0 {
        None
    } else {
        before.last().assistant
    }
}

/// An assistant reply as a chat message: content defaults to empty text.
pub open spec fn spec_choice_to_chat(
    content: Option<Seq<char>>,
    reasoning_content: Option<Seq<char>>,
    tool_calls: Option<Seq<ToolCallModel>>,
) -> MessageModel {
    MessageModel {
        role: "assistant"@,
        content: Some(
            match content {
                Some(c) => c,
                None => Seq::empty(),
            },
        ),
        tool_calls,
        tool_call_id: None,
        reasoning_content,
    }
}

pub open spec fn has_tool_calls(calls: Option<Seq<ToolCallModel>>) -> bool {
    calls matches Some(c) && c.len() > 0
}

/// The index of the last exchange that accepts a result for `id`.
pub open spec fn last_accepting(es: Seq<ExchangeModel>, id: Seq<char>) -> Option<int>
    decreases es.len(),
{
    if es.len() == 0 {
        None
    } else if spec_accepts(es.last(), id) {
        Some(es.len() - 1)
    } else {
        last_accepting(es.drop_last(), id)
    }
}

fn choice_message_to_chat_message(message: ChoiceMessage) -> (m: ChatMessage)
    ensures
        m@ == spec_choice_to_chat(
            opt_text(message.content),
            opt_text(message.reasoning_content),
            opt_calls(message.tool_calls),
        ),
{
    ChatMessage {
        role: String::from_str("assistant"),
        content: Some(
            match message.content {
                Some(c) => c,
                None => String::new(),
            },
        ),
        reasoning_content: message.reasoning_content,
        tool_calls: message.tool_calls,
        tool_call_id: None,
    }
}

proof fn lemma_continues_replace_last(
    before: Seq<TurnModel>,
    mid: Seq<TurnModel>,
    a: TurnModel,
    b: TurnModel,
)
    requires
        continues_current_turn(before, mid.push(a)),
        a.id == b.id,
        a.user == b.user,
        a.retention == b.retention,
    ensures
        continues_current_turn(before, mid.push(b)),
{
    if before.len() == 0 {
        assert(mid.push(a)[0] == a);
        assert(mid.push(b)[0] == b);
    } else {
        assert forall|k: int| 0 <= k < before.len() - 1 implies #[trigger] mid.push(b)[k]
            == before[k] by {
            assert(mid.push(b)[k] == mid[k]);
            assert(mid.push(a)[k] == mid[k]);
        }
    }
}

impl ConversationTranscript {
    pub fn new(system_prompt: String) -> (t: Self)
        ensures
            t@.system_prompt == system_prompt@,
            t@.turns.len() == 0,
    {
        ConversationTranscript { system_prompt, turns: Vec::new() }
    }

    pub fn system_prompt(&self) -> (s: &str)
        ensures
            s@ == self@.system_prompt,
    {
        self.system_prompt.as_str()
    }

    pub fn turns(&self) -> (r: &[ConversationTurn])
        ensures
            turn_views(r@) == self@.turns,
    {
        self.turns.as_slice()
    }

    pub fn turns_mut(&mut self) -> (r: &mut Vec<ConversationTurn>)
        ensures
            *r == old(self).turns,
            final(self).turns == *final(r),
            final(self).system_prompt == old(self).system_prompt,
    {
        &mut self.turns
    }

    /// Opens a new turn for a user message and returns the message's id.
    pub fn record_user(&mut self, content: String) -> (id: String)
        ensures
            final(self)@.system_prompt == old(self)@.system_prompt,
            final(self)@.turns.len() == old(self)@.turns.len() + 1,
            final(self)@.turns.drop_last() == old(self)@.turns,
            is_new_turn(final(self)@.turns.last(), content@),
            final(self)@.turns.last().user.id == id@,
    {
        let message = TranscriptMessage::new(ChatMessage::user(content));
        let id = message.id.clone();
        let ghost before = self.turns@;
        self.turns.push(
            ConversationTurn {
                id: new_id("turn"),
                user: message,
                assistant: None,
                tool_exchanges: Vec::new(),
                summary: None,
                retention: RetentionClass::Recent,
            },
        );
        proof {
            assert(self.turns@.drop_last() =~= before);
            assert(turn_views(self.turns@).drop_last() =~= turn_views(before));
            assert(exchange_views(Seq::<ToolExchange>::empty()) =~= Seq::<ExchangeModel>::empty());
        }
        id
    }

    /// Takes the current turn out, opening one with an empty user message
    /// when there is none.
    fn pop_current_turn(&mut self) -> (t: ConversationTurn)
        ensures
            final(self)@.system_prompt == old(self)@.system_prompt,
            continues_current_turn(old(self)@.turns, final(self)@.turns.push(t@)),
            t@.exchanges == current_exchanges(old(self)@.turns),
            t@.assistant == current_assistant(old(self)@.turns),
    {
        if self.turns.len() == 0 {
            self.record_user(String::new());
            proof {
                assert(self@.turns.len() == 1);
            }
        }
        let ghost before = self.turns@;
        let t = self.turns.pop().unwrap();
        proof {
            assert(turn_views(self.turns@).push(t@) =~= turn_views(before));
        }
        t
    }

    /// Records a model reply in the current turn: a reply with tool calls
    /// opens a pending exchange, any other reply becomes the turn's answer.
    /// The turn's summary is dropped.
    pub fn record_assistant(&mut self, message: ChoiceMessage) -> (id: String)
        ensures
            final(self)@.system_prompt == old(self)@.system_prompt,
            continues_current_turn(old(self)@.turns, final(self)@.turns),
            final(self)@.turns.last().summary is None,
            is_fresh_id(id@, "msg"@),
            ({
                let m = TranscriptMessageModel {
                    id: id@,
                    message: spec_choice_to_chat(
                        opt_text(message.content),
                        opt_text(message.reasoning_content),
                        opt_calls(message.tool_calls),
                    ),
                };
                let cur = final(self)@.turns.last();
                if has_tool_calls(opt_calls(message.tool_calls)) {
                    &&& cur.exchanges == current_exchanges(old(self)@.turns).push(
                        ExchangeModel {
                            assistant: m,
                            results: Seq::empty(),
                            summary: None,
                            status: ToolExchangeStatus::Pending,
                        },
                    )
                    &&& cur.assistant == current_assistant(old(self)@.turns)
                } else {
                    &&& cur.exchanges == current_exchanges(old(self)@.turns)
                    &&& cur.assistant == Some(m)
                }
            }),
    {
        let ghost calls = opt_calls(message.tool_calls);
        let transcript_message = TranscriptMessage::new(choice_message_to_chat_message(message));
        let id = transcript_message.id.clone();
        let has_calls = match &transcript_message.message.tool_calls {
            Some(c) => c.len() > 0,
            None => false,
        };
        let mut turn = self.pop_current_turn();
        let ghost popped = turn@;
        let ghost before_exchanges = turn.tool_exchanges@;
        turn.summary = None;
        if has_calls {
            turn.tool_exchanges.push(
                ToolExchange {
                    assistant_message: transcript_message,
                    tool_results: Vec::new(),
                    summary: None,
                    status: ToolExchangeStatus::Pending,
                },
            );
            proof {
                assert(exchange_views(turn.tool_exchanges@) =~= exchange_views(before_exchanges).push(
                    turn.tool_exchanges@.last()@,
                ));
                assert(result_views(Seq::<TranscriptToolResult>::empty()) =~= Seq::<
                    ToolResultModel,
                >::empty());
            }
        } else {
            turn.assistant = Some(transcript_message);
        }
        let ghost before = self.turns@;
        self.turns.push(turn);
        proof {
            assert(turn_views(self.turns@) =~= turn_views(before).push(turn@));
            lemma_continues_replace_last(old(self)@.turns, turn_views(before), popped, turn@);
        }
        id
    }

    /// Records a tool result in the current turn.  The result joins the last
    /// exchange that accepts it (a pending exchange with a call of that id),
    /// which is marked completed once every call has a result; a result that
    /// no exchange accepts is dropped.  Returns the result's id.
    pub fn record_tool_result(
        &mut self,
        tool_call_id: String,
        content: String,
        metadata: ToolResultMetadata,
    ) -> (id: String)
        ensures
            final(self)@.system_prompt == old(self)@.system_prompt,
            continues_current_turn(old(self)@.turns, final(self)@.turns),
            final(self)@.turns.last().summary is None,
            final(self)@.turns.last().assistant == current_assistant(old(self)@.turns),
            is_fresh_id(id@, "msg"@),
            ({
                let es = current_exchanges(old(self)@.turns);
                let after = final(self)@.turns.last().exchanges;
                match last_accepting(es, tool_call_id@) {
                    None => after == es,
                    Some(k) => {
                        let r = ToolResultModel {
                            id: id@,
                            tool_call_id: tool_call_id@,
                            content: content@,
                            metadata: metadata@,
                        };
                        let grown = ExchangeModel {
                            results: es[k].results.push(r),
                            summary: None,
                            ..es[k]
                        };
                        &&& after.len() == es.len()
                        &&& forall|j: int| 0 <= j < es.len() && j != k ==> #[trigger] after[j] == es[j]
                        &&& after[k] == ExchangeModel {
                            status: if spec_is_complete(grown) {
                                ToolExchangeStatus::Completed
                            } else {
                                es[k].status
                            },
                            ..grown
                        }
                    },
                }
            }),
    {
        let result = TranscriptToolResult { id: new_id("msg"), tool_call_id, content, metadata };
        let id = result.id.clone();
        let mut turn = self.pop_current_turn();
        let ghost popped = turn@;
        turn.summary = None;
        let ghost es = exchange_views(turn.tool_exchanges@);
        let ghost key = result.tool_call_id@;
        let mut k: usize = turn.tool_exchanges.len();
        let mut found = false;
        assert(es.take(es.len() as int) =~= es);
        while !found && k > 0
            invariant
                k <= turn.tool_exchanges@.len(),
                es == exchange_views(turn.tool_exchanges@),
                key == result.tool_call_id@,
                found ==> k > 0 && last_accepting(es, key) == Some(k - 1),
                !found ==> last_accepting(es, key) == last_accepting(es.take(k as int), key),
            decreases k as int + if found {
                0int
            } else {
                1int
            },
        {
            proof {
                assert(es.take(k as int).drop_last() =~= es.take(k - 1));
                assert(es.take(k as int).last() == es[k - 1]);
            }
            if turn.tool_exchanges[k - 1].accepts_tool_result(result.tool_call_id.as_str()) {
                found = true;
            } else {
                k = k - 1;
            }
        }
        if found {
            let idx = k - 1;
            let mut exchanges = turn.tool_exchanges;
            let ghost ex_before = exchanges@;
            let mut exchange = exchanges.remove(idx);
            exchange.summary = None;
            let ghost results_before = exchange.tool_results@;
            let ghost rm = result@;
            exchange.tool_results.push(result);
            assert(result_views(exchange.tool_results@) =~= result_views(results_before).push(rm));
            if exchange.is_complete() {
                exchange.status = ToolExchangeStatus::Completed;
            }
            exchanges.insert(idx, exchange);
            proof {
                assert forall|j: int| 0 <= j < ex_before.len() && j != idx implies #[trigger] exchanges@[j]
                    == ex_before[j] by {
                    if j < idx {
                    } else {
                    }
                }
                assert forall|j: int| 0 <= j < es.len() && j != idx implies #[trigger] exchange_views(
                    exchanges@,
                )[j] == es[j] by {
                    assert(exchanges@[j] == ex_before[j]);
                }
            }
            turn.tool_exchanges = exchanges;
        } else {
            assert(es.take(0) =~= Seq::<ExchangeModel>::empty());
        }
        let ghost before = self.turns@;
        self.turns.push(turn);
        proof {
            assert(turn_views(self.turns@) =~= turn_views(before).push(turn@));
            lemma_continues_replace_last(old(self)@.turns, turn_views(before), popped, turn@);
        }
        id
    }

    /// All messages: the system prompt, then every turn with its reasoning.
    pub fn to_legacy_messages(&self) -> (r: Vec<ChatMessage>)
        ensures
            message_views(r@) == spec_legacy_messages(self@),
    {
        let mut messages: Vec<ChatMessage> = Vec::new();
        messages.push(ChatMessage::system(self.system_prompt.clone()));
        let ghost ts = turn_views(self.turns@);
        let mut i: usize = 0;
        while i < self.turns.len()
            invariant
                i <= self.turns@.len(),
                ts == turn_views(self.turns@),
                message_views(messages@) == seq![text_message("system"@, self.system_prompt@)]
                    + turns_messages(ts.take(i as int), true),
            decreases self.turns.len() - i,
        {
            let part = self.turns[i].to_messages(true);
            append_messages(&mut messages, part);
            i = i + 1;
            proof {
                assert(ts.take(i as int).drop_last() =~= ts.take(i - 1));
                assert(ts.take(i as int).last() == self.turns@[i - 1]@);
                assert(message_views(messages@) =~= seq![text_message("system"@, self.system_prompt@)]
                    + turns_messages(ts.take(i as int), true));
            }
        }
        assert(ts.take(self.turns@.len() as int) =~= ts);
        messages
    }
}

/// Call `j` of the exchange has a result carrying its id.
pub open spec fn call_answered(e: ExchangeModel, j: int) -> bool {
    exists|k: int| 0 <= k < e.results.len() && (#[trigger] e.results[k]).tool_call_id == exchange_calls(e)[j].id
}

/// An exchange is complete exactly when it has calls and every one of them
/// has a result with its id; while some call has none, it is not.
pub proof fn lemma_complete_iff_every_call_answered(e: ExchangeModel)
    ensures
        spec_is_complete(e) <==> (exchange_calls(e).len() > 0 && forall|j: int|
            0 <= j < exchange_calls(e).len() ==> #[trigger] call_answered(e, j)),
{
    if spec_is_complete(e) {
        assert forall|j: int| 0 <= j < exchange_calls(e).len() implies #[trigger] call_answered(e, j) by {
            assert(results_include(e.results, exchange_calls(e)[j].id));
            let k = choose|k: int| 0 <= k < e.results.len() && (#[trigger] e.results[k]).tool_call_id == exchange_calls(e)[j].id;
            assert(0 <= k < e.results.len() && e.results[k].tool_call_id == exchange_calls(e)[j].id);
        }
    }
    if exchange_calls(e).len() > 0 && forall|j: int|
        0 <= j < exchange_calls(e).len() ==> #[trigger] call_answered(e, j) {
        assert forall|j: int| 0 <= j < exchange_calls(e).len() implies results_include(
            e.results,
            #[trigger] exchange_calls(e)[j].id,
        ) by {
            assert(call_answered(e, j));
            let k = choose|k: int| 0 <= k < e.results.len() && (#[trigger] e.results[k]).tool_call_id == exchange_calls(e)[j].id;
            assert(e.results[k].tool_call_id == exchange_calls(e)[j].id);
        }
        assert(spec_is_complete(e));
    }
}

/// A pending exchange with a call that has no result is not complete, and
/// still accepts that call's result.
pub proof fn lemma_unanswered_call_keeps_exchange_open(e: ExchangeModel, j: int)
    requires
        e.status == ToolExchangeStatus::Pending,
        0 <= j < exchange_calls(e).len(),
        forall|k: int| 0 <= k < e.results.len() ==> (#[trigger] e.results[k]).tool_call_id != exchange_calls(e)[j].id,
    ensures
        !spec_is_complete(e),
        spec_accepts(e, exchange_calls(e)[j].id),
{
    if spec_is_complete(e) {
        assert(results_include(e.results, exchange_calls(e)[j].id));
        let k = choose|k: int| 0 <= k < e.results.len() && (#[trigger] e.results[k]).tool_call_id == exchange_calls(e)[j].id;
        assert(e.results[k].tool_call_id != exchange_calls(e)[j].id);
    }
    assert(calls_include(exchange_calls(e), exchange_calls(e)[j].id));
}

} // verus!
