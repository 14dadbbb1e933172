//! Accumulating a streamed chat completion, and the events that a display
//! sees while it streams.
//!
//! `StreamAccumulator::push_events` folds one chunk into the accumulated
//! reply and returns the events it gives rise to, in order;
//! `StreamAccumulator::complete` turns the accumulated reply into the final
//! message.  `push` and `finish` hand the events to a sink.
use vstd::prelude::*;
use vstd::string::*;
use crate::api::{
    ChatCompletionStreamChunk, ChoiceDelta, ChoiceMessage, FunctionCall, StreamChoice, ToolCall,
    ToolCallDelta, ToolCallModel, Usage, opt_text, tool_call_views,
};
use crate::text::{append_str, str_chars, string_from_chars};

verus! {

#[derive(Debug, Clone)]
pub enum AgentStreamEvent {
    ResponseStarted { round: usize },
    ReasoningStarted,
    ReasoningDelta(String),
    AnswerStarted,
    AnswerDelta(String),
    ToolCallDelta {
        index: u32,
        id: Option<String>,
        name: Option<String>,
        arguments_delta: Option<String>,
    },
    ResponseFinished { finish_reason: Option<String> },
    Usage(Usage),
}

pub enum EventModel {
    ResponseStarted { round: usize },
    ReasoningStarted,
    ReasoningDelta(Seq<char>),
    AnswerStarted,
    AnswerDelta(Seq<char>),
    ToolCallDelta {
        index: u32,
        id: Option<Seq<char>>,
        name: Option<Seq<char>>,
        arguments_delta: Option<Seq<char>>,
    },
    ResponseFinished { finish_reason: Option<Seq<char>> },
    Usage(Usage),
}

impl View for AgentStreamEvent {
    type V = EventModel;

    open spec fn view(&self) -> EventModel {
        match self {
            AgentStreamEvent::ResponseStarted { round } => EventModel::ResponseStarted {
                round: *round,
            },
            AgentStreamEvent::ReasoningStarted => EventModel::ReasoningStarted,
            AgentStreamEvent::ReasoningDelta(t) => EventModel::ReasoningDelta(t@),
            AgentStreamEvent::AnswerStarted => EventModel::AnswerStarted,
            AgentStreamEvent::AnswerDelta(t) => EventModel::AnswerDelta(t@),
            AgentStreamEvent::ToolCallDelta { index, id, name, arguments_delta } =>
                EventModel::ToolCallDelta {
                index: *index,
                id: opt_text(*id),
                name: opt_text(*name),
                arguments_delta: opt_text(*arguments_delta),
            },
            AgentStreamEvent::ResponseFinished { finish_reason } => EventModel::ResponseFinished {
                finish_reason: opt_text(*finish_reason),
            },
            AgentStreamEvent::Usage(u) => EventModel::Usage(*u),
        }
    }
}

pub open spec fn event_views(v: Seq<AgentStreamEvent>) -> Seq<EventModel> {
    v.map_values(|e: AgentStreamEvent| e@)
}

/// Receives streaming events for display or forwarding.
pub trait AgentEventSink {
    fn on_event(&mut self, event: &AgentStreamEvent) -> Result<(), String>;
}

/// A streamed reply that has ended.
pub struct CompletedStreamResponse {
    pub message: ChoiceMessage,
    pub finish_reason: Option<String>,
    pub usage: Option<Usage>,
}

/// Why a stream could not be completed.
#[derive(Debug, Clone, PartialEq, Eq)]
pub enum StreamError {
    MissingToolCallId,
    MissingToolCallName,
    Sink(String),
}

impl StreamError {
    pub fn describe(&self) -> (s: String)
        ensures
            s@ == match *self {
                StreamError::MissingToolCallId => "streamed tool call missing id"@,
                StreamError::MissingToolCallName => "streamed tool call missing name"@,
                StreamError::Sink(m) => m@,
            },
    {
        match self {
            StreamError::MissingToolCallId => String::from_str("streamed tool call missing id"),
            StreamError::MissingToolCallName => String::from_str("streamed tool call missing name"),
            StreamError::Sink(m) => m.clone(),
        }
    }
}

/// A tool call being assembled from deltas.
pub struct ToolCallBuilder {
    pub id: Option<String>,
    pub kind: Option<String>,
    pub name: Option<String>,
    pub arguments: String,
}

pub struct BuilderModel {
    pub id: Option<Seq<char>>,
    pub kind: Option<Seq<char>>,
    pub name: Option<Seq<char>>,
    pub arguments: Seq<char>,
}

impl View for ToolCallBuilder {
    type V = BuilderModel;

    open spec fn view(&self) -> BuilderModel {
        BuilderModel {
            id: opt_text(self.id),
            kind: opt_text(self.kind),
            name: opt_text(self.name),
            arguments: self.arguments@,
        }
    }
}

pub open spec fn empty_builder() -> BuilderModel {
    BuilderModel { id: None, kind: None, name: None, arguments: Seq::empty() }
}

/// A built call: its id and name are required; the kind defaults to
/// `function`.
pub open spec fn spec_build(b: BuilderModel) -> Result<ToolCallModel, StreamError> {
    if b.id is None {
        Err(StreamError::MissingToolCallId)
    } else if b.name is None {
        Err(StreamError::MissingToolCallName)
    } else {
        Ok(
            ToolCallModel {
                id: b.id->0,
                kind: match b.kind {
                    Some(k) => k,
                    None => "function"@,
                },
                name: b.name->0,
                arguments: b.arguments,
            },
        )
    }
}

impl ToolCallBuilder {
    pub fn new() -> (b: Self)
        ensures
            b@ == empty_builder(),
    {
        ToolCallBuilder { id: None, kind: None, name: None, arguments: String::new() }
    }

    pub fn build_ref(&self) -> (r: Result<ToolCall, StreamError>)
        ensures
            match r {
                Ok(c) => spec_build(self@) == Ok::<ToolCallModel, StreamError>(c@),
                Err(e) => spec_build(self@) == Err::<ToolCallModel, StreamError>(e),
            },
    {
        let id = match &self.id {
            Some(id) => id.clone(),
            None => {
                return Err(StreamError::MissingToolCallId);
            },
        };
        let name = match &self.name {
            Some(n) => n.clone(),
            None => {
                return Err(StreamError::MissingToolCallName);
            },
        };
        let kind = match &self.kind {
            Some(k) => k.clone(),
            None => String::from_str("function"),
        };
        Ok(ToolCall { id, kind, function: FunctionCall { name, arguments: self.arguments.clone() } })
    }

    pub fn build(self) -> (r: Result<ToolCall, StreamError>)
        ensures
            match r {
                Ok(c) => spec_build(self@) == Ok::<ToolCallModel, StreamError>(c@),
                Err(e) => spec_build(self@) == Err::<ToolCallModel, StreamError>(e),
            },
    {
        let id = match self.id {
            Some(id) => id,
            None => {
                return Err(StreamError::MissingToolCallId);
            },
        };
        let name = match self.name {
            Some(n) => n,
            None => {
                return Err(StreamError::MissingToolCallName);
            },
        };
        let kind = match self.kind {
            Some(k) => k,
            None => String::from_str("function"),
        };
        Ok(ToolCall { id, kind, function: FunctionCall { name, arguments: self.arguments } })
    }
}

#[derive(Debug, Clone, Copy, PartialEq, Eq, Structural)]
pub enum Phase {
    NotStarted,
    Started,
    Reasoning,
    Answer,
    Done,
}

/// The accumulated reply.  Tool call builders are kept by index, indices
/// strictly increasing.
pub struct StreamAccumulator {
    pub role: Option<String>,
    pub content: String,
    pub reasoning_content: String,
    pub tool_calls: Vec<(u32, ToolCallBuilder)>,
    pub finish_reason: Option<String>,
    pub usage: Option<Usage>,
    pub phase: Phase,
}

pub struct AccModel {
    pub role: Option<Seq<char>>,
    pub content: Seq<char>,
    pub reasoning: Seq<char>,
    pub calls: Seq<(u32, BuilderModel)>,
    pub finish_reason: Option<Seq<char>>,
    pub usage: Option<Usage>,
    pub phase: Phase,
}

pub open spec fn builder_entries(v: Seq<(u32, ToolCallBuilder)>) -> Seq<(u32, BuilderModel)> {
    v.map_values(|e: (u32, ToolCallBuilder)| (e.0, e.1@))
}

impl View for StreamAccumulator {
    type V = AccModel;

    open spec fn view(&self) -> AccModel {
        AccModel {
            role: opt_text(self.role),
            content: self.content@,
            reasoning: self.reasoning_content@,
            calls: builder_entries(self.tool_calls@),
            finish_reason: opt_text(self.finish_reason),
            usage: self.usage,
            phase: self.phase,
        }
    }
}

pub open spec fn keys_increasing(calls: Seq<(u32, BuilderModel)>) -> bool {
    forall|i: int, j: int| 0 <= i < j < calls.len() ==> calls[i].0 < calls[j].0
}

/// The number of entries with a smaller index: where `index` belongs.
pub open spec fn slot(calls: Seq<(u32, BuilderModel)>, index: u32) -> int
    decreases calls.len(),
{
    if calls.len() == 0 {
        0
    } else if calls[0].0 < index {
        1 + slot(calls.drop_first(), index)
    } else {
        0
    }
}

pub open spec fn has_entry(calls: Seq<(u32, BuilderModel)>, index: u32) -> bool {
    slot(calls, index) < calls.len() && calls[slot(calls, index)].0 == index
}

/// The builder for `index`, or an empty one.
pub open spec fn builder_for(calls: Seq<(u32, BuilderModel)>, index: u32) -> BuilderModel {
    if has_entry(calls, index) {
        calls[slot(calls, index)].1
    } else {
        empty_builder()
    }
}

/// The entries with the builder for `index` set to `b`.
pub open spec fn set_builder(calls: Seq<(u32, BuilderModel)>, index: u32, b: BuilderModel) -> Seq<
    (u32, BuilderModel),
> {
    if has_entry(calls, index) {
        calls.update(slot(calls, index), (index, b))
    } else {
        calls.insert(slot(calls, index), (index, b))
    }
}

pub open spec fn opt_args(td: ToolCallDelta) -> Option<Seq<char>> {
    match td.function {
        Some(f) => opt_text(f.arguments),
        None => None,
    }
}

pub open spec fn opt_name(td: ToolCallDelta) -> Option<Seq<char>> {
    match td.function {
        Some(f) => opt_text(f.name),
        None => None,
    }
}

pub open spec fn or_keep(new: Option<Seq<char>>, old: Option<Seq<char>>) -> Option<Seq<char>> {
    match new {
        Some(v) => Some(v),
        None => old,
    }
}

/// One tool call delta: the builder for its index takes the new id, kind
/// and name, and grows by the arguments; the event reports the builder's
/// id and name so far and the arguments of this delta.
pub open spec fn tool_delta_step(st: AccModel, td: ToolCallDelta) -> (AccModel, EventModel) {
    let b0 = builder_for(st.calls, td.index);
    let b1 = BuilderModel {
        id: or_keep(opt_text(td.id), b0.id),
        kind: or_keep(opt_text(td.kind), b0.kind),
        name: or_keep(opt_name(td), b0.name),
        arguments: b0.arguments + match opt_args(td) {
            Some(a) => a,
            None => Seq::empty(),
        },
    };
    (
        AccModel { calls: set_builder(st.calls, td.index, b1), ..st },
        EventModel::ToolCallDelta {
            index: td.index,
            id: b1.id,
            name: b1.name,
            arguments_delta: opt_args(td),
        },
    )
}

pub open spec fn tool_deltas_step(st: AccModel, tds: Seq<ToolCallDelta>) -> (AccModel, Seq<EventModel>)
    decreases tds.len(),
{
    if tds.len() == 0 {
        (st, Seq::empty())
    } else {
        let (s1, e1) = tool_deltas_step(st, tds.drop_last());
        let (s2, e2) = tool_delta_step(s1, tds.last());
        (s2, e1.push(e2))
    }
}

/// One delta: reasoning text, then answer text (empty text is ignored),
/// then tool call deltas.  Entering reasoning or the answer is announced
/// once per switch.
pub open spec fn delta_step(st: AccModel, d: ChoiceDelta) -> (AccModel, Seq<EventModel>) {
    let (s1, e1) = match opt_text(d.reasoning_content) {
        Some(r) => (
            AccModel { phase: Phase::Reasoning, reasoning: st.reasoning + r, ..st },
            (if st.phase != Phase::Reasoning {
                seq![EventModel::ReasoningStarted]
            } else {
                Seq::empty()
            }).push(EventModel::ReasoningDelta(r)),
        ),
        None => (st, Seq::empty()),
    };
    let (s2, e2) = match opt_text(d.content) {
        Some(c) => if c.len() > 0 {
            (
                AccModel { phase: Phase::Answer, content: s1.content + c, ..s1 },
                (if s1.phase != Phase::Answer {
                    seq![EventModel::AnswerStarted]
                } else {
                    Seq::empty()
                }).push(EventModel::AnswerDelta(c)),
            )
        } else {
            (s1, Seq::empty())
        },
        None => (s1, Seq::empty()),
    };
    let (s3, e3) = match d.tool_calls {
        Some(tds) => tool_deltas_step(s2, tds@),
        None => (s2, Seq::empty()),
    };
    (s3, e1 + e2 + e3)
}

/// One choice of a chunk: the response is announced once, then the role,
/// the delta and the finish reason are taken.
pub open spec fn choice_step(st: AccModel, c: StreamChoice, round: usize) -> (AccModel, Seq<EventModel>) {
    let (s0, e0) = if st.phase == Phase::NotStarted {
        (AccModel { phase: Phase::Started, ..st }, seq![EventModel::ResponseStarted { round }])
    } else {
        (st, Seq::empty())
    };
    let s1 = AccModel { role: or_keep(opt_text(c.delta.role), s0.role), ..s0 };
    let (s2, e2) = delta_step(s1, c.delta);
    (AccModel { finish_reason: or_keep(opt_text(c.finish_reason), s2.finish_reason), ..s2 }, e0 + e2)
}

pub open spec fn choices_step(st: AccModel, cs: Seq<StreamChoice>, round: usize) -> (AccModel, Seq<
    EventModel,
>)
    decreases cs.len(),
{
    if cs.len() == 0 {
        (st, Seq::empty())
    } else {
        let (s1, e1) = choices_step(st, cs.drop_last(), round);
        let (s2, e2) = choice_step(s1, cs.last(), round);
        (s2, e1 + e2)
    }
}

/// One chunk: its usage, if any, is taken and reported first, then its
/// choices in order.
pub open spec fn chunk_step(st: AccModel, chunk: ChatCompletionStreamChunk, round: usize) -> (AccModel, Seq<
    EventModel,
>) {
    let (s0, e0) = match chunk.usage {
        Some(u) => (AccModel { usage: Some(u), ..st }, seq![EventModel::Usage(u)]),
        None => (st, Seq::empty()),
    };
    let (s1, e1) = choices_step(s0, chunk.choices@, round);
    (s1, e0 + e1)
}

pub open spec fn build_all(calls: Seq<(u32, BuilderModel)>) -> Result<Seq<ToolCallModel>, StreamError>
    decreases calls.len(),
{
    if calls.len() == 0 {
        Ok(Seq::empty())
    } else {
        match build_all(calls.drop_last()) {
            Err(e) => Err(e),
            Ok(done) => match spec_build(calls.last().1) {
                Err(e) => Err(e),
                Ok(c) => Ok(done.push(c)),
            },
        }
    }
}

/// The tool calls of a completed reply: none when no call was streamed.
pub open spec fn completed_calls(calls: Seq<(u32, BuilderModel)>) -> Result<
    Option<Seq<ToolCallModel>>,
    StreamError,
> {
    if calls.len() == 0 {
        Ok(None)
    } else {
        match build_all(calls) {
            Ok(c) => Ok(Some(c)),
            Err(e) => Err(e),
        }
    }
}

fn push_event(events: &mut Vec<AgentStreamEvent>, e: AgentStreamEvent)
    ensures
        event_views(final(events)@) == event_views(old(events)@).push(e@),
{
    let ghost before = event_views(events@);
    let ghost v = e@;
    events.push(e);
    assert(event_views(events@) =~= before.push(v));
}

fn append_events(events: &mut Vec<AgentStreamEvent>, more: Vec<AgentStreamEvent>)
    ensures
        event_views(final(events)@) == event_views(old(events)@) + event_views(more@),
{
    let ghost a = events@;
    let mut more = more;
    let ghost b = more@;
    events.append(&mut more);
    assert(event_views(events@) =~= event_views(a) + event_views(b));
}

fn clone_opt(o: &Option<String>) -> (r: Option<String>)
    ensures
        opt_text(r) == opt_text(*o),
{
    match o {
        Some(s) => Some(s.clone()),
        None => None,
    }
}

proof fn lemma_slot_bounds(calls: Seq<(u32, BuilderModel)>, index: u32)
    ensures
        0 <= slot(calls, index) <= calls.len(),
        forall|k: int| 0 <= k < slot(calls, index) ==> #[trigger] calls[k].0 < index,
        keys_increasing(calls) && slot(calls, index) < calls.len() ==> calls[slot(calls, index)].0
            >= index,
    decreases calls.len(),
{
    if calls.len() > 0 && calls[0].0 < index {
        lemma_slot_bounds(calls.drop_first(), index);
        assert forall|k: int| 0 <= k < slot(calls, index) implies #[trigger] calls[k].0 < index by {
            if k > 0 {
                assert(calls[k] == calls.drop_first()[k - 1]);
            }
        }
        if keys_increasing(calls) {
            assert(keys_increasing(calls.drop_first()));
            if slot(calls, index) < calls.len() {
                assert(calls[slot(calls, index)] == calls.drop_first()[slot(calls, index) - 1]);
            }
        }
    }
}

proof fn lemma_set_builder_increasing(calls: Seq<(u32, BuilderModel)>, index: u32, b: BuilderModel)
    requires
        keys_increasing(calls),
    ensures
        keys_increasing(set_builder(calls, index, b)),
{
    lemma_slot_bounds(calls, index);
    let p = slot(calls, index);
    let r = set_builder(calls, index, b);
    if has_entry(calls, index) {
        assert forall|i: int, j: int| 0 <= i < j < r.len() implies r[i].0 < r[j].0 by {
            assert(r[i].0 == calls[i].0);
            assert(r[j].0 == calls[j].0);
        }
    } else {
        assert forall|i: int, j: int| 0 <= i < j < r.len() implies r[i].0 < r[j].0 by {
            if i < p && j == p {
            } else if i == p {
                assert(r[j] == calls[j - 1]);
                assert(calls[p].0 >= index);
                if j - 1 > p {
                    assert(calls[p].0 < calls[j - 1].0);
                }
            } else if j < p {
            } else {
                if i < p {
                    assert(r[i] == calls[i]);
                    assert(r[j] == calls[j - 1]);
                } else {
                    assert(r[i] == calls[i - 1]);
                    assert(r[j] == calls[j - 1]);
                }
            }
        }
    }
}

/// What completing the accumulated state `st` gives.
pub open spec fn completes_as(st: AccModel, r: Result<CompletedStreamResponse, StreamError>) -> bool {
    match completed_calls(st.calls) {
        Err(e) => r is Err && r->Err_0 == e,
        Ok(c) => r matches Ok(resp) && {
            &&& crate::api::opt_calls(resp.message.tool_calls) == c
            &&& opt_text(resp.message.reasoning_content) == if st.reasoning.len() == 0 {
                None
            } else {
                Some(st.reasoning)
            }
            &&& opt_text(resp.message.content) == if st.content.len() == 0 && c is None {
                None
            } else {
                Some(st.content)
            }
            &&& resp.message.role@ == match st.role {
                Some(role) => role,
                None => "assistant"@,
            }
            &&& opt_text(resp.finish_reason) == st.finish_reason
            &&& resp.usage == st.usage
        },
    }
}

impl StreamAccumulator {
    pub fn new() -> (a: Self)
        ensures
            a@ == (AccModel {
                role: None,
                content: Seq::empty(),
                reasoning: Seq::empty(),
                calls: Seq::empty(),
                finish_reason: None,
                usage: None,
                phase: Phase::NotStarted,
            }),
            keys_increasing(a@.calls),
    {
        let a = StreamAccumulator {
            role: None,
            content: String::new(),
            reasoning_content: String::new(),
            tool_calls: Vec::new(),
            finish_reason: None,
            usage: None,
            phase: Phase::NotStarted,
        };
        assert(a@.calls =~= Seq::<(u32, BuilderModel)>::empty());
        a
    }

    /// The position of the entry for `index`, and whether there is one.
    fn find_slot(&self, index: u32) -> (r: (usize, bool))
        requires
            keys_increasing(self@.calls),
        ensures
            r.0 == slot(self@.calls, index),
            r.1 == has_entry(self@.calls, index),
    {
        let ghost calls = self@.calls;
        let mut i: usize = 0;
        proof {
            lemma_slot_bounds(calls, index);
            assert(calls.subrange(0, calls.len() as int) =~= calls);
        }
        while i < self.tool_calls.len() && self.tool_calls[i].0 < index
            invariant
                i <= self.tool_calls@.len(),
                calls == self@.calls,
                keys_increasing(calls),
                slot(calls, index) == i + slot(calls.subrange(i as int, calls.len() as int), index),
            decreases self.tool_calls.len() - i,
        {
            proof {
                let rest = calls.subrange(i as int, calls.len() as int);
                assert(rest[0] == calls[i as int]);
                assert(rest.drop_first() =~= calls.subrange(i + 1, calls.len() as int));
            }
            i = i + 1;
        }
        proof {
            let rest = calls.subrange(i as int, calls.len() as int);
            if i < calls.len() {
                assert(rest[0] == calls[i as int]);
            }
        }
        let found = i < self.tool_calls.len() && self.tool_calls[i].0 == index;
        (i, found)
    }

    fn apply_tool_delta(&mut self, td: &ToolCallDelta) -> (e: AgentStreamEvent)
        requires
            keys_increasing(old(self)@.calls),
        ensures
            (final(self)@, e@) == tool_delta_step(old(self)@, *td),
            keys_increasing(final(self)@.calls),
    {
        let (pos, found) = self.find_slot(td.index);
        let ghost calls = self@.calls;
        proof {
            lemma_slot_bounds(calls, td.index);
        }
        let mut builder = if found {
            let (_, b) = self.tool_calls.remove(pos);
            b
        } else {
            ToolCallBuilder::new()
        };
        let ghost b0 = builder@;
        let event_args: Option<String> = match &td.function {
            Some(f) => clone_opt(&f.arguments),
            None => None,
        };
        match &td.id {
            Some(id) => {
                builder.id = Some(id.clone());
            },
            None => {},
        }
        match &td.kind {
            Some(k) => {
                builder.kind = Some(k.clone());
            },
            None => {},
        }
        match &td.function {
            Some(f) => {
                match &f.name {
                    Some(n) => {
                        builder.name = Some(n.clone());
                    },
                    None => {},
                }
                match &f.arguments {
                    Some(a) => {
                        builder.arguments.append(a.as_str());
                    },
                    None => {},
                }
            },
            None => {},
        }
        proof {
            if opt_args(*td) is None {
                assert(builder.arguments@ =~= b0.arguments + Seq::<char>::empty());
            }
        }
        let event = AgentStreamEvent::ToolCallDelta {
            index: td.index,
            id: clone_opt(&builder.id),
            name: clone_opt(&builder.name),
            arguments_delta: event_args,
        };
        let ghost b1 = builder@;
        let ghost before = self.tool_calls@;
        self.tool_calls.insert(pos, (td.index, builder));
        proof {
            lemma_slot_bounds(calls, td.index);
            if found {
                assert(builder_entries(self.tool_calls@) =~= calls.update(pos as int, (td.index, b1)));
            } else {
                assert(builder_entries(self.tool_calls@) =~= calls.insert(pos as int, (td.index, b1)));
            }
            lemma_set_builder_increasing(calls, td.index, b1);
        }
        event
    }

    fn tool_deltas(&mut self, tds: &Vec<ToolCallDelta>) -> (events: Vec<AgentStreamEvent>)
        requires
            keys_increasing(old(self)@.calls),
        ensures
            keys_increasing(final(self)@.calls),
            (final(self)@, event_views(events@)) == tool_deltas_step(old(self)@, tds@),
    {
        let mut events: Vec<AgentStreamEvent> = Vec::new();
        let mut i: usize = 0;
        while i < tds.len()
            invariant
                i <= tds@.len(),
                keys_increasing(self@.calls),
                (self@, event_views(events@)) == tool_deltas_step(old(self)@, tds@.take(i as int)),
            decreases tds.len() - i,
        {
            let e = self.apply_tool_delta(&tds[i]);
            push_event(&mut events, e);
            proof {
                assert(tds@.take(i + 1).drop_last() =~= tds@.take(i as int));
                assert(tds@.take(i + 1).last() == tds@[i as int]);
            }
            i = i + 1;
        }
        assert(tds@.take(tds@.len() as int) =~= tds@);
        events
    }

    fn process_delta(&mut self, delta: &ChoiceDelta) -> (events: Vec<AgentStreamEvent>)
        requires
            keys_increasing(old(self)@.calls),
        ensures
            keys_increasing(final(self)@.calls),
            (final(self)@, event_views(events@)) == delta_step(old(self)@, *delta),
    {
        let mut events: Vec<AgentStreamEvent> = Vec::new();
        match &delta.reasoning_content {
            Some(reasoning) => {
                match self.phase {
                    Phase::Reasoning => {},
                    _ => {
                        push_event(&mut events, AgentStreamEvent::ReasoningStarted);
                    },
                }
                self.phase = Phase::Reasoning;
                push_event(&mut events, AgentStreamEvent::ReasoningDelta(reasoning.clone()));
                self.reasoning_content.append(reasoning.as_str());
            },
            None => {},
        }
        let ghost e1 = event_views(events@);
        let mut answer: Vec<AgentStreamEvent> = Vec::new();
        match &delta.content {
            Some(content) => {
                if !content.as_str().is_empty() {
                    match self.phase {
                        Phase::Answer => {},
                        _ => {
                            push_event(&mut answer, AgentStreamEvent::AnswerStarted);
                        },
                    }
                    self.phase = Phase::Answer;
                    push_event(&mut answer, AgentStreamEvent::AnswerDelta(content.clone()));
                    self.content.append(content.as_str());
                }
            },
            None => {},
        }
        let ghost e2 = event_views(answer@);
        let mut tools = match &delta.tool_calls {
            Some(tds) => self.tool_deltas(tds),
            None => Vec::new(),
        };
        let ghost e3 = event_views(tools@);
        append_events(&mut events, answer);
        append_events(&mut events, tools);
        assert(event_views(events@) =~= e1 + e2 + e3);
        events
    }

    fn process_choice(&mut self, choice: &StreamChoice, round: usize) -> (events: Vec<
        AgentStreamEvent,
    >)
        requires
            keys_increasing(old(self)@.calls),
        ensures
            keys_increasing(final(self)@.calls),
            (final(self)@, event_views(events@)) == choice_step(old(self)@, *choice, round),
    {
        let mut events: Vec<AgentStreamEvent> = Vec::new();
        match self.phase {
            Phase::NotStarted => {
                push_event(&mut events, AgentStreamEvent::ResponseStarted { round });
                self.phase = Phase::Started;
            },
            _ => {},
        }
        match &choice.delta.role {
            Some(role) => {
                self.role = Some(role.clone());
            },
            None => {},
        }
        let ghost e0 = event_views(events@);
        let rest = self.process_delta(&choice.delta);
        let ghost e2 = event_views(rest@);
        append_events(&mut events, rest);
        match &choice.finish_reason {
            Some(fr) => {
                self.finish_reason = Some(fr.clone());
            },
            None => {},
        }
        assert(event_views(events@) =~= e0 + e2);
        events
    }

    /// Folds one chunk into the reply and returns the events it gives rise
    /// to, in order.
    pub fn push_events(&mut self, chunk: &ChatCompletionStreamChunk, round: usize) -> (events: Vec<
        AgentStreamEvent,
    >)
        requires
            keys_increasing(old(self)@.calls),
        ensures
            keys_increasing(final(self)@.calls),
            (final(self)@, event_views(events@)) == chunk_step(old(self)@, *chunk, round),
    {
        let mut events: Vec<AgentStreamEvent> = Vec::new();
        match &chunk.usage {
            Some(u) => {
                self.usage = Some(*u);
                push_event(&mut events, AgentStreamEvent::Usage(*u));
            },
            None => {},
        }
        let ghost s0 = self@;
        let ghost e0 = event_views(events@);
        let mut choices: Vec<AgentStreamEvent> = Vec::new();
        let mut i: usize = 0;
        while i < chunk.choices.len()
            invariant
                i <= chunk.choices@.len(),
                keys_increasing(self@.calls),
                (self@, event_views(choices@)) == choices_step(s0, chunk.choices@.take(i as int), round),
            decreases chunk.choices.len() - i,
        {
            let ghost before = event_views(choices@);
            let part = self.process_choice(&chunk.choices[i], round);
            let ghost pv = event_views(part@);
            append_events(&mut choices, part);
            proof {
                assert(chunk.choices@.take(i + 1).drop_last() =~= chunk.choices@.take(i as int));
                assert(chunk.choices@.take(i + 1).last() == chunk.choices@[i as int]);
                assert(event_views(choices@) =~= before + pv);
            }
            i = i + 1;
        }
        assert(chunk.choices@.take(chunk.choices@.len() as int) =~= chunk.choices@);
        let ghost ec = event_views(choices@);
        append_events(&mut events, choices);
        assert(event_views(events@) =~= e0 + ec);
        events
    }

    /// Folds one chunk into the reply, handing its events to `sink`; the
    /// first event that the sink refuses ends the call with its error.
    pub fn push<S: AgentEventSink>(
        &mut self,
        chunk: ChatCompletionStreamChunk,
        sink: &mut S,
        round: usize,
    ) -> (r: Result<(), StreamError>)
        requires
            keys_increasing(old(self)@.calls),
        ensures
            keys_increasing(final(self)@.calls),
            final(self)@ == chunk_step(old(self)@, chunk, round).0,
    {
        let events = self.push_events(&chunk, round);
        let ghost after = self@;
        let mut i: usize = 0;
        while i < events.len()
            invariant
                i <= events@.len(),
                self@ == after,
                after == chunk_step(old(self)@, chunk, round).0,
                keys_increasing(self@.calls),
            decreases events.len() - i,
        {
            match sink.on_event(&events[i]) {
                Ok(()) => {},
                Err(e) => {
                    return Err(StreamError::Sink(e));
                },
            }
            i = i + 1;
        }
        Ok(())
    }

    /// The final message: the tool calls in index order (each must have an
    /// id and a name), the reasoning and the answer (absent when empty; an
    /// empty answer is kept when there are tool calls), and the role,
    /// `assistant` by default.
    pub fn complete(self) -> (r: Result<CompletedStreamResponse, StreamError>)
        ensures
            completes_as(self@, r),
    {
        let ghost st = self@;
        let tool_calls = &self.tool_calls;
        let calls = if tool_calls.len() == 0 {
            None
        } else {
            let ghost all = builder_entries(tool_calls@);
            let mut built: Vec<ToolCall> = Vec::new();
            let mut i: usize = 0;
            assert(all.take(0) =~= Seq::<(u32, BuilderModel)>::empty());
            assert(tool_call_views(built@) =~= Seq::<ToolCallModel>::empty());
            while i < tool_calls.len()
                invariant
                    i <= tool_calls@.len(),
                    all == builder_entries(tool_calls@),
                    all == st.calls,
                    st == self@,
                    build_all(all.take(i as int)) == Ok::<Seq<ToolCallModel>, StreamError>(
                        tool_call_views(built@),
                    ),
                decreases tool_calls.len() - i,
            {
                proof {
                    assert(all.take(i + 1).drop_last() =~= all.take(i as int));
                    assert(all[i as int].1 == tool_calls@[i as int].1@);
                }
                match tool_calls[i].1.build_ref() {
                    Ok(c) => {
                        let ghost bv = tool_call_views(built@);
                        built.push(c);
                        assert(tool_call_views(built@) =~= bv.push(c@));
                    },
                    Err(e) => {
                        proof {
                            lemma_build_all_err(all, i + 1, e);
                            assert(build_all(st.calls) == Err::<Seq<ToolCallModel>, StreamError>(e));
                            assert(completed_calls(st.calls) == Err::<Option<Seq<ToolCallModel>>, StreamError>(e));
                        }
                        return Err(e);
                    },
                }
                i = i + 1;
            }
            assert(all.take(all.len() as int) =~= all);
            Some(built)
        };
        let reasoning = if self.reasoning_content.as_str().is_empty() {
            None
        } else {
            Some(self.reasoning_content.clone())
        };
        let has_calls = match &calls {
            Some(_) => true,
            None => false,
        };
        let content = if self.content.as_str().is_empty() && !has_calls {
            None
        } else {
            Some(self.content.clone())
        };
        let role = match &self.role {
            Some(r) => r.clone(),
            None => String::from_str("assistant"),
        };
        Ok(
            CompletedStreamResponse {
                message: ChoiceMessage { role, content, reasoning_content: reasoning, tool_calls: calls },
                finish_reason: clone_opt(&self.finish_reason),
                usage: self.usage,
            },
        )
    }

    /// The event that ends the stream: `ResponseFinished` with the last
    /// finish reason.
    pub fn finished_event(&self) -> (e: AgentStreamEvent)
        ensures
            e@ == (EventModel::ResponseFinished { finish_reason: self@.finish_reason }),
    {
        AgentStreamEvent::ResponseFinished { finish_reason: clone_opt(&self.finish_reason) }
    }

    /// Ends the stream: reports `finished_event` to `sink`, then completes
    /// the reply; a sink error stops it.
    pub fn finish<S: AgentEventSink>(self, sink: &mut S) -> (r: Result<
        CompletedStreamResponse,
        StreamError,
    >)
        ensures
            r matches Err(StreamError::Sink(_)) || completes_as(self@, r),
    {
        let event = self.finished_event();
        match sink.on_event(&event) {
            Ok(()) => {},
            Err(e) => {
                return Err(StreamError::Sink(e));
            },
        }
        self.complete()
    }
}

proof fn lemma_build_all_err(all: Seq<(u32, BuilderModel)>, n: int, e: StreamError)
    requires
        0 < n <= all.len(),
        build_all(all.take(n - 1)) is Ok,
        spec_build(all[n - 1].1) == Err::<ToolCallModel, StreamError>(e),
    ensures
        build_all(all) == Err::<Seq<ToolCallModel>, StreamError>(e),
    decreases all.len() - n,
{
    assert(all.take(n).drop_last() =~= all.take(n - 1));
    if n == all.len() {
        assert(all.take(n) =~= all);
    } else {
        lemma_build_all_err_grow(all, n, e);
    }
}

proof fn lemma_build_all_err_grow(all: Seq<(u32, BuilderModel)>, n: int, e: StreamError)
    requires
        0 < n <= all.len(),
        build_all(all.take(n)) == Err::<Seq<ToolCallModel>, StreamError>(e),
    ensures
        build_all(all) == Err::<Seq<ToolCallModel>, StreamError>(e),
    decreases all.len() - n,
{
    if n == all.len() {
        assert(all.take(n) =~= all);
    } else {
        assert(all.take(n + 1).drop_last() =~= all.take(n));
        lemma_build_all_err_grow(all, n + 1, e);
    }
}

// ---------------------------------------------------------------------------
// Laws.
// ---------------------------------------------------------------------------

/// A delta whose only content is empty text changes nothing and reports
/// nothing.
pub proof fn lemma_empty_content_is_ignored(st: AccModel, d: ChoiceDelta)
    requires
        d.reasoning_content is None,
        d.content matches Some(c) && c@.len() == 0,
        d.tool_calls is None,
    ensures
        delta_step(st, d) == (st, Seq::<EventModel>::empty()),
{
    assert(Seq::<EventModel>::empty() + Seq::<EventModel>::empty() + Seq::<EventModel>::empty()
        =~= Seq::<EventModel>::empty());
}

proof fn lemma_slot_unique(calls: Seq<(u32, BuilderModel)>, index: u32, p: int)
    requires
        keys_increasing(calls),
        0 <= p < calls.len(),
        calls[p].0 == index,
    ensures
        slot(calls, index) == p,
{
    lemma_slot_bounds(calls, index);
    let s = slot(calls, index);
    if s < p {
        assert(calls[s].0 < calls[p].0);
    } else if s > p {
        assert(calls[p].0 < index);
    }
}

/// The builder for an index, after a delta for that index, holds the new
/// arguments after the ones it had.
pub proof fn lemma_tool_arguments_accumulate(st: AccModel, td: ToolCallDelta)
    requires
        keys_increasing(st.calls),
    ensures
        builder_for(tool_delta_step(st, td).0.calls, td.index).arguments == builder_for(
            st.calls,
            td.index,
        ).arguments + match opt_args(td) {
            Some(a) => a,
            None => Seq::empty(),
        },
        builder_for(tool_delta_step(st, td).0.calls, td.index).name == or_keep(
            opt_name(td),
            builder_for(st.calls, td.index).name,
        ),
{
    let calls = st.calls;
    let after = tool_delta_step(st, td).0.calls;
    lemma_slot_bounds(calls, td.index);
    let p = slot(calls, td.index);
    let b1 = BuilderModel {
        id: or_keep(opt_text(td.id), builder_for(calls, td.index).id),
        kind: or_keep(opt_text(td.kind), builder_for(calls, td.index).kind),
        name: or_keep(opt_name(td), builder_for(calls, td.index).name),
        arguments: builder_for(calls, td.index).arguments + match opt_args(td) {
            Some(a) => a,
            None => Seq::empty(),
        },
    };
    assert(after == set_builder(calls, td.index, b1));
    lemma_set_builder_increasing(calls, td.index, b1);
    assert(after[p] == (td.index, b1));
    lemma_slot_unique(after, td.index, p);
}

/// The answer text a delta carries (none without content).
pub open spec fn delta_text(d: ChoiceDelta) -> Seq<char> {
    match d.content {
        Some(c) => c@,
        None => Seq::empty(),
    }
}

/// The answer text of a chunk's choices, in order.
pub open spec fn choices_text(cs: Seq<StreamChoice>) -> Seq<char>
    decreases cs.len(),
{
    if cs.len() == 0 {
        Seq::empty()
    } else {
        choices_text(cs.drop_last()) + delta_text(cs.last().delta)
    }
}

/// The answer text of a stream of chunks, in order.
pub open spec fn chunks_text(chunks: Seq<ChatCompletionStreamChunk>) -> Seq<char>
    decreases chunks.len(),
{
    if chunks.len() == 0 {
        Seq::empty()
    } else {
        chunks_text(chunks.drop_last()) + choices_text(chunks.last().choices@)
    }
}

/// The accumulator after taking chunks one after another.
pub open spec fn accumulate(st: AccModel, chunks: Seq<ChatCompletionStreamChunk>, round: usize) -> AccModel
    decreases chunks.len(),
{
    if chunks.len() == 0 {
        st
    } else {
        chunk_step(accumulate(st, chunks.drop_last(), round), chunks.last(), round).0
    }
}

proof fn lemma_tool_deltas_keep_content(st: AccModel, tds: Seq<ToolCallDelta>)
    ensures
        tool_deltas_step(st, tds).0.content == st.content,
    decreases tds.len(),
{
    if tds.len() > 0 {
        lemma_tool_deltas_keep_content(st, tds.drop_last());
    }
}

/// A delta adds its answer text after the text so far.
pub proof fn lemma_delta_appends_content(st: AccModel, d: ChoiceDelta)
    ensures
        delta_step(st, d).0.content == st.content + delta_text(d),
{
    let (s1, e1) = match opt_text(d.reasoning_content) {
        Some(r) => (
            AccModel { phase: Phase::Reasoning, reasoning: st.reasoning + r, ..st },
            Seq::<EventModel>::empty(),
        ),
        None => (st, Seq::empty()),
    };
    let s2 = match opt_text(d.content) {
        Some(c) => if c.len() > 0 {
            AccModel { phase: Phase::Answer, content: s1.content + c, ..s1 }
        } else {
            s1
        },
        None => s1,
    };
    match d.tool_calls {
        Some(tds) => lemma_tool_deltas_keep_content(s2, tds@),
        None => {},
    }
    match d.content {
        Some(c) => {
            if c@.len() == 0 {
                assert(st.content + c@ =~= st.content);
            }
        },
        None => {
            assert(st.content + Seq::<char>::empty() =~= st.content);
        },
    }
}

proof fn lemma_choices_append_content(st: AccModel, cs: Seq<StreamChoice>, round: usize)
    ensures
        choices_step(st, cs, round).0.content == st.content + choices_text(cs),
    decreases cs.len(),
{
    if cs.len() == 0 {
        assert(st.content + Seq::<char>::empty() =~= st.content);
    } else {
        lemma_choices_append_content(st, cs.drop_last(), round);
        let s1 = choices_step(st, cs.drop_last(), round).0;
        let c = cs.last();
        let s0 = if s1.phase == Phase::NotStarted {
            AccModel { phase: Phase::Started, ..s1 }
        } else {
            s1
        };
        let sr = AccModel { role: or_keep(opt_text(c.delta.role), s0.role), ..s0 };
        lemma_delta_appends_content(sr, c.delta);
        assert(st.content + choices_text(cs.drop_last()) + delta_text(c.delta) =~= st.content + choices_text(
            cs,
        ));
    }
}

/// A chunk adds the answer text of its choices, in order, after the text so
/// far.
pub proof fn lemma_chunk_appends_content(st: AccModel, chunk: ChatCompletionStreamChunk, round: usize)
    ensures
        chunk_step(st, chunk, round).0.content == st.content + choices_text(chunk.choices@),
{
    let s0 = match chunk.usage {
        Some(u) => AccModel { usage: Some(u), ..st },
        None => st,
    };
    lemma_choices_append_content(s0, chunk.choices@, round);
}

/// The answer of a stream is all its answer text, in order: the content
/// deltas are appended one after another, none replaces another.
pub proof fn lemma_stream_content_is_concatenation(
    st: AccModel,
    chunks: Seq<ChatCompletionStreamChunk>,
    round: usize,
)
    ensures
        accumulate(st, chunks, round).content == st.content + chunks_text(chunks),
    decreases chunks.len(),
{
    if chunks.len() == 0 {
        assert(st.content + Seq::<char>::empty() =~= st.content);
    } else {
        lemma_stream_content_is_concatenation(st, chunks.drop_last(), round);
        lemma_chunk_appends_content(accumulate(st, chunks.drop_last(), round), chunks.last(), round);
        assert(st.content + chunks_text(chunks.drop_last()) + choices_text(chunks.last().choices@) =~= st.content
            + chunks_text(chunks));
    }
}

} // verus!
