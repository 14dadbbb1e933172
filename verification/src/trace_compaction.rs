//! Compact trace archives: consecutive stream deltas of one output merge into
//! one event, and the request snapshots of model calls are written as
//! differences from the previous request, with a full keyframe at least every
//! few calls and a SHA-256 hash to check each reconstruction.
use vstd::prelude::*;
use vstd::string::*;
use vstd::utf8::encode_utf8;
use crate::json::{
    as_text, as_u64, field, json_number, json_str, json_text, lemma_member_models, member, member_insert,
    member_models, members_insert, object_of, opt_text, same_text, set_member, set_member_exec, text_field,
    text_of, Json, JsonModel,
};
use crate::text::{append_chars, append_str, decimal, decimal_string, str_chars, string_from_chars};
use crate::context::budget::{byte_len, json_string};
use crate::json::{
    item_models, lemma_insert_after_remove, lemma_insert_present, lemma_insert_sorted, lemma_item_models,
    lemma_number_u64_decimal, lemma_remove_insert_commute, lemma_remove_sorted, member_lookup,
    member_remove, members_sorted, members_without,
};
use crate::trace::{
    snapshot_from, snapshot_json, snapshot_of, JsonSnapshot, SnapshotModel, TaskStatus, TraceEventType,
    DEFAULT_SNAPSHOT_MAX_BYTES,
};
use crate::trace_file::{event_models, ArchivedEvent, ArchivedEventModel, ArchivedTask, TraceArchive};

verus! {

pub const TRACE_ARCHIVE_V2_SCHEMA_VERSION: u32 = 2;

const REQUEST_DIFF_ENCODING: &'static str = "snapshot-diff/v1";

const REQUEST_KEYFRAME_ENCODING: &'static str = "snapshot-keyframe/v1";

const REQUEST_KEYFRAME_INTERVAL: usize = 8;

const REQUEST_DIFF_MAX_FULL_RATIO_NUMERATOR: usize = 75;

const REQUEST_DIFF_MAX_FULL_RATIO_DENOMINATOR: usize = 100;

const REQUEST_DIFF_MIN_SAVINGS_BYTES: usize = 2048;

/// A number member, as an unsigned integer.
fn u64_field(v: &Json, key: &str) -> (r: Option<u64>)
    ensures
        r == as_u64(field(v@, key@)),
{
    match v.get(key) {
        Some(Json::Number(t)) => crate::json::number_as_u64(t.as_str()),
        _ => None,
    }
}


// ---------------------------------------------------------------------------
// Merging runs of stream deltas.
// ---------------------------------------------------------------------------

/// The stream a delta belongs to.
#[derive(Debug, Clone, Copy, PartialEq, Eq, Structural)]
pub enum MergeKind {
    Reasoning,
    FinalAnswer,
    ToolCall { index: u64 },
}

/// What a mergeable delta event carries.
pub struct CandidateModel {
    pub kind: MergeKind,
    pub node_id: Seq<char>,
    pub delta: Seq<char>,
    pub tool_call_id: Option<Seq<char>>,
    pub tool_name: Option<Seq<char>>,
}

pub open spec fn nonempty_text(o: Option<Seq<char>>) -> Option<Seq<char>> {
    match o {
        Some(s) => if s.len() > 0 {
            Some(s)
        } else {
            None
        },
        None => None,
    }
}

/// A reasoning delta, a final-answer delta or a tool-call argument delta,
/// with its node and a non-empty delta, can merge with its neighbours.
pub open spec fn merge_candidate(e: ArchivedEventModel) -> Option<CandidateModel> {
    let p = e.payload;
    if e.event_type == TraceEventType::ModelCallReasoningDelta {
        match (text_of(p, "node_id"@), text_of(p, "delta"@)) {
            (Some(node), Some(d)) => if d.len() > 0 {
                Some(
                    CandidateModel {
                        kind: MergeKind::Reasoning,
                        node_id: node,
                        delta: d,
                        tool_call_id: None,
                        tool_name: None,
                    },
                )
            } else {
                None
            },
            _ => None,
        }
    } else if e.event_type == TraceEventType::ModelOutputDelta {
        match (text_of(p, "node_id"@), text_of(p, "kind"@)) {
            (Some(node), Some(kind)) => if kind == "final_answer"@ {
                match text_of(p, "content_delta"@) {
                    Some(d) => if d.len() > 0 {
                        Some(
                            CandidateModel {
                                kind: MergeKind::FinalAnswer,
                                node_id: node,
                                delta: d,
                                tool_call_id: None,
                                tool_name: None,
                            },
                        )
                    } else {
                        None
                    },
                    None => None,
                }
            } else if kind == "tool_calls"@ {
                match field(p, "tool_call"@) {
                    Some(tc) => match (as_u64(field(tc, "index"@)), text_of(tc, "arguments_delta"@)) {
                        (Some(ix), Some(d)) => if d.len() > 0 {
                            Some(
                                CandidateModel {
                                    kind: MergeKind::ToolCall { index: ix },
                                    node_id: node,
                                    delta: d,
                                    tool_call_id: nonempty_text(text_of(tc, "tool_call_id"@)),
                                    tool_name: nonempty_text(text_of(tc, "name"@)),
                                },
                            )
                        } else {
                            None
                        },
                        _ => None,
                    },
                    None => None,
                }
            } else {
                None
            },
            _ => None,
        }
    } else {
        None
    }
}

struct MergeCandidate {
    kind: MergeKind,
    node_id: String,
    delta: String,
    tool_call_id: Option<String>,
    tool_name: Option<String>,
}

impl MergeCandidate {
    spec fn model(&self) -> CandidateModel {
        CandidateModel {
            kind: self.kind,
            node_id: self.node_id@,
            delta: self.delta@,
            tool_call_id: opt_text(self.tool_call_id),
            tool_name: opt_text(self.tool_name),
        }
    }

    fn from_event(event: &ArchivedEvent) -> (r: Option<MergeCandidate>)
        ensures
            match r {
                Some(c) => merge_candidate(event@) == Some(c.model()),
                None => merge_candidate(event@) is None,
            },
    {
        let p = &event.payload;
        match event.event_type {
            TraceEventType::ModelCallReasoningDelta => {
                let node_id = match text_field(p, "node_id") {
                    Some(n) => n,
                    None => return None,
                };
                let delta = match text_field(p, "delta") {
                    Some(d) => d,
                    None => return None,
                };
                if delta.as_str().is_empty() {
                    return None;
                }
                Some(
                    MergeCandidate {
                        kind: MergeKind::Reasoning,
                        node_id,
                        delta,
                        tool_call_id: None,
                        tool_name: None,
                    },
                )
            },
            TraceEventType::ModelOutputDelta => {
                let node_id = match text_field(p, "node_id") {
                    Some(n) => n,
                    None => return None,
                };
                let kind = match text_field(p, "kind") {
                    Some(k) => k,
                    None => return None,
                };
                proof {
                    reveal_strlit("final_answer");
                    reveal_strlit("tool_calls");
                }
                if same_text(kind.as_str(), "final_answer") {
                    let delta = match text_field(p, "content_delta") {
                        Some(d) => d,
                        None => return None,
                    };
                    if delta.as_str().is_empty() {
                        return None;
                    }
                    Some(
                        MergeCandidate {
                            kind: MergeKind::FinalAnswer,
                            node_id,
                            delta,
                            tool_call_id: None,
                            tool_name: None,
                        },
                    )
                } else if same_text(kind.as_str(), "tool_calls") {
                    let tool_call = match p.get("tool_call") {
                        Some(t) => t,
                        None => return None,
                    };
                    let index = match u64_field(tool_call, "index") {
                        Some(i) => i,
                        None => return None,
                    };
                    let delta = match text_field(tool_call, "arguments_delta") {
                        Some(d) => d,
                        None => return None,
                    };
                    if delta.as_str().is_empty() {
                        return None;
                    }
                    let tool_call_id = optional_string(tool_call, "tool_call_id");
                    let tool_name = optional_string(tool_call, "name");
                    Some(
                        MergeCandidate {
                            kind: MergeKind::ToolCall { index },
                            node_id,
                            delta,
                            tool_call_id,
                            tool_name,
                        },
                    )
                } else {
                    None
                }
            },
            _ => None,
        }
    }

    fn same_stream(&self, other: &MergeCandidate) -> (r: bool)
        ensures
            r == (self.model().kind == other.model().kind && self.model().node_id
                == other.model().node_id),
    {
        self.kind == other.kind && same_text(self.node_id.as_str(), other.node_id.as_str())
    }
}

/// A member's text when it is a non-empty string.
fn optional_string(v: &Json, key: &str) -> (r: Option<String>)
    ensures
        opt_text(r) == nonempty_text(as_text(field(v@, key@))),
{
    match text_field(v, key) {
        Some(s) => if s.as_str().is_empty() {
            None
        } else {
            Some(s)
        },
        None => None,
    }
}

pub open spec fn values_compatible(left: Option<Seq<char>>, right: Option<Seq<char>>) -> bool {
    match (left, right) {
        (Some(l), Some(r)) => l == r,
        _ => true,
    }
}

fn optional_values_compatible(left: &Option<String>, right: &Option<String>) -> (r: bool)
    ensures
        r == values_compatible(opt_text(*left), opt_text(*right)),
{
    match (left, right) {
        (Some(l), Some(r)) => same_text(l.as_str(), r.as_str()),
        _ => true,
    }
}


/// A run of merged deltas: the first and last events, the stream, the
/// concatenated delta and the first tool call id and name seen.
pub struct RunModel {
    pub first: ArchivedEventModel,
    pub last: ArchivedEventModel,
    pub candidate: CandidateModel,
    pub seq_start: u64,
    pub timestamp_start: Seq<char>,
    pub count: nat,
    pub delta: Seq<char>,
    pub tool_call_id: Option<Seq<char>>,
    pub tool_name: Option<Seq<char>>,
}

pub open spec fn run_start(e: ArchivedEventModel, c: CandidateModel) -> RunModel {
    RunModel {
        first: e,
        last: e,
        candidate: c,
        seq_start: e.seq,
        timestamp_start: e.timestamp,
        count: 1,
        delta: c.delta,
        tool_call_id: c.tool_call_id,
        tool_name: c.tool_name,
    }
}

/// A run takes a delta of the same kind and node whose tool call id and name
/// do not contradict its own.
pub open spec fn run_accepts(r: RunModel, c: CandidateModel) -> bool {
    &&& r.candidate.kind == c.kind
    &&& r.candidate.node_id == c.node_id
    &&& values_compatible(r.tool_call_id, c.tool_call_id)
    &&& values_compatible(r.tool_name, c.tool_name)
}

pub open spec fn first_some(a: Option<Seq<char>>, b: Option<Seq<char>>) -> Option<Seq<char>> {
    if a is None {
        b
    } else {
        a
    }
}

pub open spec fn run_absorb(r: RunModel, e: ArchivedEventModel, c: CandidateModel) -> RunModel {
    RunModel {
        last: e,
        count: r.count + 1,
        delta: r.delta + c.delta,
        tool_call_id: first_some(r.tool_call_id, c.tool_call_id),
        tool_name: first_some(r.tool_name, c.tool_name),
        ..r
    }
}

pub open spec fn text_or_null(o: Option<Seq<char>>) -> JsonModel {
    match o {
        Some(s) => JsonModel::Str(s),
        None => JsonModel::Null,
    }
}

pub open spec fn field_or_null(m: JsonModel, key: Seq<char>) -> JsonModel {
    match field(m, key) {
        Some(v) => v,
        None => JsonModel::Null,
    }
}

/// `payload[outer][key] = value`.
pub open spec fn set_nested(m: JsonModel, outer: Seq<char>, key: Seq<char>, value: JsonModel) -> JsonModel {
    set_member(m, outer, set_member(field_or_null(m, outer), key, value))
}

/// The `_compact` record of a merged run.
pub open spec fn run_marker(r: RunModel) -> JsonModel {
    JsonModel::Object(
        seq![
            ("count"@, JsonModel::Number(decimal(r.count))),
            ("kind"@, JsonModel::Str("event_run"@)),
            ("seq_end"@, JsonModel::Number(decimal(r.last.seq as nat))),
            ("seq_start"@, JsonModel::Number(decimal(r.seq_start as nat))),
            ("timestamp_end"@, JsonModel::Str(r.last.timestamp)),
            ("timestamp_start"@, JsonModel::Str(r.timestamp_start)),
        ],
    )
}

/// The payload of the last event with the merged delta in place of its own.
pub open spec fn merged_payload(r: RunModel) -> JsonModel {
    let p = r.last.payload;
    match r.candidate.kind {
        MergeKind::Reasoning => set_member(p, "delta"@, JsonModel::Str(r.delta)),
        MergeKind::FinalAnswer => set_member(p, "content_delta"@, JsonModel::Str(r.delta)),
        MergeKind::ToolCall { .. } => {
            let p1 = set_nested(p, "tool_call"@, "arguments_delta"@, JsonModel::Str(r.delta));
            let p2 = set_nested(p1, "tool_call"@, "tool_call_id"@, text_or_null(r.tool_call_id));
            set_nested(p2, "tool_call"@, "name"@, text_or_null(r.tool_name))
        },
    }
}

/// The event a run becomes: a run of one is its event; a longer run is its
/// last event with the merged delta and a `_compact` record.
pub open spec fn run_event(r: RunModel) -> ArchivedEventModel {
    if r.count == 1 {
        r.first
    } else {
        ArchivedEventModel {
            payload: set_member(merged_payload(r), "_compact"@, run_marker(r)),
            ..r.last
        }
    }
}

pub struct CompactState {
    pub out: Seq<ArchivedEventModel>,
    pub run: Option<RunModel>,
    pub runs: nat,
}

pub open spec fn flush_run(st: CompactState) -> CompactState {
    match st.run {
        Some(r) => CompactState {
            out: st.out.push(run_event(r)),
            run: None,
            runs: if r.count > 1 {
                st.runs + 1
            } else {
                st.runs
            },
        },
        None => st,
    }
}

pub open spec fn compact_step(st: CompactState, e: ArchivedEventModel) -> CompactState {
    match merge_candidate(e) {
        Some(c) => match st.run {
            Some(r) => if run_accepts(r, c) {
                CompactState { run: Some(run_absorb(r, e, c)), ..st }
            } else {
                CompactState { run: Some(run_start(e, c)), ..flush_run(st) }
            },
            None => CompactState { run: Some(run_start(e, c)), ..st },
        },
        None => {
            let f = flush_run(st);
            CompactState { out: f.out.push(e), ..f }
        },
    }
}

pub open spec fn compact_fold(events: Seq<ArchivedEventModel>) -> CompactState
    decreases events.len(),
{
    if events.len() == 0 {
        CompactState { out: Seq::empty(), run: None, runs: 0 }
    } else {
        compact_step(compact_fold(events.drop_last()), events.last())
    }
}

/// `compact_events`: the events with each maximal run of mergeable deltas
/// of one stream replaced by one event, and the number of runs of more than
/// one event.
pub open spec fn compacted(events: Seq<ArchivedEventModel>) -> CompactState {
    flush_run(compact_fold(events))
}

struct EventRun {
    first_event: ArchivedEvent,
    last_event: ArchivedEvent,
    candidate: MergeCandidate,
    seq_start: u64,
    timestamp_start: String,
    count: usize,
    delta: Vec<char>,
    tool_call_id: Option<String>,
    tool_name: Option<String>,
}

impl EventRun {
    spec fn model(&self) -> RunModel {
        RunModel {
            first: self.first_event@,
            last: self.last_event@,
            candidate: self.candidate.model(),
            seq_start: self.seq_start,
            timestamp_start: self.timestamp_start@,
            count: self.count as nat,
            delta: self.delta@,
            tool_call_id: opt_text(self.tool_call_id),
            tool_name: opt_text(self.tool_name),
        }
    }

    fn new(event: &ArchivedEvent, candidate: MergeCandidate) -> (r: EventRun)
        ensures
            r.model() == run_start(event@, candidate.model()),
    {
        let delta = str_chars(candidate.delta.as_str());
        let tool_call_id = candidate.tool_call_id.clone();
        let tool_name = candidate.tool_name.clone();
        EventRun {
            first_event: event.clone_event(),
            last_event: event.clone_event(),
            seq_start: event.seq,
            timestamp_start: event.timestamp.clone(),
            count: 1,
            delta,
            tool_call_id,
            tool_name,
            candidate,
        }
    }

    fn can_absorb(&self, candidate: &MergeCandidate) -> (b: bool)
        ensures
            b == run_accepts(self.model(), candidate.model()),
    {
        self.candidate.same_stream(candidate) && optional_values_compatible(
            &self.tool_call_id,
            &candidate.tool_call_id,
        ) && optional_values_compatible(&self.tool_name, &candidate.tool_name)
    }

    fn absorb(&mut self, event: &ArchivedEvent, candidate: MergeCandidate)
        requires
            old(self).count < usize::MAX,
        ensures
            final(self).model() == run_absorb(old(self).model(), event@, candidate.model()),
    {
        self.last_event = event.clone_event();
        self.count = self.count + 1;
        append_str(&mut self.delta, candidate.delta.as_str());
        if self.tool_call_id.is_none() {
            self.tool_call_id = candidate.tool_call_id.clone();
        }
        if self.tool_name.is_none() {
            self.tool_name = candidate.tool_name.clone();
        }
    }

    fn into_event(self) -> (e: ArchivedEvent)
        ensures
            e@ == run_event(self.model()),
    {
        if self.count == 1 {
            return self.first_event;
        }
        let ghost model = self.model();
        let mut event = self.last_event;
        let delta = string_from_chars(self.delta.as_slice());
        match self.candidate.kind {
            MergeKind::Reasoning => {
                set_member_exec(&mut event.payload, "delta", Json::Str(delta));
                proof {
                    reveal_strlit("delta");
                }
            },
            MergeKind::FinalAnswer => {
                set_member_exec(&mut event.payload, "content_delta", Json::Str(delta));
                proof {
                    reveal_strlit("content_delta");
                }
            },
            MergeKind::ToolCall { .. } => {
                set_nested_exec(&mut event.payload, "tool_call", "arguments_delta", Json::Str(delta));
                let id = match self.tool_call_id {
                    Some(t) => Json::Str(t),
                    None => Json::Null,
                };
                set_nested_exec(&mut event.payload, "tool_call", "tool_call_id", id);
                let name = match self.tool_name {
                    Some(t) => Json::Str(t),
                    None => Json::Null,
                };
                set_nested_exec(&mut event.payload, "tool_call", "name", name);
                proof {
                    reveal_strlit("tool_call");
                    reveal_strlit("arguments_delta");
                    reveal_strlit("tool_call_id");
                    reveal_strlit("name");
                }
            },
        }
        let marker = run_marker_exec(
            self.count,
            event.seq,
            self.seq_start,
            &event.timestamp,
            &self.timestamp_start,
        );
        set_member_exec(&mut event.payload, "_compact", marker);
        proof {
            reveal_strlit("_compact");
        }
        event
    }
}

/// `payload[outer][key] = value`.
fn set_nested_exec(target: &mut Json, outer: &str, key: &str, value: Json)
    ensures
        final(target)@ == set_nested(old(target)@, outer@, key@, value@),
{
    let mut inner = match target.get(outer) {
        Some(v) => v.deep_clone(),
        None => Json::Null,
    };
    set_member_exec(&mut inner, key, value);
    set_member_exec(target, outer, inner);
}

fn run_marker_exec(
    count: usize,
    seq_end: u64,
    seq_start: u64,
    timestamp_end: &String,
    timestamp_start: &String,
) -> (j: Json)
    ensures
        j@ == JsonModel::Object(
            seq![
                ("count"@, JsonModel::Number(decimal(count as nat))),
                ("kind"@, JsonModel::Str("event_run"@)),
                ("seq_end"@, JsonModel::Number(decimal(seq_end as nat))),
                ("seq_start"@, JsonModel::Number(decimal(seq_start as nat))),
                ("timestamp_end"@, JsonModel::Str(timestamp_end@)),
                ("timestamp_start"@, JsonModel::Str(timestamp_start@)),
            ],
        ),
{
    let mut ms: Vec<(String, Json)> = Vec::new();
    ms.push(member("count", json_number(count as u64)));
    ms.push(member("kind", json_str("event_run")));
    ms.push(member("seq_end", json_number(seq_end)));
    ms.push(member("seq_start", json_number(seq_start)));
    ms.push(member("timestamp_end", Json::Str(timestamp_end.clone())));
    ms.push(member("timestamp_start", Json::Str(timestamp_start.clone())));
    proof {
        lemma_member_models(ms@);
        reveal_strlit("count");
        reveal_strlit("kind");
        reveal_strlit("event_run");
        reveal_strlit("seq_end");
        reveal_strlit("seq_start");
        reveal_strlit("timestamp_end");
        reveal_strlit("timestamp_start");
    }
    let j = object_of(ms);
    assert(member_models(ms@) =~= seq![
        ("count"@, JsonModel::Number(decimal(count as nat))),
        ("kind"@, JsonModel::Str("event_run"@)),
        ("seq_end"@, JsonModel::Number(decimal(seq_end as nat))),
        ("seq_start"@, JsonModel::Number(decimal(seq_start as nat))),
        ("timestamp_end"@, JsonModel::Str(timestamp_end@)),
        ("timestamp_start"@, JsonModel::Str(timestamp_start@)),
    ]);
    j
}

/// The events of a compaction and the number of runs merged.
pub struct CompactEventsResult {
    pub events: Vec<ArchivedEvent>,
    pub event_runs: usize,
}

spec fn run_view(o: Option<EventRun>) -> Option<RunModel> {
    match o {
        Some(r) => Some(r.model()),
        None => None,
    }
}

spec fn pending(o: Option<RunModel>) -> nat {
    match o {
        Some(r) => r.count,
        None => 0,
    }
}

proof fn lemma_event_models_push(s: Seq<ArchivedEvent>, e: ArchivedEvent)
    ensures
        event_models(s.push(e)) == event_models(s).push(e@),
{
    assert(event_models(s.push(e)) =~= event_models(s).push(e@));
}

fn flush_event_run(compacted: &mut Vec<ArchivedEvent>, run: EventRun, event_runs: &mut usize)
    requires
        *old(event_runs) < usize::MAX,
    ensures
        event_models(final(compacted)@) == event_models(old(compacted)@).push(run_event(run.model())),
        final(compacted)@.len() == old(compacted)@.len() + 1,
        *final(event_runs) == if run.model().count > 1 {
            *old(event_runs) + 1
        } else {
            *old(event_runs) as int
        },
{
    if run.count > 1 {
        *event_runs = *event_runs + 1;
    }
    let ghost before = compacted@;
    let e = run.into_event();
    compacted.push(e);
    proof {
        lemma_event_models_push(before, e);
    }
}

/// `compact_events`: merges each maximal run of consecutive deltas of one
/// stream into one event.
pub fn compact_events(events: &[ArchivedEvent]) -> (r: CompactEventsResult)
    ensures
        event_models(r.events@) == compacted(event_models(events@)).out,
        r.event_runs == compacted(event_models(events@)).runs,
{
    let ghost models = event_models(events@);
    let mut compacted: Vec<ArchivedEvent> = Vec::new();
    let mut run: Option<EventRun> = None;
    let mut event_runs: usize = 0;
    let mut i: usize = 0;
    assert(models.take(0) =~= Seq::<ArchivedEventModel>::empty());
    assert(event_models(compacted@) =~= Seq::<ArchivedEventModel>::empty());
    while i < events.len()
        invariant
            i <= events.len(),
            models == event_models(events@),
            compact_fold(models.take(i as int)) == (CompactState {
                out: event_models(compacted@),
                run: run_view(run),
                runs: event_runs as nat,
            }),
            run matches Some(r) ==> r.count >= 1,
            compacted@.len() + pending(run_view(run)) <= i,
            event_runs <= compacted@.len(),
        decreases events.len() - i,
    {
        let event = &events[i];
        proof {
            assert(models.take(i + 1).drop_last() =~= models.take(i as int));
            assert(models.take(i + 1).last() == event@);
        }
        match MergeCandidate::from_event(event) {
            Some(candidate) => {
                let mut cur: Option<EventRun> = None;
                std::mem::swap(&mut cur, &mut run);
                match cur {
                    Some(mut active) => {
                        if active.can_absorb(&candidate) {
                            active.absorb(event, candidate);
                            run = Some(active);
                        } else {
                            flush_event_run(&mut compacted, active, &mut event_runs);
                            run = Some(EventRun::new(event, candidate));
                        }
                    },
                    None => {
                        run = Some(EventRun::new(event, candidate));
                    },
                }
            },
            None => {
                let mut cur: Option<EventRun> = None;
                std::mem::swap(&mut cur, &mut run);
                match cur {
                    Some(active) => {
                        flush_event_run(&mut compacted, active, &mut event_runs);
                    },
                    None => {},
                }
                let ghost before = compacted@;
                let copy = event.clone_event();
                compacted.push(copy);
                proof {
                    lemma_event_models_push(before, copy);
                }
            },
        }
        i = i + 1;
    }
    assert(models.take(events.len() as int) =~= models);
    let mut cur: Option<EventRun> = None;
    std::mem::swap(&mut cur, &mut run);
    match cur {
        Some(active) => {
            flush_event_run(&mut compacted, active, &mut event_runs);
        },
        None => {},
    }
    CompactEventsResult { events: compacted, event_runs }
}


// ---------------------------------------------------------------------------
// Hashes of request snapshots.
// ---------------------------------------------------------------------------

/// The SHA-256 digest of some bytes.
pub uninterp spec fn sha256_digest(data: Seq<u8>) -> Seq<u8>;

/// `sha2::Sha256` (`Digest::new`, `update`, `finalize`): the digest of the
/// bytes, 32 bytes long.
#[verifier::external_body]
fn sha256(data: &[u8]) -> (r: Vec<u8>)
    ensures
        r@ == sha256_digest(data@),
        r@.len() == 32,
{
    let mut hasher = <sha2::Sha256 as sha2::Digest>::new();
    sha2::Digest::update(&mut hasher, data);
    sha2::Digest::finalize(hasher).to_vec()
}

pub open spec fn hex_digit(n: nat) -> char {
    if n < 10 {
        (n + 48) as char
    } else {
        (n + 87) as char
    }
}

/// Lower-case hexadecimal, two digits a byte.
pub open spec fn hex_text(bytes: Seq<u8>) -> Seq<char>
    decreases bytes.len(),
{
    if bytes.len() == 0 {
        Seq::empty()
    } else {
        hex_text(bytes.drop_last()) + seq![
            hex_digit((bytes.last() / 16) as nat),
            hex_digit((bytes.last() % 16) as nat),
        ]
    }
}

fn hex_char(n: u8) -> (c: char)
    requires
        n < 16,
    ensures
        c == hex_digit(n as nat),
{
    match n {
        0 => '0',
        1 => '1',
        2 => '2',
        3 => '3',
        4 => '4',
        5 => '5',
        6 => '6',
        7 => '7',
        8 => '8',
        9 => '9',
        10 => 'a',
        11 => 'b',
        12 => 'c',
        13 => 'd',
        14 => 'e',
        _ => 'f',
    }
}

fn hex_bytes(bytes: &[u8]) -> (r: Vec<char>)
    ensures
        r@ == hex_text(bytes@),
{
    let mut out: Vec<char> = Vec::new();
    let mut i: usize = 0;
    while i < bytes.len()
        invariant
            i <= bytes.len(),
            out@ == hex_text(bytes@.take(i as int)),
        decreases bytes.len() - i,
    {
        let b = bytes[i];
        out.push(hex_char(b / 16));
        out.push(hex_char(b % 16));
        proof {
            assert(bytes@.take(i + 1).drop_last() =~= bytes@.take(i as int));
            assert(out@ =~= hex_text(bytes@.take(i + 1)));
        }
        i = i + 1;
    }
    assert(bytes@.take(bytes.len() as int) =~= bytes@);
    out
}

/// `sha256:` and the hexadecimal SHA-256 digest of the value's compact text.
pub open spec fn snapshot_hash(value: JsonModel) -> Seq<char> {
    "sha256:"@ + hex_text(sha256_digest(encode_utf8(json_text(value))))
}

fn snapshot_hash_exec(value: &Json) -> (r: String)
    ensures
        r@ == snapshot_hash(value@),
{
    let text = value.to_text();
    let digest = sha256(text.as_str().as_bytes());
    let mut out = str_chars("sha256:");
    let hex = hex_bytes(digest.as_slice());
    append_chars(&mut out, hex.as_slice());
    proof {
        reveal_strlit("sha256:");
    }
    string_from_chars(out.as_slice())
}

// ---------------------------------------------------------------------------
// Request snapshots as differences from the previous request.
// ---------------------------------------------------------------------------

/// The request of the previous model call: its node, value and hash.
pub struct RequestBase {
    pub node_id: String,
    pub value: Json,
    pub hash: String,
}

pub struct BaseModel {
    pub node_id: Seq<char>,
    pub value: JsonModel,
    pub hash: Seq<char>,
}

impl View for RequestBase {
    type V = BaseModel;

    open spec fn view(&self) -> BaseModel {
        BaseModel { node_id: self.node_id@, value: self.value@, hash: self.hash@ }
    }
}

/// The messages of a request: its `messages` array.
pub open spec fn request_messages(v: JsonModel) -> Option<Seq<JsonModel>> {
    match field(v, "messages"@) {
        Some(JsonModel::Array(items)) => Some(items),
        _ => None,
    }
}

fn request_messages_exec(v: &Json) -> (r: Option<&Vec<Json>>)
    ensures
        match r {
            Some(items) => request_messages(v@) == Some(item_models(items@)),
            None => request_messages(v@) is None,
        },
{
    proof {
        reveal_strlit("messages");
    }
    match v.get("messages") {
        Some(Json::Array(items)) => Some(items),
        _ => None,
    }
}

/// A request without its messages and their count.
pub open spec fn request_shell(v: JsonModel) -> Option<JsonModel> {
    match v {
        JsonModel::Object(ms) => Some(
            JsonModel::Object(member_remove(member_remove(ms, "message_count"@), "messages"@)),
        ),
        _ => None,
    }
}

fn request_shell_exec(v: &Json) -> (r: Option<Json>)
    ensures
        match r {
            Some(s) => request_shell(v@) == Some(s@),
            None => request_shell(v@) is None,
        },
{
    proof {
        reveal_strlit("message_count");
        reveal_strlit("messages");
    }
    match v {
        Json::Object(ms) => {
            let a = members_without(ms, "message_count");
            let b = members_without(&a, "messages");
            Some(Json::Object(b))
        },
        _ => None,
    }
}

/// The number of leading messages two lists share.
pub open spec fn common_prefix(a: Seq<JsonModel>, b: Seq<JsonModel>) -> nat
    decreases a.len(),
{
    if a.len() == 0 || b.len() == 0 || a[0] != b[0] {
        0
    } else {
        1 + common_prefix(a.drop_first(), b.drop_first())
    }
}

proof fn lemma_common_prefix_bound(a: Seq<JsonModel>, b: Seq<JsonModel>)
    ensures
        common_prefix(a, b) <= a.len(),
        common_prefix(a, b) <= b.len(),
        forall|k: int| 0 <= k < common_prefix(a, b) ==> a[k] == b[k],
    decreases a.len(),
{
    if !(a.len() == 0 || b.len() == 0 || a[0] != b[0]) {
        lemma_common_prefix_bound(a.drop_first(), b.drop_first());
        assert forall|k: int| 0 <= k < common_prefix(a, b) implies a[k] == b[k] by {
            if k > 0 {
                assert(a.drop_first()[k - 1] == b.drop_first()[k - 1]);
            }
        }
    }
}

fn common_prefix_exec(a: &Vec<Json>, b: &Vec<Json>) -> (n: usize)
    ensures
        n == common_prefix(item_models(a@), item_models(b@)),
{
    proof {
        lemma_item_models(a@);
        lemma_item_models(b@);
    }
    let ghost am = item_models(a@);
    let ghost bm = item_models(b@);
    let mut i: usize = 0;
    assert(am.skip(0) =~= am);
    assert(bm.skip(0) =~= bm);
    while i < a.len() && i < b.len() && a[i].same_as(&b[i])
        invariant
            i <= a.len(),
            i <= b.len(),
            am == item_models(a@),
            bm == item_models(b@),
            am.len() == a@.len(),
            bm.len() == b@.len(),
            forall|k: int| 0 <= k < a@.len() ==> #[trigger] am[k] == json_model_of(a@[k]),
            forall|k: int| 0 <= k < b@.len() ==> #[trigger] bm[k] == json_model_of(b@[k]),
            common_prefix(am, bm) == i + common_prefix(am.skip(i as int), bm.skip(i as int)),
        decreases a.len() - i,
    {
        proof {
            assert(am.skip(i as int)[0] == am[i as int]);
            assert(bm.skip(i as int)[0] == bm[i as int]);
            assert(am.skip(i as int).drop_first() =~= am.skip(i + 1));
            assert(bm.skip(i as int).drop_first() =~= bm.skip(i + 1));
        }
        i = i + 1;
    }
    proof {
        if i < a.len() && i < b.len() {
            assert(am.skip(i as int)[0] == am[i as int]);
            assert(bm.skip(i as int)[0] == bm[i as int]);
        }
    }
    i
}

pub open spec fn json_model_of(j: Json) -> JsonModel {
    j@
}

pub open spec fn op_retain(count: nat) -> JsonModel {
    JsonModel::Object(
        seq![("count"@, JsonModel::Number(decimal(count))), ("op"@, JsonModel::Str("retain_prefix"@))],
    )
}

pub open spec fn op_append(messages: Seq<JsonModel>) -> JsonModel {
    JsonModel::Object(
        seq![("messages"@, JsonModel::Array(messages)), ("op"@, JsonModel::Str("append"@))],
    )
}

pub open spec fn op_replace(start: nat, delete: nat, messages: Seq<JsonModel>) -> JsonModel {
    JsonModel::Object(
        seq![
            ("delete"@, JsonModel::Number(decimal(delete))),
            ("messages"@, JsonModel::Array(messages)),
            ("op"@, JsonModel::Str("replace_range"@)),
            ("start"@, JsonModel::Number(decimal(start))),
        ],
    )
}

/// The operations that turn the base messages into the target's: keep the
/// shared prefix, then append the rest when the base is a prefix of the
/// target, else replace the base's remainder by the target's.
pub open spec fn delta_ops(base: Seq<JsonModel>, target: Seq<JsonModel>) -> Seq<JsonModel> {
    let c = common_prefix(base, target);
    let head = if c > 0 {
        seq![op_retain(c)]
    } else {
        Seq::empty()
    };
    if c == base.len() {
        if target.len() > c {
            head.push(op_append(target.skip(c as int)))
        } else {
            head
        }
    } else {
        head.push(op_replace(c, (base.len() - c) as nat, target.skip(c as int)))
    }
}

/// The text `serde_json::to_vec` writes for a snapshot: its fields in
/// declaration order.
pub open spec fn snapshot_struct_text(s: SnapshotModel) -> Seq<char> {
    "{\"value\":"@ + json_text(s.value) + ",\"text\":"@ + json_string(s.text) + ",\"truncated\":"@
        + (if s.truncated {
        "true"@
    } else {
        "false"@
    }) + "}"@
}

/// A delta frame with the given statistics.
pub open spec fn frame_with(
    base: BaseModel,
    target: SnapshotModel,
    target_len: nat,
    ops: Seq<JsonModel>,
    full_bytes: nat,
    patch_bytes: nat,
) -> JsonModel {
    JsonModel::Object(
        seq![
            ("base_hash"@, JsonModel::Str(base.hash)),
            ("base_node_id"@, JsonModel::Str(base.node_id)),
            ("encoding"@, JsonModel::Str("snapshot-diff/v1"@)),
            ("message_count"@, JsonModel::Number(decimal(target_len))),
            ("ops"@, JsonModel::Array(ops)),
            (
                "stats"@,
                JsonModel::Object(
                    seq![
                        ("full_bytes"@, JsonModel::Number(decimal(full_bytes))),
                        ("patch_bytes"@, JsonModel::Number(decimal(patch_bytes))),
                    ],
                ),
            ),
            ("target_hash"@, JsonModel::Str(snapshot_hash(target.value))),
        ],
    )
}

/// `build_request_delta_frame`: when base and target differ only in their
/// messages, the delta frame, its `patch_bytes` the size of the frame that
/// carries the size of the frame with none; `None` when the shells differ,
/// messages are missing, the frame is over three quarters of the full
/// snapshot or saves under 2 KiB.
#[verifier::opaque]
pub open spec fn delta_frame(base: BaseModel, target: SnapshotModel) -> Option<JsonModel> {
    if request_shell(base.value) != request_shell(target.value) {
        None
    } else {
        match (request_messages(base.value), request_messages(target.value)) {
            (Some(bm), Some(tm)) => {
                let ops = delta_ops(bm, tm);
                let full = byte_len(snapshot_struct_text(target)) as nat;
                let p1 = byte_len(json_text(frame_with(base, target, tm.len(), ops, full, 0))) as nat;
                let p2 = byte_len(json_text(frame_with(base, target, tm.len(), ops, full, p1))) as nat;
                let too_large = p2 * 100 > full * 75;
                let savings: int = if full >= p2 {
                    full - p2
                } else {
                    0
                };
                if too_large || savings < 2048 {
                    None
                } else {
                    Some(frame_with(base, target, tm.len(), ops, full, p2))
                }
            },
            _ => None,
        }
    }
}

/// The number of messages of a request, 0 without messages.
pub open spec fn message_count_of(v: JsonModel) -> nat {
    match request_messages(v) {
        Some(ms) => ms.len(),
        None => 0,
    }
}

/// `request_keyframe`: the whole snapshot with its hash and message count.
pub open spec fn keyframe(s: SnapshotModel) -> JsonModel {
    JsonModel::Object(
        seq![
            ("encoding"@, JsonModel::Str("snapshot-keyframe/v1"@)),
            ("message_count"@, JsonModel::Number(decimal(message_count_of(s.value)))),
            ("snapshot"@, snapshot_json(s)),
            ("target_hash"@, JsonModel::Str(snapshot_hash(s.value))),
        ],
    )
}

fn copy_items(items: &Vec<Json>, from: usize) -> (r: Vec<Json>)
    requires
        from <= items.len(),
    ensures
        item_models(r@) == item_models(items@).skip(from as int),
{
    proof {
        lemma_item_models(items@);
    }
    let mut out: Vec<Json> = Vec::new();
    let mut i: usize = from;
    while i < items.len()
        invariant
            from <= i <= items.len(),
            item_models(items@).len() == items@.len(),
            forall|k: int| 0 <= k < items@.len() ==> #[trigger] item_models(items@)[k] == json_model_of(items@[k]),
            item_models(out@) == item_models(items@).subrange(from as int, i as int),
        decreases items.len() - i,
    {
        let ghost before = out@;
        out.push(items[i].deep_clone());
        proof {
            assert(out@.drop_last() =~= before);
            assert(item_models(items@).subrange(from as int, i + 1).drop_last() =~= item_models(
                items@,
            ).subrange(from as int, i as int));
        }
        i = i + 1;
    }
    assert(item_models(items@).subrange(from as int, items.len() as int) =~= item_models(items@).skip(
        from as int,
    ));
    out
}

fn op_retain_exec(count: usize) -> (j: Json)
    ensures
        j@ == op_retain(count as nat),
{
    let mut ms: Vec<(String, Json)> = Vec::new();
    ms.push(member("count", json_number(count as u64)));
    ms.push(member("op", json_str("retain_prefix")));
    proof {
        lemma_member_models(ms@);
        reveal_strlit("count");
        reveal_strlit("op");
        reveal_strlit("retain_prefix");
        assert(member_models(ms@) =~= seq![
            ("count"@, JsonModel::Number(decimal(count as nat))),
            ("op"@, JsonModel::Str("retain_prefix"@)),
        ]);
    }
    object_of(ms)
}

fn op_append_exec(messages: Vec<Json>) -> (j: Json)
    ensures
        j@ == op_append(item_models(messages@)),
{
    let ghost mm = item_models(messages@);
    let mut ms: Vec<(String, Json)> = Vec::new();
    ms.push(member("messages", Json::Array(messages)));
    ms.push(member("op", json_str("append")));
    proof {
        lemma_member_models(ms@);
        reveal_strlit("messages");
        reveal_strlit("op");
        reveal_strlit("append");
        assert(member_models(ms@) =~= seq![
            ("messages"@, JsonModel::Array(mm)),
            ("op"@, JsonModel::Str("append"@)),
        ]);
    }
    object_of(ms)
}

fn op_replace_exec(start: usize, delete: usize, messages: Vec<Json>) -> (j: Json)
    ensures
        j@ == op_replace(start as nat, delete as nat, item_models(messages@)),
{
    let ghost mm = item_models(messages@);
    let mut ms: Vec<(String, Json)> = Vec::new();
    ms.push(member("delete", json_number(delete as u64)));
    ms.push(member("messages", Json::Array(messages)));
    ms.push(member("op", json_str("replace_range")));
    ms.push(member("start", json_number(start as u64)));
    proof {
        lemma_member_models(ms@);
        reveal_strlit("delete");
        reveal_strlit("messages");
        reveal_strlit("op");
        reveal_strlit("replace_range");
        reveal_strlit("start");
        assert(member_models(ms@) =~= seq![
            ("delete"@, JsonModel::Number(decimal(delete as nat))),
            ("messages"@, JsonModel::Array(mm)),
            ("op"@, JsonModel::Str("replace_range"@)),
            ("start"@, JsonModel::Number(decimal(start as nat))),
        ]);
    }
    object_of(ms)
}

fn delta_ops_exec(base: &Vec<Json>, target: &Vec<Json>) -> (r: Vec<Json>)
    ensures
        item_models(r@) == delta_ops(item_models(base@), item_models(target@)),
{
    let ghost bm = item_models(base@);
    let ghost tm = item_models(target@);
    proof {
        lemma_item_models(base@);
        lemma_item_models(target@);
        lemma_common_prefix_bound(bm, tm);
    }
    let common = common_prefix_exec(base, target);
    let mut ops: Vec<Json> = Vec::new();
    if common > 0 {
        ops.push(op_retain_exec(common));
    }
    let ghost head = item_models(ops@);
    proof {
        lemma_item_models(ops@);
        if common > 0 {
            assert(head =~= seq![op_retain(common as nat)]);
        } else {
            assert(head =~= Seq::<JsonModel>::empty());
        }
    }
    if common == base.len() {
        if target.len() > common {
            let rest = copy_items(target, common);
            let ghost before = ops@;
            ops.push(op_append_exec(rest));
            proof {
                assert(ops@.drop_last() =~= before);
            }
        }
    } else {
        let rest = copy_items(target, common);
        let ghost before = ops@;
        ops.push(op_replace_exec(common, base.len() - common, rest));
        proof {
            assert(ops@.drop_last() =~= before);
        }
    }
    ops
}

fn text_str_len(text: &Vec<char>) -> (n: usize)
    ensures
        n == byte_len(text@),
{
    let s = string_from_chars(text.as_slice());
    s.as_str().len()
}

fn snapshot_struct_len(s: &JsonSnapshot) -> (n: usize)
    ensures
        n == byte_len(snapshot_struct_text(s@)),
{
    let mut out = str_chars("{\"value\":");
    s.value.write_text(&mut out);
    append_str(&mut out, ",\"text\":");
    let lit = crate::context::budget::json_string_literal(s.text.as_str());
    append_str(&mut out, lit.as_str());
    append_str(&mut out, ",\"truncated\":");
    if s.truncated {
        append_str(&mut out, "true");
    } else {
        append_str(&mut out, "false");
    }
    append_str(&mut out, "}");
    proof {
        assert(out@ =~= snapshot_struct_text(s@));
    }
    text_str_len(&out)
}

fn frame_with_exec(
    base: &RequestBase,
    target_hash: &String,
    target_len: usize,
    ops: &Vec<Json>,
    full_bytes: usize,
    patch_bytes: usize,
) -> (j: Json)
    ensures
        forall|t: SnapshotModel|
            snapshot_hash(t.value) == target_hash@ ==> j@ == frame_with(
                base@,
                t,
                target_len as nat,
                item_models(ops@),
                full_bytes as nat,
                patch_bytes as nat,
            ),
{
    let mut stats: Vec<(String, Json)> = Vec::new();
    stats.push(member("full_bytes", json_number(full_bytes as u64)));
    stats.push(member("patch_bytes", json_number(patch_bytes as u64)));
    let mut copied: Vec<Json> = Vec::new();
    let mut i: usize = 0;
    proof {
        lemma_item_models(ops@);
    }
    while i < ops.len()
        invariant
            i <= ops.len(),
            item_models(ops@).len() == ops@.len(),
            forall|k: int| 0 <= k < ops@.len() ==> #[trigger] item_models(ops@)[k] == json_model_of(ops@[k]),
            item_models(copied@) == item_models(ops@).take(i as int),
        decreases ops.len() - i,
    {
        let ghost before = copied@;
        copied.push(ops[i].deep_clone());
        proof {
            assert(copied@.drop_last() =~= before);
            assert(item_models(ops@).take(i + 1).drop_last() =~= item_models(ops@).take(i as int));
        }
        i = i + 1;
    }
    assert(item_models(ops@).take(ops.len() as int) =~= item_models(ops@));
    let ghost om = item_models(copied@);
    let mut ms: Vec<(String, Json)> = Vec::new();
    ms.push(member("base_hash", Json::Str(base.hash.clone())));
    ms.push(member("base_node_id", Json::Str(base.node_id.clone())));
    ms.push(member("encoding", json_str(REQUEST_DIFF_ENCODING)));
    ms.push(member("message_count", json_number(target_len as u64)));
    ms.push(member("ops", Json::Array(copied)));
    ms.push(member("stats", object_of(stats)));
    ms.push(member("target_hash", Json::Str(target_hash.clone())));
    proof {
        lemma_member_models(stats@);
        lemma_member_models(ms@);
        reveal_strlit("full_bytes");
        reveal_strlit("patch_bytes");
        reveal_strlit("base_hash");
        reveal_strlit("base_node_id");
        reveal_strlit("encoding");
        reveal_strlit("snapshot-diff/v1");
        reveal_strlit("message_count");
        reveal_strlit("ops");
        reveal_strlit("stats");
        reveal_strlit("target_hash");
        assert(member_models(stats@) =~= seq![
            ("full_bytes"@, JsonModel::Number(decimal(full_bytes as nat))),
            ("patch_bytes"@, JsonModel::Number(decimal(patch_bytes as nat))),
        ]);
    }
    let j = object_of(ms);
    proof {
        assert forall|t: SnapshotModel| snapshot_hash(t.value) == target_hash@ implies j@ == frame_with(
            base@,
            t,
            target_len as nat,
            item_models(ops@),
            full_bytes as nat,
            patch_bytes as nat,
        ) by {
            assert(member_models(ms@) =~= seq![
                ("base_hash"@, JsonModel::Str(base.hash@)),
                ("base_node_id"@, JsonModel::Str(base.node_id@)),
                ("encoding"@, JsonModel::Str("snapshot-diff/v1"@)),
                ("message_count"@, JsonModel::Number(decimal(target_len as nat))),
                ("ops"@, JsonModel::Array(om)),
                (
                    "stats"@,
                    JsonModel::Object(
                        seq![
                            ("full_bytes"@, JsonModel::Number(decimal(full_bytes as nat))),
                            ("patch_bytes"@, JsonModel::Number(decimal(patch_bytes as nat))),
                        ],
                    ),
                ),
                ("target_hash"@, JsonModel::Str(snapshot_hash(t.value))),
            ]);
        }
    }
    j
}

fn json_len(j: &Json) -> (n: usize)
    ensures
        n == byte_len(json_text(j@)),
{
    let t = j.to_text();
    t.as_str().len()
}

/// `build_request_delta_frame`.
fn build_request_delta_frame(base: &RequestBase, target: &JsonSnapshot) -> (r: Option<Json>)
    ensures
        match r {
            Some(f) => delta_frame(base@, target@) == Some(f@),
            None => delta_frame(base@, target@) is None,
        },
{
    proof {
        reveal(delta_frame);
    }
    let bs = request_shell_exec(&base.value);
    let ts = request_shell_exec(&target.value);
    let same = match (&bs, &ts) {
        (Some(a), Some(b)) => a.same_as(b),
        (None, None) => true,
        _ => false,
    };
    if !same {
        return None;
    }
    let base_messages = match request_messages_exec(&base.value) {
        Some(m) => m,
        None => return None,
    };
    let target_messages = match request_messages_exec(&target.value) {
        Some(m) => m,
        None => return None,
    };
    proof {
        lemma_item_models(target_messages@);
    }
    let ops = delta_ops_exec(base_messages, target_messages);
    let full = snapshot_struct_len(target);
    let target_hash = snapshot_hash_exec(&target.value);
    let n = target_messages.len();
    let f0 = frame_with_exec(base, &target_hash, n, &ops, full, 0);
    let p1 = json_len(&f0);
    let f1 = frame_with_exec(base, &target_hash, n, &ops, full, p1);
    let p2 = json_len(&f1);
    let too_large = (p2 as u128) * (REQUEST_DIFF_MAX_FULL_RATIO_DENOMINATOR as u128) > (full as u128)
        * (REQUEST_DIFF_MAX_FULL_RATIO_NUMERATOR as u128);
    let savings = if full >= p2 {
        full - p2
    } else {
        0
    };
    if too_large || savings < REQUEST_DIFF_MIN_SAVINGS_BYTES {
        return None;
    }
    let f2 = frame_with_exec(base, &target_hash, n, &ops, full, p2);
    Some(f2)
}

fn request_keyframe(snapshot: &JsonSnapshot) -> (j: Json)
    ensures
        j@ == keyframe(snapshot@),
{
    let count: usize = match request_messages_exec(&snapshot.value) {
        Some(m) => {
            proof {
                lemma_item_models(m@);
            }
            m.len()
        },
        None => 0,
    };
    let mut ms: Vec<(String, Json)> = Vec::new();
    ms.push(member("encoding", json_str(REQUEST_KEYFRAME_ENCODING)));
    ms.push(member("message_count", json_number(count as u64)));
    ms.push(member("snapshot", snapshot.to_json()));
    ms.push(member("target_hash", Json::Str(snapshot_hash_exec(&snapshot.value))));
    proof {
        lemma_member_models(ms@);
        reveal_strlit("encoding");
        reveal_strlit("snapshot-keyframe/v1");
        reveal_strlit("message_count");
        reveal_strlit("snapshot");
        reveal_strlit("target_hash");
        assert(member_models(ms@) =~= seq![
            ("encoding"@, JsonModel::Str("snapshot-keyframe/v1"@)),
            ("message_count"@, JsonModel::Number(decimal(message_count_of(snapshot.value@)))),
            ("snapshot"@, snapshot_json(snapshot@)),
            ("target_hash"@, JsonModel::Str(snapshot_hash(snapshot.value@))),
        ]);
    }
    object_of(ms)
}


// ---------------------------------------------------------------------------
// Errors.
// ---------------------------------------------------------------------------

/// A numeric member of a delta frame or of one of its operations.
#[derive(Debug, Clone, Copy, PartialEq, Eq, Structural)]
pub enum DeltaField {
    RetainCount,
    ReplaceStart,
    ReplaceDelete,
    MessageCount,
}

impl DeltaField {
    pub fn name(self) -> (s: &'static str)
        ensures
            s@ == delta_field_name(self),
    {
        match self {
            DeltaField::RetainCount => "retain_prefix.count",
            DeltaField::ReplaceStart => "replace_range.start",
            DeltaField::ReplaceDelete => "replace_range.delete",
            DeltaField::MessageCount => "message_count",
        }
    }
}

pub open spec fn delta_field_name(f: DeltaField) -> Seq<char> {
    match f {
        DeltaField::RetainCount => "retain_prefix.count"@,
        DeltaField::ReplaceStart => "replace_range.start"@,
        DeltaField::ReplaceDelete => "replace_range.delete"@,
        DeltaField::MessageCount => "message_count"@,
    }
}

/// Why an archive could not be compacted or expanded.
#[derive(Debug)]
pub enum TraceCompactionError {
    UnsupportedSchemaVersion(u32),
    RequestSnapshotParse,
    CanonicalSnapshotParse,
    KeyframeMissingSnapshot,
    KeyframeSnapshotParse,
    UnsupportedEncoding(String),
    DeltaMissingBaseNodeId,
    DeltaBaseNotFound(String),
    DeltaMissingBaseHash,
    DeltaBaseHashMismatch(String),
    BaseMissingMessages,
    DeltaMissingOps,
    DeltaOpMissingName,
    RetainPrefixExceedsBase,
    AppendMissingMessages,
    ReplaceRangeExceedsBase,
    ReplaceRangeMissingMessages,
    UnsupportedDeltaOp(String),
    BaseNotObject,
    MessageCountMismatch,
    FieldMissing(DeltaField),
    FieldNotUnsigned(DeltaField),
    FieldTooLarge(DeltaField),
    FrameMissingTargetHash,
    TargetHashMismatch,
}

/// The abstract failure: the error with its texts as sequences.
pub enum CompactionFailure {
    UnsupportedSchemaVersion(u32),
    RequestSnapshotParse,
    CanonicalSnapshotParse,
    KeyframeMissingSnapshot,
    KeyframeSnapshotParse,
    UnsupportedEncoding(Seq<char>),
    DeltaMissingBaseNodeId,
    DeltaBaseNotFound(Seq<char>),
    DeltaMissingBaseHash,
    DeltaBaseHashMismatch(Seq<char>),
    BaseMissingMessages,
    DeltaMissingOps,
    DeltaOpMissingName,
    RetainPrefixExceedsBase,
    AppendMissingMessages,
    ReplaceRangeExceedsBase,
    ReplaceRangeMissingMessages,
    UnsupportedDeltaOp(Seq<char>),
    BaseNotObject,
    MessageCountMismatch,
    FieldMissing(DeltaField),
    FieldNotUnsigned(DeltaField),
    FieldTooLarge(DeltaField),
    FrameMissingTargetHash,
    TargetHashMismatch,
}

impl View for TraceCompactionError {
    type V = CompactionFailure;

    open spec fn view(&self) -> CompactionFailure {
        match self {
            TraceCompactionError::UnsupportedSchemaVersion(v) => CompactionFailure::UnsupportedSchemaVersion(*v),
            TraceCompactionError::RequestSnapshotParse => CompactionFailure::RequestSnapshotParse,
            TraceCompactionError::CanonicalSnapshotParse => CompactionFailure::CanonicalSnapshotParse,
            TraceCompactionError::KeyframeMissingSnapshot => CompactionFailure::KeyframeMissingSnapshot,
            TraceCompactionError::KeyframeSnapshotParse => CompactionFailure::KeyframeSnapshotParse,
            TraceCompactionError::UnsupportedEncoding(s) => CompactionFailure::UnsupportedEncoding(s@),
            TraceCompactionError::DeltaMissingBaseNodeId => CompactionFailure::DeltaMissingBaseNodeId,
            TraceCompactionError::DeltaBaseNotFound(s) => CompactionFailure::DeltaBaseNotFound(s@),
            TraceCompactionError::DeltaMissingBaseHash => CompactionFailure::DeltaMissingBaseHash,
            TraceCompactionError::DeltaBaseHashMismatch(s) => CompactionFailure::DeltaBaseHashMismatch(s@),
            TraceCompactionError::BaseMissingMessages => CompactionFailure::BaseMissingMessages,
            TraceCompactionError::DeltaMissingOps => CompactionFailure::DeltaMissingOps,
            TraceCompactionError::DeltaOpMissingName => CompactionFailure::DeltaOpMissingName,
            TraceCompactionError::RetainPrefixExceedsBase => CompactionFailure::RetainPrefixExceedsBase,
            TraceCompactionError::AppendMissingMessages => CompactionFailure::AppendMissingMessages,
            TraceCompactionError::ReplaceRangeExceedsBase => CompactionFailure::ReplaceRangeExceedsBase,
            TraceCompactionError::ReplaceRangeMissingMessages => CompactionFailure::ReplaceRangeMissingMessages,
            TraceCompactionError::UnsupportedDeltaOp(s) => CompactionFailure::UnsupportedDeltaOp(s@),
            TraceCompactionError::BaseNotObject => CompactionFailure::BaseNotObject,
            TraceCompactionError::MessageCountMismatch => CompactionFailure::MessageCountMismatch,
            TraceCompactionError::FieldMissing(f) => CompactionFailure::FieldMissing(*f),
            TraceCompactionError::FieldNotUnsigned(f) => CompactionFailure::FieldNotUnsigned(*f),
            TraceCompactionError::FieldTooLarge(f) => CompactionFailure::FieldTooLarge(*f),
            TraceCompactionError::FrameMissingTargetHash => CompactionFailure::FrameMissingTargetHash,
            TraceCompactionError::TargetHashMismatch => CompactionFailure::TargetHashMismatch,
        }
    }
}

pub open spec fn failure_message(f: CompactionFailure) -> Seq<char> {
    match f {
        CompactionFailure::UnsupportedSchemaVersion(v) => "unsupported compact trace archive schema version "@
            + decimal(v as nat),
        CompactionFailure::RequestSnapshotParse => "failed to parse model request snapshot"@,
        CompactionFailure::CanonicalSnapshotParse => "failed to parse canonical request snapshot"@,
        CompactionFailure::KeyframeMissingSnapshot => "request keyframe missing snapshot"@,
        CompactionFailure::KeyframeSnapshotParse => "failed to parse request keyframe snapshot"@,
        CompactionFailure::UnsupportedEncoding(s) => "unsupported request snapshot encoding "@ + s,
        CompactionFailure::DeltaMissingBaseNodeId => "request delta missing base_node_id"@,
        CompactionFailure::DeltaBaseNotFound(s) => "request delta base snapshot not found: "@ + s,
        CompactionFailure::DeltaMissingBaseHash => "request delta missing base_hash"@,
        CompactionFailure::DeltaBaseHashMismatch(s) => "request delta base hash mismatch for "@ + s,
        CompactionFailure::BaseMissingMessages => "base request missing messages"@,
        CompactionFailure::DeltaMissingOps => "request delta missing ops"@,
        CompactionFailure::DeltaOpMissingName => "request delta op missing name"@,
        CompactionFailure::RetainPrefixExceedsBase => "request delta retain_prefix exceeds base messages"@,
        CompactionFailure::AppendMissingMessages => "request delta append missing messages"@,
        CompactionFailure::ReplaceRangeExceedsBase => "request delta replace_range exceeds base messages"@,
        CompactionFailure::ReplaceRangeMissingMessages => "request delta replace_range missing messages"@,
        CompactionFailure::UnsupportedDeltaOp(s) => "unsupported request delta op "@ + s,
        CompactionFailure::BaseNotObject => "base request snapshot is not an object"@,
        CompactionFailure::MessageCountMismatch => "request delta message count mismatch"@,
        CompactionFailure::FieldMissing(f) => "request delta missing "@ + delta_field_name(f),
        CompactionFailure::FieldNotUnsigned(f) => "request delta "@ + delta_field_name(f)
            + " is not an unsigned integer"@,
        CompactionFailure::FieldTooLarge(f) => "request delta "@ + delta_field_name(f) + " is too large"@,
        CompactionFailure::FrameMissingTargetHash => "request snapshot frame missing target_hash"@,
        CompactionFailure::TargetHashMismatch => "request snapshot target hash mismatch"@,
    }
}

fn joined(a: &str, b: &str) -> (r: String)
    ensures
        r@ == a@ + b@,
{
    let mut v = str_chars(a);
    append_str(&mut v, b);
    string_from_chars(v.as_slice())
}

impl TraceCompactionError {
    /// The message of the error.
    pub fn describe(&self) -> (s: String)
        ensures
            s@ == failure_message(self@),
    {
        match self {
            TraceCompactionError::UnsupportedSchemaVersion(v) => {
                let d = decimal_string(*v as u64);
                joined("unsupported compact trace archive schema version ", d.as_str())
            },
            TraceCompactionError::RequestSnapshotParse => String::from_str(
                "failed to parse model request snapshot",
            ),
            TraceCompactionError::CanonicalSnapshotParse => String::from_str(
                "failed to parse canonical request snapshot",
            ),
            TraceCompactionError::KeyframeMissingSnapshot => String::from_str(
                "request keyframe missing snapshot",
            ),
            TraceCompactionError::KeyframeSnapshotParse => String::from_str(
                "failed to parse request keyframe snapshot",
            ),
            TraceCompactionError::UnsupportedEncoding(s) => joined(
                "unsupported request snapshot encoding ",
                s.as_str(),
            ),
            TraceCompactionError::DeltaMissingBaseNodeId => String::from_str(
                "request delta missing base_node_id",
            ),
            TraceCompactionError::DeltaBaseNotFound(s) => joined(
                "request delta base snapshot not found: ",
                s.as_str(),
            ),
            TraceCompactionError::DeltaMissingBaseHash => String::from_str(
                "request delta missing base_hash",
            ),
            TraceCompactionError::DeltaBaseHashMismatch(s) => joined(
                "request delta base hash mismatch for ",
                s.as_str(),
            ),
            TraceCompactionError::BaseMissingMessages => String::from_str(
                "base request missing messages",
            ),
            TraceCompactionError::DeltaMissingOps => String::from_str("request delta missing ops"),
            TraceCompactionError::DeltaOpMissingName => String::from_str(
                "request delta op missing name",
            ),
            TraceCompactionError::RetainPrefixExceedsBase => String::from_str(
                "request delta retain_prefix exceeds base messages",
            ),
            TraceCompactionError::AppendMissingMessages => String::from_str(
                "request delta append missing messages",
            ),
            TraceCompactionError::ReplaceRangeExceedsBase => String::from_str(
                "request delta replace_range exceeds base messages",
            ),
            TraceCompactionError::ReplaceRangeMissingMessages => String::from_str(
                "request delta replace_range missing messages",
            ),
            TraceCompactionError::UnsupportedDeltaOp(s) => joined(
                "unsupported request delta op ",
                s.as_str(),
            ),
            TraceCompactionError::BaseNotObject => String::from_str(
                "base request snapshot is not an object",
            ),
            TraceCompactionError::MessageCountMismatch => String::from_str(
                "request delta message count mismatch",
            ),
            TraceCompactionError::FieldMissing(f) => joined("request delta missing ", f.name()),
            TraceCompactionError::FieldNotUnsigned(f) => {
                let a = joined("request delta ", f.name());
                joined(a.as_str(), " is not an unsigned integer")
            },
            TraceCompactionError::FieldTooLarge(f) => {
                let a = joined("request delta ", f.name());
                joined(a.as_str(), " is too large")
            },
            TraceCompactionError::FrameMissingTargetHash => String::from_str(
                "request snapshot frame missing target_hash",
            ),
            TraceCompactionError::TargetHashMismatch => String::from_str(
                "request snapshot target hash mismatch",
            ),
        }
    }
}

// ---------------------------------------------------------------------------
// Compacting the request snapshots of an event list.
// ---------------------------------------------------------------------------

pub struct SnapshotPass {
    pub events: Seq<ArchivedEventModel>,
    pub previous: Option<BaseModel>,
    pub since_keyframe: nat,
    pub keyframes: nat,
    pub delta_frames: nat,
}

pub open spec fn with_payload(e: ArchivedEventModel, p: JsonModel) -> ArchivedEventModel {
    ArchivedEventModel { payload: p, ..e }
}

pub open spec fn base_of(node_id: Seq<char>, snap: SnapshotModel) -> BaseModel {
    BaseModel { node_id, value: snap.value, hash: snapshot_hash(snap.value) }
}

/// What the pass does to one event.
pub enum StepOutcome {
    Keep,
    Encoded { event: ArchivedEventModel, base: BaseModel, delta: bool },
    Invalid,
}

/// One event of the pass: a model call with a node and a request has its
/// request written as a delta from the previous one when fewer than eight
/// deltas followed the last keyframe and a delta is worth it, else as a
/// keyframe; a request that is not a snapshot fails the pass; any other
/// event is kept.
#[verifier::opaque]
pub open spec fn step_outcome(previous: Option<BaseModel>, since_keyframe: nat, e: ArchivedEventModel) -> StepOutcome {
    if e.event_type != TraceEventType::ModelCallStarted {
        StepOutcome::Keep
    } else {
        match (text_of(e.payload, "node_id"@), field(e.payload, "request"@)) {
            (Some(node), Some(req)) => match snapshot_from(req) {
                None => StepOutcome::Invalid,
                Some(snap) => {
                    let encoded = match previous {
                        Some(b) => if since_keyframe < 8 {
                            delta_frame(b, snap)
                        } else {
                            None
                        },
                        None => None,
                    };
                    match encoded {
                        Some(f) => StepOutcome::Encoded {
                            event: with_payload(e, set_member(e.payload, "request"@, f)),
                            base: base_of(node, snap),
                            delta: true,
                        },
                        None => StepOutcome::Encoded {
                            event: with_payload(e, set_member(e.payload, "request"@, keyframe(snap))),
                            base: base_of(node, snap),
                            delta: false,
                        },
                    }
                },
            },
            _ => StepOutcome::Keep,
        }
    }
}

pub open spec fn snapshot_step(st: SnapshotPass, e: ArchivedEventModel) -> Option<SnapshotPass> {
    match step_outcome(st.previous, st.since_keyframe, e) {
        StepOutcome::Keep => Some(SnapshotPass { events: st.events.push(e), ..st }),
        StepOutcome::Invalid => None,
        StepOutcome::Encoded { event, base, delta } => Some(
            SnapshotPass {
                events: st.events.push(event),
                previous: Some(base),
                since_keyframe: if delta {
                    st.since_keyframe + 1
                } else {
                    0
                },
                keyframes: if delta {
                    st.keyframes
                } else {
                    st.keyframes + 1
                },
                delta_frames: if delta {
                    st.delta_frames + 1
                } else {
                    st.delta_frames
                },
            },
        ),
    }
}

pub open spec fn snapshot_pass(events: Seq<ArchivedEventModel>) -> Option<SnapshotPass>
    decreases events.len(),
{
    if events.len() == 0 {
        Some(
            SnapshotPass {
                events: Seq::empty(),
                previous: None,
                since_keyframe: 0,
                keyframes: 0,
                delta_frames: 0,
            },
        )
    } else {
        match snapshot_pass(events.drop_last()) {
            Some(st) => snapshot_step(st, events.last()),
            None => None,
        }
    }
}

struct SnapshotCompactionStats {
    keyframes: usize,
    delta_frames: usize,
}

spec fn base_view(o: Option<RequestBase>) -> Option<BaseModel> {
    match o {
        Some(b) => Some(b@),
        None => None,
    }
}

fn compact_request_snapshots(events: &mut Vec<ArchivedEvent>) -> (r: Result<
    SnapshotCompactionStats,
    TraceCompactionError,
>)
    ensures
        match r {
            Ok(stats) => snapshot_pass(event_models(old(events)@)) matches Some(st)
                && event_models(final(events)@) == st.events && stats.keyframes == st.keyframes
                && stats.delta_frames == st.delta_frames,
            Err(e) => snapshot_pass(event_models(old(events)@)) is None && e@
                == CompactionFailure::RequestSnapshotParse,
        },
{
    let ghost original = event_models(events@);
    let mut keyframes: usize = 0;
    let mut delta_frames: usize = 0;
    let mut previous: Option<RequestBase> = None;
    let mut frames_since_keyframe: usize = 0;
    let mut i: usize = 0;
    proof {
        reveal_strlit("node_id");
        reveal_strlit("request");
        assert(original.take(0) =~= Seq::<ArchivedEventModel>::empty());
        assert(event_models(events@).take(0) =~= Seq::<ArchivedEventModel>::empty());
    }
    while i < events.len()
        invariant
            i <= events.len(),
            original == event_models(old(events)@),
            events@.len() == original.len(),
            forall|k: int| i <= k < events@.len() ==> #[trigger] event_models(events@)[k] == original[k],
            snapshot_pass(original.take(i as int)) == Some(
                SnapshotPass {
                    events: event_models(events@).take(i as int),
                    previous: base_view(previous),
                    since_keyframe: frames_since_keyframe as nat,
                    keyframes: keyframes as nat,
                    delta_frames: delta_frames as nat,
                },
            ),
            keyframes + delta_frames <= i,
            frames_since_keyframe <= i,
        decreases events.len() - i,
    {
        let ghost models = event_models(events@);
        proof {
            assert(original.take(i + 1).drop_last() =~= original.take(i as int));
            assert(original.take(i + 1).last() == original[i as int]);
            assert(models[i as int] == original[i as int]);
        }
        match encode_event(&events[i], &previous, frames_since_keyframe) {
            EncodedStep::Keep => {
                proof {
                    assert(event_models(events@).take(i + 1) =~= models.take(i as int).push(models[i as int]));
                }
            },
            EncodedStep::Invalid => {
                proof {
                    assert(events@[i as int]@ == models[i as int]);
                    assert(events@[i as int]@ == original[i as int]);
                    assert(snapshot_step(snapshot_pass(original.take(i as int))->Some_0, original[i as int]) is None);
                    lemma_snapshot_pass_fails(original, i as int);
                }
                return Err(TraceCompactionError::RequestSnapshotParse);
            },
            EncodedStep::Encoded(event, base, delta) => {
                if delta {
                    delta_frames = delta_frames + 1;
                    frames_since_keyframe = frames_since_keyframe + 1;
                } else {
                    keyframes = keyframes + 1;
                    frames_since_keyframe = 0;
                }
                previous = Some(base);
                let ghost e_model = event@;
                events.set(i, event);
                proof {
                    assert(event_models(events@).take(i + 1) =~= models.take(i as int).push(e_model));
                    assert forall|k: int| i + 1 <= k < events@.len() implies #[trigger] event_models(
                        events@,
                    )[k] == original[k] by {
                        assert(event_models(events@)[k] == models[k]);
                    }
                }
            },
        }
        i = i + 1;
    }
    proof {
        assert(original.take(events.len() as int) =~= original);
        assert(event_models(events@).take(events.len() as int) =~= event_models(events@));
    }
    Ok(SnapshotCompactionStats { keyframes, delta_frames })
}

enum EncodedStep {
    Keep,
    Encoded(ArchivedEvent, RequestBase, bool),
    Invalid,
}

/// One event of the snapshot pass.
fn encode_event(event: &ArchivedEvent, previous: &Option<RequestBase>, since_keyframe: usize) -> (r:
    EncodedStep)
    ensures
        match r {
            EncodedStep::Keep => step_outcome(base_view(*previous), since_keyframe as nat, event@)
                is Keep,
            EncodedStep::Invalid => step_outcome(base_view(*previous), since_keyframe as nat, event@)
                is Invalid,
            EncodedStep::Encoded(e, b, d) => step_outcome(
                base_view(*previous),
                since_keyframe as nat,
                event@,
            ) == (StepOutcome::Encoded { event: e@, base: b@, delta: d }),
        },
{
    proof {
        reveal_strlit("node_id");
        reveal_strlit("request");
        reveal(step_outcome);
    }
    if event.event_type != TraceEventType::ModelCallStarted {
        return EncodedStep::Keep;
    }
    let node_id = match text_field(&event.payload, "node_id") {
        Some(n) => n,
        None => return EncodedStep::Keep,
    };
    let request_value = match event.payload.get("request") {
        Some(v) => v,
        None => return EncodedStep::Keep,
    };
    let snapshot = match JsonSnapshot::from_json(request_value) {
        Some(s) => s,
        None => return EncodedStep::Invalid,
    };
    let mut encoded: Option<Json> = None;
    if since_keyframe < REQUEST_KEYFRAME_INTERVAL {
        match previous {
            Some(base) => {
                encoded = build_request_delta_frame(base, &snapshot);
            },
            None => {},
        }
    }
    let mut out = event.clone_event();
    let delta = match encoded {
        Some(frame) => {
            set_member_exec(&mut out.payload, "request", frame);
            true
        },
        None => {
            let kf = request_keyframe(&snapshot);
            set_member_exec(&mut out.payload, "request", kf);
            false
        },
    };
    let hash = snapshot_hash_exec(&snapshot.value);
    EncodedStep::Encoded(out, RequestBase { node_id, value: snapshot.value, hash }, delta)
}

proof fn lemma_snapshot_pass_fails(events: Seq<ArchivedEventModel>, i: int)
    requires
        0 <= i < events.len(),
        snapshot_pass(events.take(i)) is Some,
        snapshot_step(snapshot_pass(events.take(i))->Some_0, events[i]) is None,
    ensures
        snapshot_pass(events) is None,
    decreases events.len() - i,
{
    if i + 1 == events.len() {
        assert(events.take(i) =~= events.drop_last());
    } else {
        assert(events.drop_last().take(i) =~= events.take(i));
        lemma_snapshot_pass_fails(events.drop_last(), i);
    }
}


// ---------------------------------------------------------------------------
// Compact archives.
// ---------------------------------------------------------------------------

/// What a compaction did: event counts before and after, runs merged, and
/// request snapshots written whole and as deltas.
#[derive(Debug, Clone, Copy, PartialEq, Eq, Structural)]
pub struct TraceCompressionMeta {
    pub original_event_count: usize,
    pub compact_event_count: usize,
    pub event_runs: usize,
    pub snapshot_keyframes: usize,
    pub snapshot_delta_frames: usize,
    pub minified: bool,
}

/// The task of a compact archive.
#[derive(Debug)]
pub struct CompactTaskSnapshot {
    pub task_id: String,
    pub conversation_id: String,
    pub status: TaskStatus,
    pub created_at: String,
    pub updated_at: String,
    pub events: Vec<ArchivedEvent>,
}

/// A compact trace archive.
#[derive(Debug)]
pub struct TraceArchiveV2 {
    pub schema_version: u32,
    pub exported_at: String,
    pub source: String,
    pub compression: TraceCompressionMeta,
    pub task: CompactTaskSnapshot,
}

/// `compact_archive`: the events merged into runs, then the request
/// snapshots encoded; fails when a model call's request is not a snapshot.
pub fn compact_archive(archive: TraceArchive) -> (r: Result<TraceArchiveV2, TraceCompactionError>)
    ensures
        match r {
            Ok(v2) => {
                let c = compacted(event_models(archive.task.events@));
                &&& snapshot_pass(c.out) matches Some(st)
                &&& event_models(v2.task.events@) == st.events
                &&& v2.compression.compact_event_count == st.events.len()
                &&& v2.compression.snapshot_keyframes == st.keyframes
                &&& v2.compression.snapshot_delta_frames == st.delta_frames
                &&& v2.compression.original_event_count == archive.task.events@.len()
                &&& v2.compression.event_runs == c.runs
                &&& v2.compression.minified
                &&& v2.schema_version == TRACE_ARCHIVE_V2_SCHEMA_VERSION
                &&& v2.exported_at@ == archive.exported_at@
                &&& v2.source@ == archive.source@
                &&& v2.task.task_id@ == archive.task.task_id@
                &&& v2.task.conversation_id@ == archive.task.conversation_id@
                &&& v2.task.status == archive.task.status
                &&& v2.task.created_at@ == archive.task.created_at@
                &&& v2.task.updated_at@ == archive.task.updated_at@
            },
            Err(e) => snapshot_pass(compacted(event_models(archive.task.events@)).out) is None && e@
                == CompactionFailure::RequestSnapshotParse,
        },
{
    let TraceArchive { exported_at, source, task, .. } = archive;
    let ArchivedTask { task_id, conversation_id, status, created_at, updated_at, events } = task;
    let original_event_count = events.len();
    let compacted_events = compact_events(events.as_slice());
    let mut events = compacted_events.events;
    let stats = compact_request_snapshots(&mut events)?;
    let compact_event_count = events.len();
    Ok(
        TraceArchiveV2 {
            schema_version: TRACE_ARCHIVE_V2_SCHEMA_VERSION,
            exported_at,
            source,
            compression: TraceCompressionMeta {
                original_event_count,
                compact_event_count,
                event_runs: compacted_events.event_runs,
                snapshot_keyframes: stats.keyframes,
                snapshot_delta_frames: stats.delta_frames,
                minified: true,
            },
            task: CompactTaskSnapshot {
                task_id,
                conversation_id,
                status,
                created_at,
                updated_at,
                events,
            },
        },
    )
}


// ---------------------------------------------------------------------------
// Expanding compact archives.
// ---------------------------------------------------------------------------

pub open spec fn base_models(bases: Seq<RequestBase>) -> Seq<BaseModel> {
    bases.map_values(|b: RequestBase| b@)
}

/// The request last recorded for a node.
pub open spec fn base_lookup(bases: Seq<BaseModel>, node_id: Seq<char>) -> Option<BaseModel>
    decreases bases.len(),
{
    if bases.len() == 0 {
        None
    } else if bases.last().node_id == node_id {
        Some(bases.last())
    } else {
        base_lookup(bases.drop_last(), node_id)
    }
}

/// `value_as_usize`: a member that is an unsigned integer fitting `usize`.
pub open spec fn usize_field(m: JsonModel, key: Seq<char>, f: DeltaField) -> Result<nat, CompactionFailure> {
    match field(m, key) {
        None => Err(CompactionFailure::FieldMissing(f)),
        Some(v) => match as_u64(Some(v)) {
            None => Err(CompactionFailure::FieldNotUnsigned(f)),
            Some(n) => if n > usize::MAX {
                Err(CompactionFailure::FieldTooLarge(f))
            } else {
                Ok(n as nat)
            },
        },
    }
}

/// `verify_target_hash`: the frame's `target_hash` is the hash of the value.
pub open spec fn check_target_hash(frame: JsonModel, value: JsonModel) -> Result<(), CompactionFailure> {
    match text_of(frame, "target_hash"@) {
        None => Err(CompactionFailure::FrameMissingTargetHash),
        Some(h) => if snapshot_hash(value) != h {
            Err(CompactionFailure::TargetHashMismatch)
        } else {
            Ok(())
        },
    }
}

/// One operation of a delta frame on the messages built so far and the
/// number of base messages used.
#[verifier::opaque]
pub open spec fn apply_op(base: Seq<JsonModel>, st: (Seq<JsonModel>, nat), op: JsonModel) -> Result<
    (Seq<JsonModel>, nat),
    CompactionFailure,
> {
    match text_of(op, "op"@) {
        None => Err(CompactionFailure::DeltaOpMissingName),
        Some(name) => if name == "retain_prefix"@ {
            match usize_field(op, "count"@, DeltaField::RetainCount) {
                Err(e) => Err(e),
                Ok(count) => if count > base.len() {
                    Err(CompactionFailure::RetainPrefixExceedsBase)
                } else {
                    Ok((base.take(count as int), count))
                },
            }
        } else if name == "append"@ {
            match field(op, "messages"@) {
                Some(JsonModel::Array(ms)) => Ok((st.0 + ms, st.1)),
                _ => Err(CompactionFailure::AppendMissingMessages),
            }
        } else if name == "replace_range"@ {
            match usize_field(op, "start"@, DeltaField::ReplaceStart) {
                Err(e) => Err(e),
                Ok(start) => match usize_field(op, "delete"@, DeltaField::ReplaceDelete) {
                    Err(e) => Err(e),
                    Ok(delete) => if start > base.len() || start + delete > base.len() {
                        Err(CompactionFailure::ReplaceRangeExceedsBase)
                    } else {
                        match field(op, "messages"@) {
                            Some(JsonModel::Array(ms)) => Ok(
                                (base.take(start as int) + ms, (start + delete) as nat),
                            ),
                            _ => Err(CompactionFailure::ReplaceRangeMissingMessages),
                        }
                    },
                },
            }
        } else {
            Err(CompactionFailure::UnsupportedDeltaOp(name))
        },
    }
}

pub open spec fn apply_ops(base: Seq<JsonModel>, ops: Seq<JsonModel>) -> Result<
    (Seq<JsonModel>, nat),
    CompactionFailure,
>
    decreases ops.len(),
{
    if ops.len() == 0 {
        Ok((Seq::empty(), 0))
    } else {
        match apply_ops(base, ops.drop_last()) {
            Ok(st) => apply_op(base, st, ops.last()),
            Err(e) => Err(e),
        }
    }
}

/// The messages after the operations: the base's unused tail follows when
/// the operations left it out and built fewer messages than the base has.
pub open spec fn rebuilt_messages(base: Seq<JsonModel>, st: (Seq<JsonModel>, nat)) -> Seq<JsonModel> {
    if st.1 < base.len() && st.0.len() < base.len() {
        st.0 + base.skip(st.1 as int)
    } else {
        st.0
    }
}

/// The base request with the rebuilt messages and their count.
pub open spec fn rebuilt_request(base_value: JsonModel, messages: Seq<JsonModel>) -> JsonModel {
    set_member(
        set_member(base_value, "message_count"@, JsonModel::Number(decimal(messages.len()))),
        "messages"@,
        JsonModel::Array(messages),
    )
}

/// The end of `decode_request_delta`: the base request with the rebuilt
/// messages, checked against the frame's message count and hash.
#[verifier::opaque]
pub open spec fn finish_delta(frame: JsonModel, base_value: JsonModel, messages: Seq<JsonModel>) -> Result<
    SnapshotModel,
    CompactionFailure,
> {
    if base_value is Object {
        let value = rebuilt_request(base_value, messages);
        match usize_field(frame, "message_count"@, DeltaField::MessageCount) {
            Err(e) => Err(e),
            Ok(expected) => if message_count_of(value) != expected {
                Err(CompactionFailure::MessageCountMismatch)
            } else {
                match check_target_hash(frame, value) {
                    Err(e) => Err(e),
                    Ok(_) => Ok(snapshot_of(value, DEFAULT_SNAPSHOT_MAX_BYTES)),
                }
            },
        }
    } else {
        Err(CompactionFailure::BaseNotObject)
    }
}

/// `decode_request_delta`.
#[verifier::opaque]
pub open spec fn decode_delta(frame: JsonModel, bases: Seq<BaseModel>) -> Result<SnapshotModel, CompactionFailure> {
    match text_of(frame, "base_node_id"@) {
        None => Err(CompactionFailure::DeltaMissingBaseNodeId),
        Some(node) => match base_lookup(bases, node) {
            None => Err(CompactionFailure::DeltaBaseNotFound(node)),
            Some(base) => match text_of(frame, "base_hash"@) {
                None => Err(CompactionFailure::DeltaMissingBaseHash),
                Some(h) => if base.hash != h {
                    Err(CompactionFailure::DeltaBaseHashMismatch(node))
                } else {
                    match request_messages(base.value) {
                        None => Err(CompactionFailure::BaseMissingMessages),
                        Some(bm) => match field(frame, "ops"@) {
                            Some(JsonModel::Array(ops)) => match apply_ops(bm, ops) {
                                Err(e) => Err(e),
                                Ok(st) => finish_delta(frame, base.value, rebuilt_messages(bm, st)),
                            },
                            _ => Err(CompactionFailure::DeltaMissingOps),
                        },
                    }
                },
            },
        },
    }
}

/// `decode_request_snapshot`: a frame without an encoding is a snapshot; a
/// keyframe carries one whose hash it checks; a delta is rebuilt from its
/// base.
#[verifier::opaque]
pub open spec fn decode_snapshot(frame: JsonModel, bases: Seq<BaseModel>) -> Result<SnapshotModel, CompactionFailure> {
    match text_of(frame, "encoding"@) {
        None => match snapshot_from(frame) {
            Some(s) => Ok(s),
            None => Err(CompactionFailure::CanonicalSnapshotParse),
        },
        Some(enc) => if enc == "snapshot-keyframe/v1"@ {
            match field(frame, "snapshot"@) {
                None => Err(CompactionFailure::KeyframeMissingSnapshot),
                Some(sv) => match snapshot_from(sv) {
                    None => Err(CompactionFailure::KeyframeSnapshotParse),
                    Some(s) => match check_target_hash(frame, s.value) {
                        Err(e) => Err(e),
                        Ok(_) => Ok(s),
                    },
                },
            }
        } else if enc == "snapshot-diff/v1"@ {
            decode_delta(frame, bases)
        } else {
            Err(CompactionFailure::UnsupportedEncoding(enc))
        },
    }
}

pub open spec fn result_view<T, V>(r: Result<T, TraceCompactionError>, v: spec_fn(T) -> V) -> Result<V, CompactionFailure> {
    match r {
        Ok(x) => Ok(v(x)),
        Err(e) => Err(e@),
    }
}

fn base_lookup_exec<'a>(bases: &'a Vec<RequestBase>, node_id: &str) -> (r: Option<&'a RequestBase>)
    ensures
        match r {
            Some(b) => base_lookup(base_models(bases@), node_id@) == Some(b@),
            None => base_lookup(base_models(bases@), node_id@) is None,
        },
{
    let ghost all = base_models(bases@);
    let mut i: usize = bases.len();
    assert(all.take(bases.len() as int) =~= all);
    while i > 0
        invariant
            i <= bases.len(),
            all == base_models(bases@),
            base_lookup(all, node_id@) == base_lookup(all.take(i as int), node_id@),
        decreases i,
    {
        proof {
            assert(all.take(i as int).drop_last() =~= all.take(i - 1));
            assert(all.take(i as int).last() == bases@[i - 1]@);
        }
        if same_text(bases[i - 1].node_id.as_str(), node_id) {
            return Some(&bases[i - 1]);
        }
        i = i - 1;
    }
    None
}

fn usize_field_exec(m: &Json, key: &str, f: DeltaField) -> (r: Result<usize, TraceCompactionError>)
    ensures
        match r {
            Ok(n) => usize_field(m@, key@, f) == Ok::<nat, CompactionFailure>(n as nat),
            Err(e) => usize_field(m@, key@, f) == Err::<nat, CompactionFailure>(e@),
        },
{
    let v = match m.get(key) {
        Some(v) => v,
        None => return Err(TraceCompactionError::FieldMissing(f)),
    };
    let n = match v {
        Json::Number(t) => crate::json::number_as_u64(t.as_str()),
        _ => None,
    };
    match n {
        None => Err(TraceCompactionError::FieldNotUnsigned(f)),
        Some(n) => if (n as u128) > (usize::MAX as u128) {
            Err(TraceCompactionError::FieldTooLarge(f))
        } else {
            Ok(n as usize)
        },
    }
}

fn check_target_hash_exec(frame: &Json, value: &Json) -> (r: Result<(), TraceCompactionError>)
    ensures
        match r {
            Ok(_) => check_target_hash(frame@, value@) is Ok,
            Err(e) => check_target_hash(frame@, value@) == Err::<(), CompactionFailure>(e@),
        },
{
    proof {
        reveal_strlit("target_hash");
    }
    let expected = match text_field(frame, "target_hash") {
        Some(h) => h,
        None => return Err(TraceCompactionError::FrameMissingTargetHash),
    };
    let actual = snapshot_hash_exec(value);
    if !same_text(actual.as_str(), expected.as_str()) {
        return Err(TraceCompactionError::TargetHashMismatch);
    }
    Ok(())
}

/// Copies of the values from `from` up to `to`.
fn copy_range(items: &Vec<Json>, from: usize, to: usize) -> (r: Vec<Json>)
    requires
        from <= to <= items.len(),
    ensures
        item_models(r@) == item_models(items@).subrange(from as int, to as int),
{
    proof {
        lemma_item_models(items@);
    }
    let mut out: Vec<Json> = Vec::new();
    let mut i: usize = from;
    while i < to
        invariant
            from <= i <= to <= items.len(),
            item_models(items@).len() == items@.len(),
            forall|k: int| 0 <= k < items@.len() ==> #[trigger] item_models(items@)[k] == json_model_of(items@[k]),
            item_models(out@) == item_models(items@).subrange(from as int, i as int),
        decreases to - i,
    {
        let ghost before = out@;
        out.push(items[i].deep_clone());
        proof {
            assert(out@.drop_last() =~= before);
            assert(item_models(items@).subrange(from as int, i + 1).drop_last() =~= item_models(
                items@,
            ).subrange(from as int, i as int));
        }
        i = i + 1;
    }
    out
}

/// Appends copies of the values.
fn extend_copies(dst: &mut Vec<Json>, src: &Vec<Json>)
    ensures
        item_models(final(dst)@) == item_models(old(dst)@) + item_models(src@),
{
    proof {
        lemma_item_models(src@);
    }
    let ghost start = item_models(dst@);
    let mut i: usize = 0;
    while i < src.len()
        invariant
            i <= src.len(),
            item_models(src@).len() == src@.len(),
            forall|k: int| 0 <= k < src@.len() ==> #[trigger] item_models(src@)[k] == json_model_of(src@[k]),
            item_models(dst@) == start + item_models(src@).take(i as int),
        decreases src.len() - i,
    {
        let ghost before = dst@;
        dst.push(src[i].deep_clone());
        proof {
            assert(dst@.drop_last() =~= before);
            assert(item_models(src@).take(i + 1) =~= item_models(src@).take(i as int).push(
                item_models(src@)[i as int],
            ));
            assert(item_models(dst@) =~= start + item_models(src@).take(i + 1));
        }
        i = i + 1;
    }
    assert(item_models(src@).take(src.len() as int) =~= item_models(src@));
}

fn apply_op_exec(base: &Vec<Json>, messages: Vec<Json>, consumed: usize, op: &Json) -> (r: Result<
    (Vec<Json>, usize),
    TraceCompactionError,
>)
    requires
        consumed <= base.len(),
    ensures
        match r {
            Ok((ms, c)) => apply_op(item_models(base@), (item_models(messages@), consumed as nat), op@)
                == Ok::<(Seq<JsonModel>, nat), CompactionFailure>((item_models(ms@), c as nat))
                && c <= base.len(),
            Err(e) => apply_op(item_models(base@), (item_models(messages@), consumed as nat), op@)
                == Err::<(Seq<JsonModel>, nat), CompactionFailure>(e@),
        },
{
    proof {
        reveal(apply_op);
        lemma_item_models(base@);
        reveal_strlit("op");
        reveal_strlit("retain_prefix");
        reveal_strlit("append");
        reveal_strlit("replace_range");
        reveal_strlit("count");
        reveal_strlit("messages");
        reveal_strlit("start");
        reveal_strlit("delete");
    }
    let name = match text_field(op, "op") {
        Some(n) => n,
        None => return Err(TraceCompactionError::DeltaOpMissingName),
    };
    if same_text(name.as_str(), "retain_prefix") {
        let count = usize_field_exec(op, "count", DeltaField::RetainCount)?;
        if count > base.len() {
            return Err(TraceCompactionError::RetainPrefixExceedsBase);
        }
        let ms = copy_range(base, 0, count);
        proof {
            assert(item_models(base@).subrange(0, count as int) =~= item_models(base@).take(
                count as int,
            ));
        }
        Ok((ms, count))
    } else if same_text(name.as_str(), "append") {
        match op.get("messages") {
            Some(Json::Array(appended)) => {
                let mut ms = messages;
                extend_copies(&mut ms, appended);
                Ok((ms, consumed))
            },
            _ => Err(TraceCompactionError::AppendMissingMessages),
        }
    } else if same_text(name.as_str(), "replace_range") {
        let start = usize_field_exec(op, "start", DeltaField::ReplaceStart)?;
        let delete = usize_field_exec(op, "delete", DeltaField::ReplaceDelete)?;
        if start > base.len() || delete > base.len() - start {
            return Err(TraceCompactionError::ReplaceRangeExceedsBase);
        }
        let mut ms = copy_range(base, 0, start);
        proof {
            assert(item_models(base@).subrange(0, start as int) =~= item_models(base@).take(
                start as int,
            ));
        }
        match op.get("messages") {
            Some(Json::Array(replacement)) => {
                extend_copies(&mut ms, replacement);
                Ok((ms, start + delete))
            },
            _ => Err(TraceCompactionError::ReplaceRangeMissingMessages),
        }
    } else {
        Err(TraceCompactionError::UnsupportedDeltaOp(name))
    }
}


proof fn lemma_apply_ops_fails(base: Seq<JsonModel>, ops: Seq<JsonModel>, i: int)
    requires
        0 <= i <= ops.len(),
        apply_ops(base, ops.take(i)) is Err,
    ensures
        apply_ops(base, ops) == apply_ops(base, ops.take(i)),
    decreases ops.len() - i,
{
    if i == ops.len() {
        assert(ops.take(i) =~= ops);
    } else {
        assert(ops.drop_last().take(i) =~= ops.take(i));
        lemma_apply_ops_fails(base, ops.drop_last(), i);
        assert(ops.take(ops.len() - 1) =~= ops.drop_last());
    }
}

fn decode_request_delta(frame: &Json, bases: &Vec<RequestBase>) -> (r: Result<JsonSnapshot, TraceCompactionError>)
    ensures
        match r {
            Ok(s) => decode_delta(frame@, base_models(bases@)) == Ok::<SnapshotModel, CompactionFailure>(s@),
            Err(e) => decode_delta(frame@, base_models(bases@)) == Err::<SnapshotModel, CompactionFailure>(e@),
        },
{
    proof {
        reveal(decode_delta);
        reveal_strlit("base_node_id");
        reveal_strlit("base_hash");
        reveal_strlit("ops");
        reveal_strlit("message_count");
        reveal_strlit("messages");
    }
    let base_node_id = match text_field(frame, "base_node_id") {
        Some(n) => n,
        None => return Err(TraceCompactionError::DeltaMissingBaseNodeId),
    };
    let base = match base_lookup_exec(bases, base_node_id.as_str()) {
        Some(b) => b,
        None => return Err(TraceCompactionError::DeltaBaseNotFound(base_node_id)),
    };
    let expected_base_hash = match text_field(frame, "base_hash") {
        Some(h) => h,
        None => return Err(TraceCompactionError::DeltaMissingBaseHash),
    };
    if !same_text(base.hash.as_str(), expected_base_hash.as_str()) {
        return Err(TraceCompactionError::DeltaBaseHashMismatch(base_node_id));
    }
    let base_messages = match request_messages_exec(&base.value) {
        Some(m) => m,
        None => return Err(TraceCompactionError::BaseMissingMessages),
    };
    let ops = match frame.get("ops") {
        Some(Json::Array(ops)) => ops,
        _ => return Err(TraceCompactionError::DeltaMissingOps),
    };
    let (messages, consumed) = apply_ops_exec(base_messages, ops)?;
    proof {
        lemma_item_models(messages@);
        lemma_item_models(base_messages@);
    }
    let mut messages = messages;
    let ghost bm = item_models(base_messages@);
    let ghost st = (item_models(messages@), consumed as nat);
    if consumed < base_messages.len() && messages.len() < base_messages.len() {
        let rest = copy_range(base_messages, consumed, base_messages.len());
        proof {
            assert(bm.subrange(consumed as int, bm.len() as int) =~= bm.skip(consumed as int));
        }
        extend_copies(&mut messages, &rest);
    }
    assert(item_models(messages@) == rebuilt_messages(bm, st));
    finish_request_delta(frame, &base.value, messages)
}

fn apply_ops_exec(base_messages: &Vec<Json>, ops: &Vec<Json>) -> (r: Result<(Vec<Json>, usize), TraceCompactionError>)
    ensures
        match r {
            Ok((ms, c)) => apply_ops(item_models(base_messages@), item_models(ops@)) == Ok::<
                (Seq<JsonModel>, nat),
                CompactionFailure,
            >((item_models(ms@), c as nat)) && c <= base_messages.len(),
            Err(e) => apply_ops(item_models(base_messages@), item_models(ops@)) == Err::<
                (Seq<JsonModel>, nat),
                CompactionFailure,
            >(e@),
        },
{
    let ghost bm = item_models(base_messages@);
    let ghost om = item_models(ops@);
    proof {
        lemma_item_models(ops@);
        assert(om.take(0) =~= Seq::<JsonModel>::empty());
        assert(item_models(Seq::<Json>::empty()) =~= Seq::<JsonModel>::empty());
    }
    let mut messages: Vec<Json> = Vec::new();
    let mut consumed: usize = 0;
    let mut i: usize = 0;
    while i < ops.len()
        invariant
            i <= ops.len(),
            bm == item_models(base_messages@),
            om == item_models(ops@),
            om.len() == ops@.len(),
            forall|k: int| 0 <= k < ops@.len() ==> #[trigger] om[k] == json_model_of(ops@[k]),
            consumed <= base_messages.len(),
            apply_ops(bm, om.take(i as int)) == Ok::<(Seq<JsonModel>, nat), CompactionFailure>(
                (item_models(messages@), consumed as nat),
            ),
        decreases ops.len() - i,
    {
        proof {
            assert(om.take(i + 1).drop_last() =~= om.take(i as int));
            assert(om.take(i + 1).last() == om[i as int]);
        }
        match apply_op_exec(base_messages, messages, consumed, &ops[i]) {
            Ok((ms, c)) => {
                messages = ms;
                consumed = c;
            },
            Err(e) => {
                proof {
                    lemma_apply_ops_fails(bm, om, i + 1);
                }
                return Err(e);
            },
        }
        i = i + 1;
    }
    proof {
        assert(om.take(ops.len() as int) =~= om);
    }
    Ok((messages, consumed))
}

fn finish_request_delta(frame: &Json, base_value: &Json, messages: Vec<Json>) -> (r: Result<
    JsonSnapshot,
    TraceCompactionError,
>)
    ensures
        match r {
            Ok(s) => finish_delta(frame@, base_value@, item_models(messages@)) == Ok::<
                SnapshotModel,
                CompactionFailure,
            >(s@),
            Err(e) => finish_delta(frame@, base_value@, item_models(messages@)) == Err::<
                SnapshotModel,
                CompactionFailure,
            >(e@),
        },
{
    proof {
        reveal(finish_delta);
        reveal_strlit("message_count");
        reveal_strlit("messages");
        lemma_item_models(messages@);
    }
    let mut value = base_value.deep_clone();
    match &value {
        Json::Object(_) => {},
        _ => return Err(TraceCompactionError::BaseNotObject),
    }
    let n = messages.len();
    let ghost mm = item_models(messages@);
    set_member_exec(&mut value, "message_count", json_number(n as u64));
    set_member_exec(&mut value, "messages", Json::Array(messages));
    assert(value@ == rebuilt_request(base_value@, mm));
    let expected_count = usize_field_exec(frame, "message_count", DeltaField::MessageCount)?;
    let actual_count: usize = match request_messages_exec(&value) {
        Some(m) => {
            proof {
                lemma_item_models(m@);
            }
            m.len()
        },
        None => 0,
    };
    if actual_count != expected_count {
        return Err(TraceCompactionError::MessageCountMismatch);
    }
    check_target_hash_exec(frame, &value)?;
    Ok(JsonSnapshot::from_value(value, DEFAULT_SNAPSHOT_MAX_BYTES))
}

fn decode_request_snapshot(value: &Json, bases: &Vec<RequestBase>) -> (r: Result<JsonSnapshot, TraceCompactionError>)
    ensures
        match r {
            Ok(s) => decode_snapshot(value@, base_models(bases@)) == Ok::<SnapshotModel, CompactionFailure>(s@),
            Err(e) => decode_snapshot(value@, base_models(bases@)) == Err::<SnapshotModel, CompactionFailure>(e@),
        },
{
    proof {
        reveal(decode_snapshot);
        reveal_strlit("encoding");
        reveal_strlit("snapshot");
        reveal_strlit("snapshot-keyframe/v1");
        reveal_strlit("snapshot-diff/v1");
    }
    let encoding = match text_field(value, "encoding") {
        Some(e) => e,
        None => {
            return match JsonSnapshot::from_json(value) {
                Some(s) => Ok(s),
                None => Err(TraceCompactionError::CanonicalSnapshotParse),
            };
        },
    };
    if same_text(encoding.as_str(), REQUEST_KEYFRAME_ENCODING) {
        let inner = match value.get("snapshot") {
            Some(v) => v,
            None => return Err(TraceCompactionError::KeyframeMissingSnapshot),
        };
        let snapshot = match JsonSnapshot::from_json(inner) {
            Some(s) => s,
            None => return Err(TraceCompactionError::KeyframeSnapshotParse),
        };
        check_target_hash_exec(value, &snapshot.value)?;
        Ok(snapshot)
    } else if same_text(encoding.as_str(), REQUEST_DIFF_ENCODING) {
        decode_request_delta(value, bases)
    } else {
        Err(TraceCompactionError::UnsupportedEncoding(encoding))
    }
}

/// One event of an expansion: a model call with a node and a request gets
/// its request decoded, and the decoded request becomes the node's base.
#[verifier::opaque]
pub open spec fn expand_step(bases: Seq<BaseModel>, e: ArchivedEventModel) -> Result<
    (ArchivedEventModel, Seq<BaseModel>),
    CompactionFailure,
> {
    if e.event_type != TraceEventType::ModelCallStarted {
        Ok((e, bases))
    } else {
        match (text_of(e.payload, "node_id"@), field(e.payload, "request"@)) {
            (Some(node), Some(req)) => match decode_snapshot(req, bases) {
                Err(x) => Err(x),
                Ok(s) => Ok(
                    (
                        with_payload(e, set_member(e.payload, "request"@, snapshot_json(s))),
                        bases.push(base_of(node, s)),
                    ),
                ),
            },
            _ => Ok((e, bases)),
        }
    }
}

pub struct ExpandPass {
    pub events: Seq<ArchivedEventModel>,
    pub bases: Seq<BaseModel>,
}

pub open spec fn expand_pass(events: Seq<ArchivedEventModel>) -> Result<ExpandPass, CompactionFailure>
    decreases events.len(),
{
    if events.len() == 0 {
        Ok(ExpandPass { events: Seq::empty(), bases: Seq::empty() })
    } else {
        match expand_pass(events.drop_last()) {
            Err(x) => Err(x),
            Ok(st) => match expand_step(st.bases, events.last()) {
                Err(x) => Err(x),
                Ok((e, b)) => Ok(ExpandPass { events: st.events.push(e), bases: b }),
            },
        }
    }
}

proof fn lemma_expand_pass_fails(events: Seq<ArchivedEventModel>, i: int)
    requires
        0 <= i <= events.len(),
        expand_pass(events.take(i)) is Err,
    ensures
        expand_pass(events) == expand_pass(events.take(i)),
    decreases events.len() - i,
{
    if i == events.len() {
        assert(events.take(i) =~= events);
    } else {
        assert(events.drop_last().take(i) =~= events.take(i));
        lemma_expand_pass_fails(events.drop_last(), i);
    }
}

proof fn lemma_base_models_push(s: Seq<RequestBase>, b: RequestBase)
    ensures
        base_models(s.push(b)) == base_models(s).push(b@),
{
    assert(base_models(s.push(b)) =~= base_models(s).push(b@));
}

/// `expand_model_request_snapshot`, for any event.
fn expand_event(event: ArchivedEvent, bases: &mut Vec<RequestBase>) -> (r: Result<
    ArchivedEvent,
    TraceCompactionError,
>)
    ensures
        match r {
            Ok(e) => expand_step(base_models(old(bases)@), event@) == Ok::<
                (ArchivedEventModel, Seq<BaseModel>),
                CompactionFailure,
            >((e@, base_models(final(bases)@))),
            Err(x) => expand_step(base_models(old(bases)@), event@) == Err::<
                (ArchivedEventModel, Seq<BaseModel>),
                CompactionFailure,
            >(x@),
        },
{
    proof {
        reveal(expand_step);
        reveal_strlit("node_id");
        reveal_strlit("request");
    }
    if event.event_type != TraceEventType::ModelCallStarted {
        return Ok(event);
    }
    let node_id = match text_field(&event.payload, "node_id") {
        Some(n) => n,
        None => return Ok(event),
    };
    let snapshot = match event.payload.get("request") {
        Some(request_value) => decode_request_snapshot(request_value, bases)?,
        None => return Ok(event),
    };
    let mut out = event;
    let encoded = snapshot.to_json();
    set_member_exec(&mut out.payload, "request", encoded);
    let hash = snapshot_hash_exec(&snapshot.value);
    let ghost before = bases@;
    let base = RequestBase { node_id, value: snapshot.value, hash };
    let ghost bv = base@;
    bases.push(base);
    proof {
        lemma_base_models_push(before, bases@.last());
    }
    Ok(out)
}

/// `expand_archive_v2`: every request snapshot decoded back to the whole
/// snapshot; fails on another schema version or on a frame that does not
/// decode.
pub fn expand_archive_v2(archive: TraceArchiveV2) -> (r: Result<TraceArchive, TraceCompactionError>)
    ensures
        archive.schema_version != TRACE_ARCHIVE_V2_SCHEMA_VERSION ==> (r matches Err(e) && e@
            == CompactionFailure::UnsupportedSchemaVersion(archive.schema_version)),
        archive.schema_version == TRACE_ARCHIVE_V2_SCHEMA_VERSION ==> match r {
            Ok(a) => {
                &&& expand_pass(event_models(archive.task.events@)) matches Ok(st)
                &&& event_models(a.task.events@) == st.events
                &&& a.schema_version == archive.schema_version
                &&& a.exported_at@ == archive.exported_at@
                &&& a.source@ == archive.source@
                &&& a.task.task_id@ == archive.task.task_id@
                &&& a.task.conversation_id@ == archive.task.conversation_id@
                &&& a.task.status == archive.task.status
                &&& a.task.created_at@ == archive.task.created_at@
                &&& a.task.updated_at@ == archive.task.updated_at@
            },
            Err(e) => expand_pass(event_models(archive.task.events@)) == Err::<ExpandPass, CompactionFailure>(
                e@,
            ),
        },
{
    if archive.schema_version != TRACE_ARCHIVE_V2_SCHEMA_VERSION {
        return Err(TraceCompactionError::UnsupportedSchemaVersion(archive.schema_version));
    }
    let TraceArchiveV2 { schema_version, exported_at, source, task, .. } = archive;
    let CompactTaskSnapshot { task_id, conversation_id, status, created_at, updated_at, events: input } =
        task;
    let ghost models = event_models(input@);
    let mut bases: Vec<RequestBase> = Vec::new();
    let mut events: Vec<ArchivedEvent> = Vec::new();
    let mut i: usize = 0;
    proof {
        assert(models.take(0) =~= Seq::<ArchivedEventModel>::empty());
        assert(event_models(events@) =~= Seq::<ArchivedEventModel>::empty());
        assert(base_models(bases@) =~= Seq::<BaseModel>::empty());
    }
    while i < input.len()
        invariant
            i <= input.len(),
            models == event_models(input@),
            models == event_models(archive.task.events@),
            archive.schema_version == TRACE_ARCHIVE_V2_SCHEMA_VERSION,
            expand_pass(models.take(i as int)) == Ok::<ExpandPass, CompactionFailure>(
                ExpandPass { events: event_models(events@), bases: base_models(bases@) },
            ),
        decreases input.len() - i,
    {
        proof {
            assert(models.take(i + 1).drop_last() =~= models.take(i as int));
            assert(models.take(i + 1).last() == input@[i as int]@);
        }
        let event = input[i].clone_event();
        match expand_event(event, &mut bases) {
            Ok(e) => {
                let ghost before = events@;
                events.push(e);
                proof {
                    lemma_event_models_push(before, e);
                }
            },
            Err(x) => {
                proof {
                    assert(expand_pass(models.take(i + 1)) == Err::<ExpandPass, CompactionFailure>(x@));
                    lemma_expand_pass_fails(models, i + 1);
                    assert(models.take(input.len() as int) =~= models);
                }
                return Err(x);
            },
        }
        i = i + 1;
    }
    proof {
        assert(models.take(input.len() as int) =~= models);
    }
    Ok(
        TraceArchive {
            schema_version,
            exported_at,
            source,
            task: ArchivedTask { task_id, conversation_id, status, created_at, updated_at, events },
        },
    )
}


// ---------------------------------------------------------------------------
// Laws.
// ---------------------------------------------------------------------------

proof fn lemma_compact_fold_bounds(events: Seq<ArchivedEventModel>)
    ensures
        compact_fold(events).out.len() + pending(compact_fold(events).run) <= events.len(),
        compact_fold(events).runs <= compact_fold(events).out.len(),
        compact_fold(events).run matches Some(r) ==> r.count >= 1,
    decreases events.len(),
{
    if events.len() > 0 {
        lemma_compact_fold_bounds(events.drop_last());
    }
}

/// Compaction never adds events, and each merged run stands for at least
/// one event of the result.
pub proof fn lemma_compaction_never_grows(events: Seq<ArchivedEventModel>)
    ensures
        compacted(events).out.len() <= events.len(),
        compacted(events).runs <= compacted(events).out.len(),
{
    lemma_compact_fold_bounds(events);
}

/// An event that cannot merge with anything is kept as it is, and ends the
/// run before it: compacting a list that ends in one gives the compaction
/// of the rest followed by that event.
pub proof fn lemma_unmergeable_event_kept(events: Seq<ArchivedEventModel>, e: ArchivedEventModel)
    requires
        merge_candidate(e) is None,
    ensures
        compacted(events.push(e)).out == compacted(events).out.push(e),
        compacted(events.push(e)).runs == compacted(events).runs,
{
    assert(events.push(e).drop_last() =~= events);
}

/// The lengths of the keys and names the frames use, which tell them apart.
proof fn lemma_key_lengths()
    ensures
        "encoding"@.len() == 8,
        "message_count"@.len() == 13,
        "messages"@.len() == 8,
        "snapshot"@.len() == 8,
        "target_hash"@.len() == 11,
        "text"@.len() == 4,
        "truncated"@.len() == 9,
        "value"@.len() == 5,
        "base_hash"@.len() == 9,
        "base_node_id"@.len() == 12,
        "ops"@.len() == 3,
        "stats"@.len() == 5,
        "count"@.len() == 5,
        "op"@.len() == 2,
        "delete"@.len() == 6,
        "start"@.len() == 5,
        "append"@.len() == 6,
        "retain_prefix"@.len() == 13,
        "replace_range"@.len() == 13,
        "snapshot-diff/v1"@.len() == 16,
        "snapshot-keyframe/v1"@.len() == 20,
        "snapshot"@ != "encoding"@,
        "retain_prefix"@ != "replace_range"@,
{
    reveal_strlit("encoding");
    reveal_strlit("message_count");
    reveal_strlit("messages");
    reveal_strlit("snapshot");
    reveal_strlit("target_hash");
    reveal_strlit("text");
    reveal_strlit("truncated");
    reveal_strlit("value");
    reveal_strlit("base_hash");
    reveal_strlit("base_node_id");
    reveal_strlit("ops");
    reveal_strlit("stats");
    reveal_strlit("count");
    reveal_strlit("op");
    reveal_strlit("delete");
    reveal_strlit("start");
    reveal_strlit("append");
    reveal_strlit("retain_prefix");
    reveal_strlit("replace_range");
    reveal_strlit("snapshot-diff/v1");
    reveal_strlit("snapshot-keyframe/v1");
    assert("snapshot"@[0] != "encoding"@[0]);
    assert("retain_prefix"@[2] != "replace_range"@[2]);
}

/// A snapshot written as JSON reads back as itself.
pub proof fn lemma_snapshot_json_round_trip(s: SnapshotModel)
    ensures
        snapshot_from(snapshot_json(s)) == Some(s),
{
    lemma_key_lengths();
    reveal_with_fuel(member_lookup, 4);
    let ms = snapshot_json(s)->Object_0;
    assert(ms.drop_first()[0] == ms[1]);
    assert(ms.drop_first().drop_first()[0] == ms[2]);
}

/// A keyframe decodes to the snapshot it carries.
pub proof fn lemma_keyframe_round_trip(s: SnapshotModel, bases: Seq<BaseModel>)
    ensures
        decode_snapshot(keyframe(s), bases) == Ok::<SnapshotModel, CompactionFailure>(s),
{
    reveal(decode_snapshot);
    lemma_key_lengths();
    lemma_snapshot_json_round_trip(s);
    reveal_with_fuel(member_lookup, 5);
    let k = keyframe(s);
    let ms = k->Object_0;
    assert(ms.drop_first()[0] == ms[1]);
    assert(ms.drop_first().drop_first()[0] == ms[2]);
    assert(ms.drop_first().drop_first().drop_first()[0] == ms[3]);
    assert(text_of(k, "encoding"@) == Some("snapshot-keyframe/v1"@));
    assert(field(k, "snapshot"@) == Some(snapshot_json(s)));
    assert(text_of(k, "target_hash"@) == Some(snapshot_hash(s.value)));
}

proof fn lemma_usize_number(m: JsonModel, key: Seq<char>, f: DeltaField, n: nat)
    requires
        n <= usize::MAX,
        field(m, key) == Some(JsonModel::Number(decimal(n))),
    ensures
        usize_field(m, key, f) == Ok::<nat, CompactionFailure>(n),
{
    lemma_number_u64_decimal(n as u64);
}

proof fn lemma_delta_ops_apply(bm: Seq<JsonModel>, tm: Seq<JsonModel>)
    requires
        bm.len() <= usize::MAX,
        tm.len() <= usize::MAX,
    ensures
        apply_ops(bm, delta_ops(bm, tm)) matches Ok(st) && rebuilt_messages(bm, st) == tm,
{
    reveal(apply_op);
    reveal_with_fuel(member_lookup, 5);
    lemma_key_lengths();
    lemma_common_prefix_bound(bm, tm);
    let c = common_prefix(bm, tm);
    let ops = delta_ops(bm, tm);
    let empty = Seq::<JsonModel>::empty();
    assert(bm.take(c as int) =~= tm.take(c as int));
    let st0: (Seq<JsonModel>, nat) = if c > 0 {
        (bm.take(c as int), c)
    } else {
        (empty, 0)
    };
    let head = if c > 0 {
        seq![op_retain(c)]
    } else {
        empty
    };
    if c > 0 {
        let r = op_retain(c);
        assert(text_of(r, "op"@) == Some("retain_prefix"@));
        lemma_usize_number(r, "count"@, DeltaField::RetainCount, c);
        assert(head.drop_last() =~= empty);
        assert(apply_ops(bm, empty) == Ok::<(Seq<JsonModel>, nat), CompactionFailure>((empty, 0)));
        assert(apply_op(bm, (empty, 0), r) == Ok::<(Seq<JsonModel>, nat), CompactionFailure>(st0));
        assert(head.last() == r);
        assert(apply_ops(bm, head) == Ok::<(Seq<JsonModel>, nat), CompactionFailure>(st0));
    } else {
        assert(apply_ops(bm, head) == Ok::<(Seq<JsonModel>, nat), CompactionFailure>(st0));
    }
    if c == bm.len() {
        if tm.len() > c {
            let a = op_append(tm.skip(c as int));
            assert(text_of(a, "op"@) == Some("append"@));
            assert("append"@ != "retain_prefix"@);
            assert(ops.drop_last() =~= head);
            let st = (st0.0 + tm.skip(c as int), st0.1);
            assert(apply_ops(bm, ops) == Ok::<(Seq<JsonModel>, nat), CompactionFailure>(st));
            assert(rebuilt_messages(bm, st) =~= tm);
        } else {
            assert(ops == head);
            assert(rebuilt_messages(bm, st0) =~= tm);
        }
    } else {
        let d = (bm.len() - c) as nat;
        let r = op_replace(c, d, tm.skip(c as int));
        assert(text_of(r, "op"@) == Some("replace_range"@));
        assert("replace_range"@ != "retain_prefix"@);
        assert("replace_range"@ != "append"@);
        lemma_usize_number(r, "start"@, DeltaField::ReplaceStart, c);
        lemma_usize_number(r, "delete"@, DeltaField::ReplaceDelete, d);
        assert(field(r, "messages"@) == Some(JsonModel::Array(tm.skip(c as int))));
        assert(ops.drop_last() =~= head);
        let st = (bm.take(c as int) + tm.skip(c as int), bm.len());
        assert(apply_ops(bm, ops) == Ok::<(Seq<JsonModel>, nat), CompactionFailure>(st));
        assert(rebuilt_messages(bm, st) =~= tm);
    }
}

proof fn lemma_rebuilt_request(base: JsonModel, target: JsonModel, tm: Seq<JsonModel>)
    requires
        base matches JsonModel::Object(bs) && members_sorted(bs),
        target matches JsonModel::Object(ts) && members_sorted(ts),
        request_shell(base) == request_shell(target),
        request_messages(target) == Some(tm),
        field(target, "message_count"@) == Some(JsonModel::Number(decimal(tm.len()))),
    ensures
        rebuilt_request(base, tm) == target,
{
    lemma_key_lengths();
    let mc = "message_count"@;
    let msk = "messages"@;
    assert(mc.len() != msk.len());
    assert(mc != msk);
    let n = JsonModel::Number(decimal(tm.len()));
    let a = JsonModel::Array(tm);
    let bs = base->Object_0;
    let ts = target->Object_0;
    let s = member_remove(member_remove(bs, mc), msk);
    assert(s == member_remove(member_remove(ts, mc), msk));
    // The base side.
    lemma_insert_after_remove(bs, mc, n);
    let b1 = member_remove(bs, mc);
    lemma_remove_sorted(bs, mc);
    lemma_insert_sorted(b1, mc, n);
    let x = member_insert(b1, mc, n);
    lemma_insert_after_remove(x, msk, a);
    lemma_remove_insert_commute(b1, msk, mc, n);
    // The target side.
    lemma_insert_after_remove(ts, mc, n);
    let t1 = member_remove(ts, mc);
    lemma_remove_sorted(ts, mc);
    lemma_insert_sorted(t1, mc, n);
    let y = member_insert(t1, mc, n);
    lemma_insert_after_remove(y, msk, a);
    lemma_remove_insert_commute(t1, msk, mc, n);
    lemma_insert_present(ts, mc, n);
    lemma_insert_present(ts, msk, a);
}

proof fn lemma_frame_members(
    base: BaseModel,
    target: SnapshotModel,
    n: nat,
    ops: Seq<JsonModel>,
    full: nat,
    patch: nat,
)
    ensures
        text_of(frame_with(base, target, n, ops, full, patch), "encoding"@) == Some("snapshot-diff/v1"@),
        text_of(frame_with(base, target, n, ops, full, patch), "base_node_id"@) == Some(base.node_id),
        text_of(frame_with(base, target, n, ops, full, patch), "base_hash"@) == Some(base.hash),
        field(frame_with(base, target, n, ops, full, patch), "ops"@) == Some(JsonModel::Array(ops)),
        field(frame_with(base, target, n, ops, full, patch), "message_count"@) == Some(
            JsonModel::Number(decimal(n)),
        ),
        text_of(frame_with(base, target, n, ops, full, patch), "target_hash"@) == Some(
            snapshot_hash(target.value),
        ),
{
    lemma_key_lengths();
    reveal_with_fuel(member_lookup, 8);
    let ms = frame_with(base, target, n, ops, full, patch)->Object_0;
    assert(ms.drop_first()[0] == ms[1]);
    assert(ms.drop_first().drop_first()[0] == ms[2]);
    assert(ms.drop_first().drop_first().drop_first()[0] == ms[3]);
    assert(ms.drop_first().drop_first().drop_first().drop_first()[0] == ms[4]);
    assert(ms.drop_first().drop_first().drop_first().drop_first().drop_first()[0] == ms[5]);
    assert(ms.drop_first().drop_first().drop_first().drop_first().drop_first().drop_first()[0] == ms[6]);
}

/// A request written as a delta from the previous request decodes back to
/// the snapshot of that request, given the previous request as the base of
/// its node.  Objects are in key order, as every JSON object here is, and the
/// request records its message count, as every request snapshot does.
pub proof fn lemma_delta_frame_round_trip(base: BaseModel, target: SnapshotModel, bases: Seq<BaseModel>)
    requires
        delta_frame(base, target) is Some,
        base_lookup(bases, base.node_id) == Some(base),
        base.value matches JsonModel::Object(bs) && members_sorted(bs),
        target.value matches JsonModel::Object(ts) && members_sorted(ts),
        message_count_of(base.value) <= usize::MAX,
        message_count_of(target.value) <= usize::MAX,
        field(target.value, "message_count"@) == Some(
            JsonModel::Number(decimal(message_count_of(target.value))),
        ),
    ensures
        decode_snapshot(delta_frame(base, target)->Some_0, bases) == Ok::<SnapshotModel, CompactionFailure>(
            snapshot_of(target.value, DEFAULT_SNAPSHOT_MAX_BYTES),
        ),
{
    reveal(delta_frame);
    let bm = request_messages(base.value)->Some_0;
    let tm = request_messages(target.value)->Some_0;
    let f = delta_frame(base, target)->Some_0;
    let ops = delta_ops(bm, tm);
    let full = byte_len(snapshot_struct_text(target)) as nat;
    let p1 = byte_len(json_text(frame_with(base, target, tm.len(), ops, full, 0))) as nat;
    let p2 = byte_len(json_text(frame_with(base, target, tm.len(), ops, full, p1))) as nat;
    assert(f == frame_with(base, target, tm.len(), ops, full, p2));
    lemma_frame_members(base, target, tm.len(), ops, full, p2);
    lemma_key_lengths();
    lemma_delta_ops_apply(bm, tm);
    let st = apply_ops(bm, ops)->Ok_0;
    lemma_rebuilt_request(base.value, target.value, tm);
    lemma_usize_number(f, "message_count"@, DeltaField::MessageCount, tm.len());
    assert(finish_delta(f, base.value, tm) == Ok::<SnapshotModel, CompactionFailure>(
        snapshot_of(target.value, DEFAULT_SNAPSHOT_MAX_BYTES),
    )) by {
        reveal(finish_delta);
    }
    assert(decode_delta(f, bases) == finish_delta(f, base.value, tm)) by {
        reveal(decode_delta);
    }
    assert(decode_snapshot(f, bases) == decode_delta(f, bases)) by {
        reveal(decode_snapshot);
    }
}


/// Reading a member after writing one: the written key gives the new value,
/// any other key what it gave before.
proof fn lemma_member_lookup_insert(
    ms: Seq<(Seq<char>, JsonModel)>,
    key: Seq<char>,
    value: JsonModel,
    other: Seq<char>,
)
    ensures
        member_lookup(member_insert(ms, key, value), other) == if other == key {
            Some(value)
        } else {
            member_lookup(ms, other)
        },
    decreases ms.len(),
{
    let r = member_insert(ms, key, value);
    let goal = if other == key {
        Some(value)
    } else {
        member_lookup(ms, other)
    };
    if ms.len() == 0 {
        assert(r[0] == (key, value));
        assert(r.drop_first() =~= Seq::<(Seq<char>, JsonModel)>::empty());
        assert(member_lookup(r.drop_first(), other) is None);
        assert(member_lookup(r, other) == goal);
    } else if ms[0].0 == key {
        assert(r[0] == (key, value));
        assert(r.drop_first() =~= ms.drop_first());
        assert(member_lookup(r, other) == goal);
    } else if crate::json::key_lt(key, ms[0].0) {
        assert(r[0] == (key, value));
        assert(r.drop_first() =~= ms);
        assert(member_lookup(r, other) == goal);
    } else {
        assert(r[0] == ms[0]);
        assert(r.drop_first() =~= member_insert(ms.drop_first(), key, value));
        lemma_member_lookup_insert(ms.drop_first(), key, value, other);
        assert(member_lookup(r, other) == goal);
    }
}

/// Writing a member twice is writing the second value.
proof fn lemma_member_insert_twice(
    ms: Seq<(Seq<char>, JsonModel)>,
    key: Seq<char>,
    first: JsonModel,
    second: JsonModel,
)
    ensures
        member_insert(member_insert(ms, key, first), key, second) == member_insert(ms, key, second),
    decreases ms.len(),
{
    let inner = member_insert(ms, key, first);
    if ms.len() == 0 {
        assert(member_insert(inner, key, second) =~= seq![(key, second)]);
    } else if ms[0].0 == key {
        assert(inner.drop_first() =~= ms.drop_first());
        assert(member_insert(inner, key, second) =~= member_insert(ms, key, second));
    } else if crate::json::key_lt(key, ms[0].0) {
        assert(inner.drop_first() =~= ms);
        assert(member_insert(inner, key, second) =~= member_insert(ms, key, second));
    } else {
        assert(inner.drop_first() =~= member_insert(ms.drop_first(), key, first));
        lemma_member_insert_twice(ms.drop_first(), key, first, second);
        assert(member_insert(inner, key, second) =~= member_insert(ms, key, second));
    }
}

/// The request snapshot that a model call carries, for a model call with a
/// node and a request.
pub open spec fn model_request(e: ArchivedEventModel) -> Option<SnapshotModel> {
    if e.event_type == TraceEventType::ModelCallStarted {
        match (text_of(e.payload, "node_id"@), field(e.payload, "request"@)) {
            (Some(_), Some(req)) => snapshot_from(req),
            _ => None,
        }
    } else {
        None
    }
}

/// A request value as recording writes one: an object in key order, already
/// redacted, whose `message_count` is the number of its messages.
pub open spec fn request_well_formed(v: JsonModel) -> bool {
    &&& v matches JsonModel::Object(ms) && members_sorted(ms)
    &&& crate::trace::redacted(v) == v
    &&& message_count_of(v) <= usize::MAX
    &&& field(v, "message_count"@) == Some(JsonModel::Number(decimal(message_count_of(v))))
}

/// The event with its request replaced by a snapshot.
pub open spec fn with_request(e: ArchivedEventModel, s: SnapshotModel) -> ArchivedEventModel {
    with_payload(e, set_member(e.payload, "request"@, snapshot_json(s)))
}

/// An expanded event gives back the original: unchanged, or for a model call
/// its request snapshot, either as recorded or with its text written anew
/// from the same value.
pub open spec fn restored(original: ArchivedEventModel, expanded: ArchivedEventModel) -> bool {
    match model_request(original) {
        None => expanded == original,
        Some(s) => expanded == with_request(original, s) || expanded == with_request(
            original,
            snapshot_of(s.value, DEFAULT_SNAPSHOT_MAX_BYTES),
        ),
    }
}

proof fn lemma_request_keys_differ()
    ensures
        "node_id"@ != "request"@,
{
    reveal_strlit("node_id");
    reveal_strlit("request");
    assert("node_id"@[0] != "request"@[0]);
}

/// The snapshot pass, then the expansion: every event restored, and the
/// expansion's last base is the pass's previous request.
#[verifier::rlimit(40)]
proof fn lemma_pass_expands(events: Seq<ArchivedEventModel>)
    requires
        snapshot_pass(events) is Some,
        forall|i: int|
            0 <= i < events.len() ==> (#[trigger] model_request(events[i]) matches Some(s)
                ==> request_well_formed(s.value)),
    ensures
        ({
            let sp = snapshot_pass(events)->Some_0;
            &&& expand_pass(sp.events) matches Ok(ex)
            &&& ex.events.len() == events.len()
            &&& forall|i: int| 0 <= i < events.len() ==> restored(events[i], #[trigger] ex.events[i])
            &&& (sp.previous matches Some(b) ==> ex.bases.len() > 0 && ex.bases.last() == b
                && request_well_formed(b.value))
        }),
    decreases events.len(),
{
    if events.len() == 0 {
        let sp = snapshot_pass(events)->Some_0;
        assert(sp.events =~= Seq::<ArchivedEventModel>::empty());
    } else {
        let init = events.drop_last();
        let e = events.last();
        assert forall|i: int| 0 <= i < init.len() implies (#[trigger] model_request(init[i]) matches Some(s)
            ==> request_well_formed(s.value)) by {
            assert(init[i] == events[i]);
            assert(model_request(events[i]) == model_request(init[i]));
        }
        assert(model_request(events[events.len() - 1]) == model_request(e));
        lemma_pass_expands(init);
        let pst = snapshot_pass(init)->Some_0;
        let ex0 = expand_pass(pst.events)->Ok_0;
        let sp = snapshot_pass(events)->Some_0;
        assert(snapshot_step(pst, e) == Some(sp));
        let out = step_outcome(pst.previous, pst.since_keyframe, e);
        reveal(step_outcome);
        reveal(expand_step);
        match out {
            StepOutcome::Keep => {
                assert(sp.events.drop_last() =~= pst.events);
                assert(sp.events.last() == e);
                assert(expand_step(ex0.bases, e) == Ok::<(ArchivedEventModel, Seq<BaseModel>), CompactionFailure>(
                    (e, ex0.bases),
                ));
                assert(model_request(e) is None);
                let ex = expand_pass(sp.events)->Ok_0;
                assert(ex.events == ex0.events.push(e));
                assert forall|i: int| 0 <= i < events.len() implies restored(events[i], #[trigger] ex.events[i]) by {
                    if i < init.len() {
                        assert(events[i] == init[i]);
                        assert(ex.events[i] == ex0.events[i]);
                    } else {
                        assert(events[i] == e);
                    }
                }
            },
            StepOutcome::Invalid => {
                assert(false);
            },
            StepOutcome::Encoded { event: ev, base, delta } => {
                let node = text_of(e.payload, "node_id"@)->Some_0;
                let req = field(e.payload, "request"@)->Some_0;
                let snap = snapshot_from(req)->Some_0;
                assert(model_request(e) == Some(snap));
                assert(request_well_formed(snap.value));
                let ms = e.payload->Object_0;
                let f = if delta {
                    delta_frame(pst.previous->Some_0, snap)->Some_0
                } else {
                    keyframe(snap)
                };
                assert(ev == with_payload(e, set_member(e.payload, "request"@, f)));
                assert(base == base_of(node, snap));
                let t = if delta {
                    snapshot_of(snap.value, DEFAULT_SNAPSHOT_MAX_BYTES)
                } else {
                    snap
                };
                if delta {
                    let b = pst.previous->Some_0;
                    assert(base_lookup(ex0.bases, b.node_id) == Some(b));
                    lemma_delta_frame_round_trip(b, snap, ex0.bases);
                } else {
                    lemma_keyframe_round_trip(snap, ex0.bases);
                }
                assert(decode_snapshot(f, ex0.bases) == Ok::<SnapshotModel, CompactionFailure>(t));
                assert(t.value == snap.value);
                lemma_request_keys_differ();
                lemma_member_lookup_insert(ms, "request"@, f, "node_id"@);
                lemma_member_lookup_insert(ms, "request"@, f, "request"@);
                assert(text_of(ev.payload, "node_id"@) == Some(node));
                assert(field(ev.payload, "request"@) == Some(f));
                lemma_member_insert_twice(ms, "request"@, f, snapshot_json(t));
                let restored_event = with_request(e, t);
                assert(with_payload(ev, set_member(ev.payload, "request"@, snapshot_json(t))) == restored_event);
                assert(expand_step(ex0.bases, ev) == Ok::<(ArchivedEventModel, Seq<BaseModel>), CompactionFailure>(
                    (restored_event, ex0.bases.push(base_of(node, t))),
                ));
                assert(base_of(node, t) == base);
                assert(sp.events.drop_last() =~= pst.events);
                assert(sp.events.last() == ev);
                let ex = expand_pass(sp.events)->Ok_0;
                assert(ex.events == ex0.events.push(restored_event));
                assert(ex.bases == ex0.bases.push(base));
                assert(restored(e, restored_event));
                assert forall|i: int| 0 <= i < events.len() implies restored(events[i], #[trigger] ex.events[i]) by {
                    if i < init.len() {
                        assert(events[i] == init[i]);
                        assert(ex.events[i] == ex0.events[i]);
                    } else {
                        assert(events[i] == e);
                    }
                }
            },
        }
    }
}

/// Expanding what compaction wrote gives back the merged trace: as many
/// events, each unchanged but for the request of a model call, which comes
/// back as the snapshot that was recorded (its text written anew where it
/// went as a delta).  Requests are objects in key order, redacted, with
/// their message count, as recording writes them.
pub proof fn lemma_compact_expand_round_trip(events: Seq<ArchivedEventModel>)
    requires
        snapshot_pass(compacted(events).out) is Some,
        forall|i: int|
            0 <= i < compacted(events).out.len() ==> (#[trigger] model_request(compacted(events).out[i]) matches Some(
                s,
            ) ==> request_well_formed(s.value)),
    ensures
        ({
            let merged = compacted(events).out;
            &&& expand_pass(snapshot_pass(merged)->Some_0.events) matches Ok(ex)
            &&& ex.events.len() == merged.len()
            &&& forall|i: int| 0 <= i < merged.len() ==> restored(merged[i], #[trigger] ex.events[i])
        }),
{
    lemma_pass_expands(compacted(events).out);
}

} // verus!
