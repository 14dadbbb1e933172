//! Trace vocabulary: event types, task states, ids, and the text limits
//! applied to snapshots.
use vstd::prelude::*;
use vstd::string::*;
use vstd::utf8::{encode_utf8, is_char_boundary};
use crate::context::budget::byte_len;
use crate::json::{
    item_models, json_model, json_text, lemma_item_models, lemma_member_models, member_lookup,
    member_models, Json, JsonModel,
};
use crate::text::{
    append_str, ascii_lower, ascii_lower_vec, chars_contains_str, chars_ends_with_str,
    chars_eq_str, contains_sub, ends_with, new_ulid_text, str_chars, string_from_chars,
};

verus! {

pub const DEFAULT_SNAPSHOT_MAX_BYTES: usize = 65536;

#[derive(Debug, Clone, Copy, PartialEq, Eq, Structural)]
pub enum TraceEventType {
    TaskStarted,
    TaskCompleted,
    TaskFailed,
    ModelCallStarted,
    ModelCallReasoningDelta,
    ModelCallCompleted,
    ModelOutputStarted,
    ModelOutputDelta,
    ModelOutputCompleted,
    ToolCallStarted,
    ToolCallCompleted,
    ToolCallFailed,
}

#[derive(Debug, Clone, Copy, PartialEq, Eq, Structural)]
pub enum TaskStatus {
    Running,
    Succeeded,
    Failed,
    Cancelled,
}

impl TraceEventType {
    /// The name of the event type on the wire.
    pub fn wire_name(&self) -> (s: &'static str)
        ensures
            s@ == spec_wire_name(*self),
    {
        match self {
            TraceEventType::TaskStarted => "task.started",
            TraceEventType::TaskCompleted => "task.completed",
            TraceEventType::TaskFailed => "task.failed",
            TraceEventType::ModelCallStarted => "model_call.started",
            TraceEventType::ModelCallReasoningDelta => "model_call.reasoning_delta",
            TraceEventType::ModelCallCompleted => "model_call.completed",
            TraceEventType::ModelOutputStarted => "model_output.started",
            TraceEventType::ModelOutputDelta => "model_output.delta",
            TraceEventType::ModelOutputCompleted => "model_output.completed",
            TraceEventType::ToolCallStarted => "tool_call.started",
            TraceEventType::ToolCallCompleted => "tool_call.completed",
            TraceEventType::ToolCallFailed => "tool_call.failed",
        }
    }
}

pub open spec fn spec_wire_name(t: TraceEventType) -> Seq<char> {
    match t {
        TraceEventType::TaskStarted => "task.started"@,
        TraceEventType::TaskCompleted => "task.completed"@,
        TraceEventType::TaskFailed => "task.failed"@,
        TraceEventType::ModelCallStarted => "model_call.started"@,
        TraceEventType::ModelCallReasoningDelta => "model_call.reasoning_delta"@,
        TraceEventType::ModelCallCompleted => "model_call.completed"@,
        TraceEventType::ModelOutputStarted => "model_output.started"@,
        TraceEventType::ModelOutputDelta => "model_output.delta"@,
        TraceEventType::ModelOutputCompleted => "model_output.completed"@,
        TraceEventType::ToolCallStarted => "tool_call.started"@,
        TraceEventType::ToolCallCompleted => "tool_call.completed"@,
        TraceEventType::ToolCallFailed => "tool_call.failed"@,
    }
}

/// One recorded event of a task.  The timestamp is in milliseconds since the
/// Unix epoch and the payload is JSON text.
#[derive(Debug, Clone)]
pub struct TraceEvent {
    pub seq: u64,
    pub task_id: String,
    pub conversation_id: String,
    pub timestamp_ms: i64,
    pub event_type: TraceEventType,
    pub payload: String,
}

pub struct EventRecord {
    pub seq: u64,
    pub task_id: Seq<char>,
    pub conversation_id: Seq<char>,
    pub timestamp_ms: i64,
    pub event_type: TraceEventType,
    pub payload: Seq<char>,
}

impl View for TraceEvent {
    type V = EventRecord;

    open spec fn view(&self) -> EventRecord {
        EventRecord {
            seq: self.seq,
            task_id: self.task_id@,
            conversation_id: self.conversation_id@,
            timestamp_ms: self.timestamp_ms,
            event_type: self.event_type,
            payload: self.payload@,
        }
    }
}

pub open spec fn event_records(v: Seq<TraceEvent>) -> Seq<EventRecord> {
    v.map_values(|e: TraceEvent| e@)
}

impl TraceEvent {
    pub fn clone_event(&self) -> (e: Self)
        ensures
            e@ == self@,
    {
        TraceEvent {
            seq: self.seq,
            task_id: self.task_id.clone(),
            conversation_id: self.conversation_id.clone(),
            timestamp_ms: self.timestamp_ms,
            event_type: self.event_type,
            payload: self.payload.clone(),
        }
    }
}

/// A fresh trace id: the prefix, `_` and a ULID.
pub open spec fn is_trace_id(id: Seq<char>, prefix: Seq<char>) -> bool {
    &&& id.len() == prefix.len() + 27
    &&& id.subrange(0, prefix.len() as int) == prefix
    &&& id[prefix.len() as int] == '_'
}

pub fn trace_id(prefix: &str) -> (r: String)
    ensures
        is_trace_id(r@, prefix@),
{
    let mut v = str_chars(prefix);
    append_str(&mut v, "_");
    let u = new_ulid_text();
    append_str(&mut v, u.as_str());
    proof {
        reveal_strlit("_");
        assert(v@.subrange(0, prefix@.len() as int) =~= prefix@);
    }
    string_from_chars(v.as_slice())
}

/// A key whose value is a secret: it names an API key, an authorization, a
/// password or a secret, or ends in `token` (compared in ASCII lower case).
pub open spec fn spec_is_secret_key(key: Seq<char>) -> bool {
    let k = ascii_lower(key);
    ||| contains_sub(k, "api_key"@)
    ||| contains_sub(k, "authorization"@)
    ||| contains_sub(k, "password"@)
    ||| contains_sub(k, "secret"@)
    ||| k == "token"@
    ||| ends_with(k, "token"@)
    ||| ends_with(k, "_token"@)
    ||| ends_with(k, "-token"@)
    ||| ends_with(k, ".token"@)
}

pub fn is_secret_key(key: &str) -> (b: bool)
    ensures
        b == spec_is_secret_key(key@),
{
    let k = ascii_lower_vec(str_chars(key).as_slice());
    let s = k.as_slice();
    chars_contains_str(s, "api_key") || chars_contains_str(s, "authorization") || chars_contains_str(
        s,
        "password",
    ) || chars_contains_str(s, "secret") || chars_eq_str(s, "token") || chars_ends_with_str(
        s,
        "token",
    ) || chars_ends_with_str(s, "_token") || chars_ends_with_str(s, "-token")
        || chars_ends_with_str(s, ".token")
}

/// The largest character boundary of `bytes` at most `k`.
pub open spec fn boundary_at_most(bytes: Seq<u8>, k: int) -> int
    decreases k,
{
    if k <= 0 {
        0
    } else if is_char_boundary(bytes, k) {
        k
    } else {
        boundary_at_most(bytes, k - 1)
    }
}

/// Cuts a text to at most `max_bytes` bytes of UTF-8 without splitting a
/// character, and says whether it cut.
pub fn truncate_to_utf8_boundary(text: &str, max_bytes: usize) -> (r: (String, bool))
    ensures
        byte_len(text@) <= max_bytes ==> r.0@ == text@ && !r.1,
        byte_len(text@) > max_bytes ==> r.1 && encode_utf8(r.0@) == encode_utf8(
            text@,
        ).subrange(0, boundary_at_most(encode_utf8(text@), max_bytes as int)),
{
    if text.len() <= max_bytes {
        return (String::from_str(text), false);
    }
    if max_bytes == 0 {
        proof {
            assert(encode_utf8(Seq::<char>::empty()) =~= encode_utf8(text@).subrange(0, 0));
        }
        return (String::new(), true);
    }
    let mut end = max_bytes;
    while end > 0 && !text.is_char_boundary(end)
        invariant
            0 <= end <= max_bytes,
            boundary_at_most(text.spec_bytes(), max_bytes as int) == boundary_at_most(
                text.spec_bytes(),
                end as int,
            ),
        decreases end,
    {
        end = end - 1;
    }
    proof {
        vstd::utf8::encode_utf8_valid_utf8(text@);
        if end > 0 {
            assert(is_char_boundary(text.spec_bytes(), end as int));
        }
        assert(is_char_boundary(text.spec_bytes(), 0));
    }
    let (head, _) = text.split_at(end);
    (String::from_str(head), true)
}


// ---------------------------------------------------------------------------
// Redaction and snapshots of JSON values.
// ---------------------------------------------------------------------------

pub open spec fn redacted_text() -> Seq<char> {
    "[REDACTED]"@
}

/// `redact_json_value`: every member whose key names a secret gets the text
/// `[REDACTED]`; the rest is redacted in depth.
pub open spec fn redacted(m: JsonModel) -> JsonModel
    decreases m, 0nat,
{
    match m {
        JsonModel::Array(items) => JsonModel::Array(redacted_items(items)),
        JsonModel::Object(members) => JsonModel::Object(redacted_members(members)),
        _ => m,
    }
}

pub open spec fn redacted_items(items: Seq<JsonModel>) -> Seq<JsonModel>
    decreases items, 1nat,
{
    if items.len() == 0 {
        items
    } else {
        redacted_items(items.drop_last()).push(redacted(items.last()))
    }
}

pub open spec fn redacted_members(members: Seq<(Seq<char>, JsonModel)>) -> Seq<(Seq<char>, JsonModel)>
    decreases members, 1nat,
{
    if members.len() == 0 {
        members
    } else {
        redacted_members(members.drop_last()).push(
            (members.last().0, redacted_member_value(members.last().0, members.last().1)),
        )
    }
}

/// The redacted value of a member.
pub open spec fn redacted_member_value(key: Seq<char>, v: JsonModel) -> JsonModel
    decreases v, 2nat,
{
    if spec_is_secret_key(key) {
        JsonModel::Str(redacted_text())
    } else {
        redacted(v)
    }
}

/// A copy of a value with its secrets redacted.
pub fn redacted_copy(value: &Json) -> (r: Json)
    ensures
        r@ == redacted(value@),
    decreases value,
{
    match value {
        Json::Array(items) => {
            proof {
                lemma_item_models(items@);
            }
            let ghost ms = item_models(items@);
            let mut out: Vec<Json> = Vec::new();
            let mut i: usize = 0;
            while i < items.len()
                invariant
                    i <= items.len(),
                    *value is Array,
                    (*value)->Array_0 == *items,
                    ms == item_models(items@),
                    ms.len() == items@.len(),
                    forall|k: int| 0 <= k < items@.len() ==> #[trigger] ms[k] == json_model(items@[k]),
                    item_models(out@) == redacted_items(ms.take(i as int)),
                decreases items.len() - i,
            {
                proof {
                    assert(decreases_to!(*value => (*value)->Array_0));
                    assert(decreases_to!(*items => items@));
                    assert(decreases_to!(items@ => items@[i as int]));
                }
                let c = redacted_copy(&items[i]);
                let ghost before = out@;
                out.push(c);
                proof {
                    assert(out@.drop_last() =~= before);
                    assert(ms.take(i + 1).drop_last() =~= ms.take(i as int));
                }
                i = i + 1;
            }
            assert(ms.take(items.len() as int) =~= ms);
            Json::Array(out)
        },
        Json::Object(members) => {
            proof {
                lemma_member_models(members@);
            }
            let ghost ms = member_models(members@);
            let mut out: Vec<(String, Json)> = Vec::new();
            let mut i: usize = 0;
            while i < members.len()
                invariant
                    i <= members.len(),
                    *value is Object,
                    (*value)->Object_0 == *members,
                    ms == member_models(members@),
                    ms.len() == members@.len(),
                    forall|k: int| 0 <= k < members@.len() ==> #[trigger] ms[k] == (
                        members@[k].0@,
                        json_model(members@[k].1),
                    ),
                    member_models(out@) == redacted_members(ms.take(i as int)),
                decreases members.len() - i,
            {
                proof {
                    assert(decreases_to!(*value => (*value)->Object_0));
                    assert(decreases_to!(*members => members@));
                    assert(decreases_to!(members@ => members@[i as int]));
                    assert(decreases_to!(members@[i as int] => members@[i as int].1));
                }
                let c = if is_secret_key(members[i].0.as_str()) {
                    let r = String::from_str("[REDACTED]");
                    proof {
                        reveal_strlit("[REDACTED]");
                    }
                    Json::Str(r)
                } else {
                    redacted_copy(&members[i].1)
                };
                assert(c@ == redacted_member_value(ms[i as int].0, ms[i as int].1));
                let ghost before = out@;
                let k = members[i].0.clone();
                out.push((k, c));
                proof {
                    assert(out@.drop_last() =~= before);
                    assert(ms.take(i + 1).drop_last() =~= ms.take(i as int));
                    assert(ms.take(i + 1).last() == ms[i as int]);
                }
                i = i + 1;
            }
            assert(ms.take(members.len() as int) =~= ms);
            Json::Object(out)
        },
        Json::Null => Json::Null,
        Json::Bool(b) => Json::Bool(*b),
        Json::Number(t) => Json::Number(t.clone()),
        Json::Str(t) => Json::Str(t.clone()),
    }
}

/// Redacts the secrets of a value in place.
pub fn redact_json_value(value: &mut Json)
    ensures
        final(value)@ == redacted(old(value)@),
{
    let r = redacted_copy(value);
    *value = r;
}

/// A JSON value kept in a trace, with its compact text cut to a byte limit.
#[derive(Debug)]
pub struct JsonSnapshot {
    pub value: Json,
    pub text: String,
    pub truncated: bool,
}

/// A text cut to at most `max_bytes` bytes of UTF-8 at a character
/// boundary, and whether anything was cut.
pub open spec fn truncated_to(text: Seq<char>, max_bytes: usize) -> (Seq<char>, bool) {
    if byte_len(text) <= max_bytes {
        (text, false)
    } else {
        (
            vstd::utf8::decode_utf8(
                encode_utf8(text).subrange(0, boundary_at_most(encode_utf8(text), max_bytes as int)),
            ),
            true,
        )
    }
}

fn truncate_text(text: &str, max_bytes: usize) -> (r: (String, bool))
    ensures
        (r.0@, r.1) == truncated_to(text@, max_bytes),
{
    let r = truncate_to_utf8_boundary(text, max_bytes);
    proof {
        vstd::utf8::encode_utf8_decode_utf8(r.0@);
    }
    r
}

pub struct SnapshotModel {
    pub value: JsonModel,
    pub text: Seq<char>,
    pub truncated: bool,
}

impl View for JsonSnapshot {
    type V = SnapshotModel;

    open spec fn view(&self) -> SnapshotModel {
        SnapshotModel { value: self.value@, text: self.text@, truncated: self.truncated }
    }
}

/// `JsonSnapshot::from_value`: the value redacted, and its compact text cut
/// to the limit.
pub open spec fn snapshot_of(value: JsonModel, max_bytes: usize) -> SnapshotModel {
    let v = redacted(value);
    let (text, truncated) = truncated_to(json_text(v), max_bytes);
    SnapshotModel { value: v, text, truncated }
}

impl JsonSnapshot {
    /// `JsonSnapshot::from_value`: the value redacted, and its text.
    pub fn from_value(value: Json, max_bytes: usize) -> (s: Self)
        ensures
            s@ == snapshot_of(value@, max_bytes),
    {
        let v = redacted_copy(&value);
        let full = v.to_text();
        let (text, truncated) = truncate_text(full.as_str(), max_bytes);
        JsonSnapshot { value: v, text, truncated }
    }

    /// `JsonSnapshot::from_text` on raw text: the text is read as JSON with
    /// `serde_json`, then taken as `from_text` takes it.
    pub fn from_json_text(text: &str, max_bytes: usize) -> (s: Self)
        ensures
            s@ == snapshot_of_text(text@, max_bytes),
    {
        let parsed = crate::json::parse_json(text);
        JsonSnapshot::from_text(text, parsed, max_bytes)
    }

    /// `JsonSnapshot::from_text`: `parsed` is the text read as JSON when it
    /// is JSON.  A JSON text gives the snapshot of its value; any other text
    /// is kept, cut to the limit, under the key `raw`.
    pub fn from_text(text: &str, parsed: Option<Json>, max_bytes: usize) -> (s: Self)
        ensures
            parsed matches Some(v) ==> s@ == snapshot_of(v@, max_bytes),
            parsed is None ==> (s.text@, s.truncated) == truncated_to(text@, max_bytes)
                && s.value@ == JsonModel::Object(seq![("raw"@, JsonModel::Str(s.text@))]),
    {
        match parsed {
            Some(v) => JsonSnapshot::from_value(v, max_bytes),
            None => {
                let (cut, truncated) = truncate_text(text, max_bytes);
                let mut members: Vec<(String, Json)> = Vec::new();
                let raw = String::from_str("raw");
                proof {
                    reveal_strlit("raw");
                }
                let copy = String::from_str(cut.as_str());
                members.push((raw, Json::Str(copy)));
                let value = Json::Object(members);
                proof {
                    lemma_member_models(members@);
                    assert(member_models(members@) =~= seq![("raw"@, JsonModel::Str(cut@))]);
                }
                JsonSnapshot { value, text: cut, truncated }
            },
        }
    }
}


/// The snapshot of a text: the snapshot of its value where the text is
/// JSON, else the text cut to the limit, kept under the key `raw`.
pub open spec fn snapshot_of_text(text: Seq<char>, max_bytes: usize) -> SnapshotModel {
    match crate::json::json_parse(text) {
        Some(v) => snapshot_of(v, max_bytes),
        None => {
            let (cut, truncated) = truncated_to(text, max_bytes);
            SnapshotModel {
                value: JsonModel::Object(seq![("raw"@, JsonModel::Str(cut))]),
                text: cut,
                truncated,
            }
        },
    }
}

/// A snapshot as a JSON value (`serde_json::to_value`): an object of its
/// text, its truncation flag and its value.
pub open spec fn snapshot_json(s: SnapshotModel) -> JsonModel {
    JsonModel::Object(
        seq![
            ("text"@, JsonModel::Str(s.text)),
            ("truncated"@, JsonModel::Bool(s.truncated)),
            ("value"@, s.value),
        ],
    )
}

/// A snapshot read from a JSON value (`serde_json::from_value`): an object
/// with a `value`, a string `text` and a boolean `truncated` (other members
/// are ignored), or an array of exactly those three in that order.
pub open spec fn snapshot_from(m: JsonModel) -> Option<SnapshotModel> {
    match m {
        JsonModel::Object(ms) => match (
            member_lookup(ms, "value"@),
            member_lookup(ms, "text"@),
            member_lookup(ms, "truncated"@),
        ) {
            (Some(v), Some(JsonModel::Str(t)), Some(JsonModel::Bool(b))) => Some(
                SnapshotModel { value: v, text: t, truncated: b },
            ),
            _ => None,
        },
        JsonModel::Array(items) => if items.len() == 3 {
            match (items[1], items[2]) {
                (JsonModel::Str(t), JsonModel::Bool(b)) => Some(
                    SnapshotModel { value: items[0], text: t, truncated: b },
                ),
                _ => None,
            }
        } else {
            None
        },
        _ => None,
    }
}

impl JsonSnapshot {
    pub fn copy_snapshot(&self) -> (r: Self)
        ensures
            r@ == self@,
    {
        JsonSnapshot {
            value: self.value.deep_clone(),
            text: self.text.clone(),
            truncated: self.truncated,
        }
    }

    /// The snapshot as a JSON value.
    pub fn to_json(&self) -> (j: Json)
        ensures
            j@ == snapshot_json(self@),
    {
        let mut ms: Vec<(String, Json)> = Vec::new();
        ms.push((String::from_str("text"), Json::Str(self.text.clone())));
        ms.push((String::from_str("truncated"), Json::Bool(self.truncated)));
        ms.push((String::from_str("value"), self.value.deep_clone()));
        proof {
            lemma_member_models(ms@);
            reveal_strlit("text");
            reveal_strlit("truncated");
            reveal_strlit("value");
            assert(member_models(ms@) =~= seq![
                ("text"@, JsonModel::Str(self.text@)),
                ("truncated"@, JsonModel::Bool(self.truncated)),
                ("value"@, self.value@),
            ]);
        }
        Json::Object(ms)
    }

    /// A snapshot read from a JSON value.
    pub fn from_json(m: &Json) -> (r: Option<Self>)
        ensures
            match r {
                Some(s) => snapshot_from(m@) == Some(s@),
                None => snapshot_from(m@) is None,
            },
    {
        proof {
            reveal_strlit("value");
            reveal_strlit("text");
            reveal_strlit("truncated");
        }
        match m {
            Json::Object(_) => {
                let v = match m.get("value") {
                    Some(v) => v,
                    None => return None,
                };
                let t = match m.get("text") {
                    Some(Json::Str(t)) => t,
                    _ => return None,
                };
                let b = match m.get("truncated") {
                    Some(Json::Bool(b)) => *b,
                    _ => return None,
                };
                Some(JsonSnapshot { value: v.deep_clone(), text: t.clone(), truncated: b })
            },
            Json::Array(items) => {
                proof {
                    lemma_item_models(items@);
                }
                if items.len() != 3 {
                    return None;
                }
                let t = match &items[1] {
                    Json::Str(t) => t,
                    _ => return None,
                };
                let b = match &items[2] {
                    Json::Bool(b) => *b,
                    _ => return None,
                };
                Some(JsonSnapshot { value: items[0].deep_clone(), text: t.clone(), truncated: b })
            },
            _ => None,
        }
    }
}

} // verus!
