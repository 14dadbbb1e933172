use serde_json::Value;
use sparrow_agent::json::Json;
use sparrow_agent::trace::{JsonSnapshot, TaskStatus, TraceEventType};
use sparrow_agent::trace_compaction::{
    compact_archive, compact_events, expand_archive_v2, CompactTaskSnapshot, TraceArchiveV2,
    TraceCompactionError, TraceCompressionMeta,
};
use sparrow_agent::trace_file::{ArchivedEvent, ArchivedTask, TraceArchive};

fn to_json(v: &Value) -> Json {
    match v {
        Value::Null => Json::Null,
        Value::Bool(b) => Json::Bool(*b),
        Value::Number(n) => Json::Number(n.to_string()),
        Value::String(s) => Json::Str(s.clone()),
        Value::Array(items) => Json::Array(items.iter().map(to_json).collect()),
        Value::Object(members) => Json::Object(
            members
                .iter()
                .map(|(k, v)| (k.clone(), to_json(v)))
                .collect(),
        ),
    }
}

fn to_value(j: &Json) -> Value {
    serde_json::from_str(&j.to_text()).unwrap()
}

fn parse(text: &str) -> Json {
    to_json(&serde_json::from_str::<Value>(text).unwrap())
}

fn timestamp(offset_seconds: u64) -> String {
    format!("2026-05-16T10:00:{offset_seconds:02}Z")
}

fn event(seq: u64, event_type: TraceEventType, payload: Json) -> ArchivedEvent {
    ArchivedEvent {
        seq,
        task_id: "task_1".into(),
        conversation_id: "conv_1".into(),
        timestamp: timestamp(seq),
        event_type,
        payload,
    }
}

fn archive_with_events(events: Vec<ArchivedEvent>) -> TraceArchive {
    let n = events.len() as u64;
    TraceArchive {
        schema_version: 1,
        exported_at: timestamp(0),
        source: "cli".into(),
        task: ArchivedTask {
            task_id: "task_1".into(),
            conversation_id: "conv_1".into(),
            status: TaskStatus::Running,
            created_at: timestamp(0),
            updated_at: timestamp(n),
            events,
        },
    }
}

fn request_snapshot(messages: Vec<Value>) -> JsonSnapshot {
    let mut value = serde_json::Map::new();
    value.insert("model".into(), Value::String("deepseek-chat".into()));
    value.insert("message_count".into(), Value::from(messages.len()));
    value.insert("messages".into(), Value::Array(messages));
    value.insert("tool_count".into(), Value::from(0));
    value.insert("thinking".into(), Value::Null);
    value.insert("reasoning_effort".into(), Value::Null);
    JsonSnapshot::from_value(to_json(&Value::Object(value)), 64 * 1024)
}

fn message(role: &str, content: &str) -> Value {
    let mut m = serde_json::Map::new();
    m.insert("role".into(), Value::String(role.into()));
    m.insert("content".into(), Value::String(content.into()));
    Value::Object(m)
}

fn model_call_started(seq: u64, node_id: &str, request: &JsonSnapshot) -> ArchivedEvent {
    let mut payload = serde_json::Map::new();
    payload.insert("node_id".into(), Value::String(node_id.into()));
    payload.insert("round".into(), Value::from(seq));
    payload.insert("model".into(), Value::String("deepseek-chat".into()));
    payload.insert("request".into(), to_value(&request.to_json()));
    event(seq, TraceEventType::ModelCallStarted, to_json(&Value::Object(payload)))
}

#[test]
fn compact_events_merges_consecutive_reasoning_delta_for_same_model_call() {
    let events = vec![
        event(
            1,
            TraceEventType::ModelCallReasoningDelta,
            parse(r#"{ "node_id": "model_1", "delta": "hel" }"#),
        ),
        event(
            2,
            TraceEventType::ModelCallReasoningDelta,
            parse(r#"{ "node_id": "model_1", "delta": "lo" }"#),
        ),
    ];

    let compacted = compact_events(&events);

    assert_eq!(compacted.event_runs, 1);
    assert_eq!(compacted.events.len(), 1);
    assert_eq!(compacted.events[0].seq, 2);
    let payload = to_value(&compacted.events[0].payload);
    assert_eq!(payload["delta"], "hello");
    assert_eq!(payload["_compact"]["kind"], "event_run");
    assert_eq!(payload["_compact"]["count"], 2);
    assert_eq!(payload["_compact"]["seq_start"], 1);
    assert_eq!(payload["_compact"]["seq_end"], 2);
}

#[test]
fn compact_events_does_not_merge_across_node_or_lifecycle_boundary() {
    let response = JsonSnapshot::from_value(parse(r#"{ "message": null }"#), 64 * 1024);
    let mut completed = serde_json::Map::new();
    completed.insert("node_id".into(), Value::String("model_1".into()));
    completed.insert("duration_ms".into(), Value::from(1));
    completed.insert("finish_reason".into(), Value::String("stop".into()));
    completed.insert("usage".into(), Value::Null);
    completed.insert("response".into(), to_value(&response.to_json()));
    let events = vec![
        event(
            1,
            TraceEventType::ModelCallReasoningDelta,
            parse(r#"{ "node_id": "model_1", "delta": "a" }"#),
        ),
        event(
            2,
            TraceEventType::ModelCallReasoningDelta,
            parse(r#"{ "node_id": "model_2", "delta": "b" }"#),
        ),
        event(
            3,
            TraceEventType::ModelCallCompleted,
            to_json(&Value::Object(completed)),
        ),
        event(
            4,
            TraceEventType::ModelCallReasoningDelta,
            parse(r#"{ "node_id": "model_1", "delta": "c" }"#),
        ),
    ];

    let compacted = compact_events(&events);

    assert_eq!(compacted.event_runs, 0);
    assert_eq!(compacted.events.len(), 4);
    assert!(
        compacted
            .events
            .iter()
            .all(|event| to_value(&event.payload).get("_compact").is_none())
    );
}

#[test]
fn compact_events_merges_final_answer_output_delta() {
    let events = vec![
        event(
            1,
            TraceEventType::ModelOutputDelta,
            parse(r#"{ "node_id": "output_1", "kind": "final_answer", "content_delta": "Final " }"#),
        ),
        event(
            2,
            TraceEventType::ModelOutputDelta,
            parse(r#"{ "node_id": "output_1", "kind": "final_answer", "content_delta": "answer" }"#),
        ),
    ];

    let compacted = compact_events(&events);

    assert_eq!(compacted.event_runs, 1);
    assert_eq!(compacted.events.len(), 1);
    let payload = to_value(&compacted.events[0].payload);
    assert_eq!(payload["content_delta"], "Final answer");
    assert_eq!(payload["_compact"]["count"], 2);
}

#[test]
fn compact_events_keeps_tool_call_argument_streams_separate_by_index() {
    let events = vec![
        event(
            1,
            TraceEventType::ModelOutputDelta,
            parse(
                r#"{"node_id":"output_1","kind":"tool_calls","tool_call":{"index":0,"tool_call_id":"call_1","name":"read_file","arguments_delta":"{\"path\""}}"#,
            ),
        ),
        event(
            2,
            TraceEventType::ModelOutputDelta,
            parse(
                r#"{"node_id":"output_1","kind":"tool_calls","tool_call":{"index":0,"tool_call_id":"call_1","name":"read_file","arguments_delta":":\"Cargo.toml\"}"}}"#,
            ),
        ),
        event(
            3,
            TraceEventType::ModelOutputDelta,
            parse(
                r#"{"node_id":"output_1","kind":"tool_calls","tool_call":{"index":1,"tool_call_id":"call_2","name":"list_files","arguments_delta":"{}"}}"#,
            ),
        ),
    ];

    let compacted = compact_events(&events);

    assert_eq!(compacted.event_runs, 1);
    assert_eq!(compacted.events.len(), 2);
    let first = to_value(&compacted.events[0].payload);
    assert_eq!(
        first["tool_call"]["arguments_delta"],
        "{\"path\":\"Cargo.toml\"}"
    );
    assert_eq!(first["_compact"]["count"], 2);
    let second = to_value(&compacted.events[1].payload);
    assert_eq!(second["tool_call"]["index"], 1);
}

#[test]
fn request_snapshot_delta_reconstructs_append_only_messages() {
    let first_request = request_snapshot(vec![message("user", &"x".repeat(3000))]);
    let second_request = request_snapshot(vec![
        message("user", &"x".repeat(3000)),
        message("assistant", "hello"),
    ]);
    let archive = archive_with_events(vec![
        model_call_started(1, "model_1", &first_request),
        model_call_started(2, "model_2", &second_request),
    ]);
    let original_value = to_value(&archive.task.events[1].payload)["request"]["value"].clone();

    let compact = compact_archive(archive).unwrap();

    assert_eq!(compact.compression.snapshot_keyframes, 1);
    assert_eq!(compact.compression.snapshot_delta_frames, 1);
    assert_eq!(
        to_value(&compact.task.events[1].payload)["request"]["encoding"],
        "snapshot-diff/v1"
    );

    let expanded = expand_archive_v2(compact).unwrap();
    assert_eq!(
        to_value(&expanded.task.events[1].payload)["request"]["value"],
        original_value
    );
}

#[test]
fn request_snapshot_delta_falls_back_to_keyframe_when_patch_is_not_smaller() {
    let first_request = request_snapshot(vec![message("user", "x")]);
    let second_request = request_snapshot(vec![message("user", "y")]);
    let archive = archive_with_events(vec![
        model_call_started(1, "model_1", &first_request),
        model_call_started(2, "model_2", &second_request),
    ]);

    let compact = compact_archive(archive).unwrap();

    assert_eq!(compact.compression.snapshot_keyframes, 2);
    assert_eq!(compact.compression.snapshot_delta_frames, 0);
    assert_eq!(
        to_value(&compact.task.events[1].payload)["request"]["encoding"],
        "snapshot-keyframe/v1"
    );
}

#[test]
fn compact_archive_records_counts_and_keeps_task_fields() {
    let events = vec![
        event(
            1,
            TraceEventType::ModelCallReasoningDelta,
            parse(r#"{ "node_id": "model_1", "delta": "a" }"#),
        ),
        event(
            2,
            TraceEventType::ModelCallReasoningDelta,
            parse(r#"{ "node_id": "model_1", "delta": "b" }"#),
        ),
        event(3, TraceEventType::TaskCompleted, parse(r#"{"duration_ms":3}"#)),
    ];
    let compact = compact_archive(archive_with_events(events)).unwrap();
    assert_eq!(compact.schema_version, 2);
    assert_eq!(compact.compression.original_event_count, 3);
    assert_eq!(compact.compression.compact_event_count, 2);
    assert_eq!(compact.compression.event_runs, 1);
    assert!(compact.compression.minified);
    assert_eq!(compact.task.task_id, "task_1");
    assert_eq!(compact.source, "cli");
    let merged = to_value(&compact.task.events[0].payload);
    assert_eq!(merged["delta"], "ab");
    assert_eq!(merged["_compact"]["timestamp_start"], timestamp(1));
    assert_eq!(merged["_compact"]["timestamp_end"], timestamp(2));
}

#[test]
fn empty_deltas_do_not_merge() {
    let events = vec![
        event(
            1,
            TraceEventType::ModelCallReasoningDelta,
            parse(r#"{ "node_id": "model_1", "delta": "" }"#),
        ),
        event(
            2,
            TraceEventType::ModelCallReasoningDelta,
            parse(r#"{ "node_id": "model_1", "delta": "" }"#),
        ),
    ];
    let compacted = compact_events(&events);
    assert_eq!(compacted.events.len(), 2);
    assert_eq!(compacted.event_runs, 0);
}

#[test]
fn request_keyframes_carry_a_sha256_target_hash() {
    let request = request_snapshot(vec![message("user", "hi")]);
    let archive = archive_with_events(vec![model_call_started(1, "model_1", &request)]);
    let compact = compact_archive(archive).unwrap();
    let frame = to_value(&compact.task.events[0].payload)["request"].clone();
    assert_eq!(frame["encoding"], "snapshot-keyframe/v1");
    assert_eq!(frame["message_count"], 1);
    let hash = frame["target_hash"].as_str().unwrap();
    assert!(hash.starts_with("sha256:"));
    assert_eq!(hash.len(), "sha256:".len() + 64);
    assert!(hash["sha256:".len()..].chars().all(|c| c.is_ascii_hexdigit() && !c.is_ascii_uppercase()));
}

#[test]
fn a_request_that_is_not_a_snapshot_fails_compaction() {
    let archive = archive_with_events(vec![event(
        1,
        TraceEventType::ModelCallStarted,
        parse(r#"{"node_id":"model_1","request":{"value":1}}"#),
    )]);
    let err = compact_archive(archive).unwrap_err();
    assert!(matches!(err, TraceCompactionError::RequestSnapshotParse));
    assert_eq!(err.describe(), "failed to parse model request snapshot");
}

fn v2_with_events(schema_version: u32, events: Vec<ArchivedEvent>) -> TraceArchiveV2 {
    TraceArchiveV2 {
        schema_version,
        exported_at: timestamp(0),
        source: "cli".into(),
        compression: TraceCompressionMeta {
            original_event_count: events.len(),
            compact_event_count: events.len(),
            event_runs: 0,
            snapshot_keyframes: 0,
            snapshot_delta_frames: 0,
            minified: true,
        },
        task: CompactTaskSnapshot {
            task_id: "task_1".into(),
            conversation_id: "conv_1".into(),
            status: TaskStatus::Succeeded,
            created_at: timestamp(0),
            updated_at: timestamp(1),
            events,
        },
    }
}

#[test]
fn expand_refuses_other_schema_versions() {
    let err = expand_archive_v2(v2_with_events(3, vec![])).unwrap_err();
    assert!(matches!(err, TraceCompactionError::UnsupportedSchemaVersion(3)));
    assert_eq!(err.describe(), "unsupported compact trace archive schema version 3");
}

#[test]
fn expand_reports_a_delta_without_its_base() {
    let frame = r#"{"node_id":"model_2","request":{"encoding":"snapshot-diff/v1","base_node_id":"model_1","base_hash":"sha256:00","message_count":0,"ops":[]}}"#;
    let archive = v2_with_events(2, vec![event(1, TraceEventType::ModelCallStarted, parse(frame))]);
    let err = expand_archive_v2(archive).unwrap_err();
    assert_eq!(err.describe(), "request delta base snapshot not found: model_1");
}

#[test]
fn expand_reports_unknown_encodings() {
    let frame = r#"{"node_id":"model_1","request":{"encoding":"zip"}}"#;
    let archive = v2_with_events(2, vec![event(1, TraceEventType::ModelCallStarted, parse(frame))]);
    let err = expand_archive_v2(archive).unwrap_err();
    assert_eq!(err.describe(), "unsupported request snapshot encoding zip");
}

#[test]
fn expand_reports_a_keyframe_with_a_wrong_hash() {
    let frame = r#"{"node_id":"model_1","request":{"encoding":"snapshot-keyframe/v1","message_count":0,"snapshot":{"text":"{}","truncated":false,"value":{}},"target_hash":"sha256:00"}}"#;
    let archive = v2_with_events(2, vec![event(1, TraceEventType::ModelCallStarted, parse(frame))]);
    let err = expand_archive_v2(archive).unwrap_err();
    assert!(matches!(err, TraceCompactionError::TargetHashMismatch));
    assert_eq!(err.describe(), "request snapshot target hash mismatch");
}

#[test]
fn expand_keeps_plain_snapshots_and_other_events() {
    let frame = r#"{"node_id":"model_1","request":{"text":"{}","truncated":false,"value":{"a":1}}}"#;
    let archive = v2_with_events(
        2,
        vec![
            event(1, TraceEventType::TaskStarted, parse(r#"{"message":"hi"}"#)),
            event(2, TraceEventType::ModelCallStarted, parse(frame)),
        ],
    );
    let expanded = expand_archive_v2(archive).unwrap();
    assert_eq!(expanded.schema_version, 2);
    assert_eq!(expanded.task.events.len(), 2);
    assert_eq!(to_value(&expanded.task.events[0].payload)["message"], "hi");
    assert_eq!(
        to_value(&expanded.task.events[1].payload)["request"]["value"]["a"],
        1
    );
}

#[test]
fn delta_with_replaced_messages_round_trips() {
    let long = "z".repeat(4000);
    let first_request = request_snapshot(vec![
        message("user", &long),
        message("assistant", "first"),
    ]);
    let second_request = request_snapshot(vec![
        message("user", &long),
        message("assistant", "second"),
        message("user", "more"),
    ]);
    let archive = archive_with_events(vec![
        model_call_started(1, "model_1", &first_request),
        model_call_started(2, "model_2", &second_request),
    ]);
    let original_value = to_value(&archive.task.events[1].payload)["request"]["value"].clone();
    let compact = compact_archive(archive).unwrap();
    assert_eq!(compact.compression.snapshot_delta_frames, 1);
    let frame = to_value(&compact.task.events[1].payload)["request"].clone();
    assert_eq!(frame["ops"][0]["op"], "retain_prefix");
    assert_eq!(frame["ops"][0]["count"], 1);
    assert_eq!(frame["ops"][1]["op"], "replace_range");
    assert_eq!(frame["ops"][1]["start"], 1);
    assert_eq!(frame["ops"][1]["delete"], 1);
    let expanded = expand_archive_v2(compact).unwrap();
    assert_eq!(
        to_value(&expanded.task.events[1].payload)["request"]["value"],
        original_value
    );
}
