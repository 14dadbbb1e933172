use sparrow_agent::trace::{TaskStatus, TraceEventType};
use sparrow_agent::trace_store::TraceStore;

#[test]
fn trace_store_replays_events_after_sequence() {
    let mut store = TraceStore::new();
    let task = store.create_task("conv_1".into(), "msg_1".into(), 0);

    store
        .append_event(
            &task.task_id,
            TraceEventType::TaskStarted,
            r#"{"message":"hi"}"#.into(),
            1,
        )
        .unwrap();
    store
        .append_event(
            &task.task_id,
            TraceEventType::ModelCallStarted,
            r#"{"node_id":"model_1"}"#.into(),
            2,
        )
        .unwrap();

    let replay = store.replay_after(&task.task_id, 1).unwrap();

    assert_eq!(replay.len(), 1);
    assert_eq!(replay[0].seq, 2);
    assert_eq!(replay[0].event_type, TraceEventType::ModelCallStarted);
}

#[test]
fn trace_store_marks_succeeded_from_terminal_event() {
    let mut store = TraceStore::new();
    let task = store.create_task("conv_1".into(), "msg_1".into(), 0);

    store
        .append_event(
            &task.task_id,
            TraceEventType::TaskCompleted,
            r#"{"duration_ms":7,"final_answer":"done"}"#.into(),
            1,
        )
        .unwrap();

    let snapshot = store.snapshot(&task.task_id).unwrap();
    assert_eq!(snapshot.status, TaskStatus::Succeeded);
    assert_eq!(snapshot.events[0].seq, 1);
}

#[test]
fn trace_store_fails_task_when_event_limit_is_exceeded() {
    let mut store = TraceStore::with_max_events(1);
    let task = store.create_task("conv_1".into(), "msg_1".into(), 0);

    store
        .append_event(&task.task_id, TraceEventType::TaskStarted, "{}".into(), 1)
        .unwrap();
    let failed = store
        .append_event(&task.task_id, TraceEventType::ModelCallStarted, "{}".into(), 2)
        .unwrap();

    assert_eq!(failed.event_type, TraceEventType::TaskFailed);
    assert_eq!(
        failed.payload,
        r#"{"duration_ms":0,"error":"trace event limit exceeded"}"#
    );
    assert_eq!(
        store.snapshot(&task.task_id).unwrap().status,
        TaskStatus::Failed
    );
}

#[test]
fn create_task_is_idempotent_per_client_message() {
    let mut store = TraceStore::new();
    let a = store.create_task("conv_1".into(), "msg_1".into(), 0);
    let b = store.create_task("conv_1".into(), "msg_1".into(), 5);
    assert_eq!(a.task_id, b.task_id);
    assert!(a.task_id.starts_with("task_"));
    assert_eq!(store.tasks.len(), 1);
    let c = store.create_task("conv_1".into(), "msg_2".into(), 6);
    assert_ne!(a.task_id, c.task_id);
    assert_eq!(
        store.find_by_client_message_id("msg_2").unwrap().task_id,
        c.task_id
    );
    assert!(store.find_by_client_message_id("msg_9").is_none());
}

#[test]
fn unknown_tasks_are_reported() {
    let mut store = TraceStore::new();
    let err = store
        .append_event("task_missing", TraceEventType::TaskStarted, "{}".into(), 0)
        .unwrap_err();
    assert_eq!(err.describe(), "trace task not found: task_missing");
    assert!(store.snapshot("task_missing").is_err());
    assert!(store.replay_after("task_missing", 0).is_err());
}

#[test]
fn mark_failed_and_succeeded_record_json_payloads() {
    let mut store = TraceStore::new();
    let task = store.create_task("c".into(), "m".into(), 0);
    store.mark_succeeded(&task.task_id, 12, "all \"done\"", 3);
    let snapshot = store.snapshot(&task.task_id).unwrap();
    assert_eq!(snapshot.status, TaskStatus::Succeeded);
    assert_eq!(
        snapshot.events[0].payload,
        r#"{"duration_ms":12,"final_answer":"all \"done\""}"#
    );
    assert_eq!(snapshot.updated_at_ms, 3);
    store.mark_failed(&task.task_id, 4, "boom", 9);
    let snapshot = store.snapshot(&task.task_id).unwrap();
    assert_eq!(snapshot.status, TaskStatus::Failed);
    assert_eq!(snapshot.events[1].seq, 2);
    assert_eq!(snapshot.events[1].payload, r#"{"duration_ms":4,"error":"boom"}"#);
    assert_eq!(store.replay_after(&task.task_id, 0).unwrap().len(), 2);
    assert_eq!(store.replay_after(&task.task_id, 7).unwrap().len(), 0);
    assert!(store.room_for_event());
}
