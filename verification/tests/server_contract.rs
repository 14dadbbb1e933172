use sparrow_agent::conversation_store::ConversationStore;
use sparrow_agent::server::{
    create_task, finish_task_run, is_terminal_event, is_terminal_status, plan_replay, start_task,
    task_response, ApiError, CreateAgentTaskRequest,
};
use sparrow_agent::trace::{TaskStatus, TraceEvent, TraceEventType};
use sparrow_agent::trace_store::TraceStore;

fn request(conversation_id: Option<&str>, client_message_id: &str, message: &str) -> CreateAgentTaskRequest {
    CreateAgentTaskRequest {
        conversation_id: conversation_id.map(str::to_string),
        client_message_id: client_message_id.into(),
        message: message.into(),
        stream: true,
    }
}

fn event(seq: u64, event_type: TraceEventType) -> TraceEvent {
    TraceEvent {
        seq,
        task_id: "task_1".into(),
        conversation_id: "conv_1".into(),
        timestamp_ms: 0,
        event_type,
        payload: "{}".into(),
    }
}

#[test]
fn invalid_requests_are_refused() {
    let mut traces = TraceStore::new();
    let mut conversations = ConversationStore::new();
    let mut r = request(None, "m1", "hi");
    r.stream = false;
    let err = create_task(&mut traces, &mut conversations, r, 0).unwrap_err();
    assert_eq!(err.status, 400);
    assert_eq!(err.code, "unsupported_mode");
    let err = create_task(&mut traces, &mut conversations, request(None, " ", "hi"), 0).unwrap_err();
    assert_eq!(err.message, "client_message_id is required.");
    let err = create_task(&mut traces, &mut conversations, request(None, "m1", ""), 0).unwrap_err();
    assert_eq!(err.message, "message is required.");
    assert!(traces.tasks.is_empty());
}

#[test]
fn tasks_are_created_once_per_client_message_and_one_per_conversation() {
    let mut traces = TraceStore::new();
    let mut conversations = ConversationStore::new();
    let accepted = create_task(&mut traces, &mut conversations, request(Some("conv_a"), "m1", "hi"), 0).unwrap();
    let run = accepted.run.unwrap();
    assert_eq!(run.conversation_id, "conv_a");
    assert_eq!(accepted.response.conversation_id, "conv_a");
    assert_eq!(
        accepted.response.events_url,
        format!("/api/agent/tasks/{}/events", run.task_id)
    );
    assert!(conversations.is_busy("conv_a"));

    let again = create_task(&mut traces, &mut conversations, request(Some("conv_a"), "m1", "hi"), 1).unwrap();
    assert!(again.run.is_none());
    assert_eq!(again.response.task_id, run.task_id);

    let busy = create_task(&mut traces, &mut conversations, request(Some("conv_a"), "m2", "more"), 2).unwrap_err();
    assert_eq!(busy, ApiError::conversation_busy());
    assert_eq!(busy.status, 409);
    assert!(busy.retryable);

    finish_task_run(&mut traces, &mut conversations, &run, Some("boom"), 5, 3);
    assert!(!conversations.is_busy("conv_a"));
    assert_eq!(traces.snapshot(&run.task_id).unwrap().status, TaskStatus::Failed);

    let fresh = create_task(&mut traces, &mut conversations, request(None, "m3", "new"), 4).unwrap();
    assert!(fresh.response.conversation_id.starts_with("conv_"));
}

#[test]
fn conversation_store_tracks_one_task_per_conversation() {
    let mut store = ConversationStore::new();
    assert!(store.try_start_task("c", "t1").is_ok());
    assert_eq!(store.try_start_task("c", "t2"), Err("t1".to_string()));
    store.finish_task("c", "t2");
    assert!(store.is_busy("c"));
    store.finish_task("c", "t1");
    assert!(!store.is_busy("c"));
}

#[test]
fn event_streams_stop_at_the_first_terminal_event() {
    let replay = vec![
        event(1, TraceEventType::TaskStarted),
        event(2, TraceEventType::TaskCompleted),
        event(3, TraceEventType::ModelCallStarted),
    ];
    assert_eq!(plan_replay(&replay, TaskStatus::Succeeded), (2, true));
    let running = vec![event(1, TraceEventType::TaskStarted)];
    assert_eq!(plan_replay(&running, TaskStatus::Running), (1, false));
    assert_eq!(plan_replay(&Vec::new(), TaskStatus::Failed), (0, true));
    assert!(is_terminal_event(TraceEventType::TaskFailed));
    assert!(!is_terminal_event(TraceEventType::ToolCallFailed));
    assert!(is_terminal_status(TaskStatus::Cancelled));
    assert!(!is_terminal_status(TaskStatus::Running));
}

#[test]
fn api_errors_render_their_json_body() {
    let body = ApiError::not_found("task_not_found", "Task was not found.").body();
    let value: serde_json::Value = serde_json::from_str(&body).unwrap();
    assert_eq!(value["error"]["code"], "task_not_found");
    assert_eq!(value["error"]["retryable"], false);
    let r = task_response("task_1", "conv_1");
    assert_eq!(r.snapshot_url, "/api/agent/tasks/task_1");
}

#[test]
fn created_task_is_stored_running_with_the_request_ids() {
    let mut traces = TraceStore::new();
    let mut conversations = ConversationStore::new();
    let accepted = create_task(&mut traces, &mut conversations, request(Some("conv_s"), "m9", "hello"), 77).unwrap();
    let snapshot = traces.snapshot(&accepted.response.task_id).unwrap();
    assert_eq!(snapshot.conversation_id, "conv_s");
    assert_eq!(snapshot.status, TaskStatus::Running);
    assert_eq!(snapshot.created_at_ms, 77);
    assert!(snapshot.events.is_empty());
    assert_eq!(traces.find_by_client_message_id("m9").unwrap().task_id, accepted.response.task_id);
}

#[test]
fn start_task_refuses_a_busy_conversation_and_starts_a_free_one() {
    let mut traces = TraceStore::new();
    let mut conversations = ConversationStore::new();
    let first = start_task(&mut traces, &mut conversations, request(None, "a1", "one"), "conv_x".into(), 1).unwrap();
    assert_eq!(first.response.conversation_id, "conv_x");
    assert!(conversations.is_busy("conv_x"));
    let busy = start_task(&mut traces, &mut conversations, request(None, "a2", "two"), "conv_x".into(), 2).unwrap_err();
    assert_eq!(busy.status, 409);
    assert!(traces.find_by_client_message_id("a2").is_none());
    let other = start_task(&mut traces, &mut conversations, request(None, "a3", "three"), "conv_y".into(), 3).unwrap();
    assert_eq!(other.run.unwrap().message, "three");
}
