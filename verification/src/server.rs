//! The decisions of the HTTP API: whether a task request is accepted, what
//! it is answered, how a finished run is recorded, and which trace events an
//! event stream sends before it ends.  Serving HTTP and running agents is
//! left to the caller.
use vstd::prelude::*;
use vstd::string::*;
use crate::context::budget::{json_string, json_string_literal};
use crate::config::{AppConfig, BashConfig};
use crate::conversation_store::ConversationStore;
use crate::text::{append_str, str_chars, str_is_blank, string_from_chars, trim};
use crate::trace::{event_records, is_trace_id, trace_id, EventRecord, TaskStatus, TraceEvent, TraceEventType};
use crate::trace_store::{failure_payload, TraceStore};

verus! {

/// What the server keeps: its configuration (with the interactive tools
/// off), the running conversations, the traces and where trace archives are
/// read from.
pub struct ServerState {
    pub config: AppConfig,
    pub conversations: ConversationStore,
    pub traces: TraceStore,
    pub trace_dir: Option<String>,
}

impl ServerState {
    pub fn new(config: AppConfig, traces: TraceStore) -> (s: Self)
        ensures
            s.config == (AppConfig { bash: BashConfig { enabled: false, ..config.bash }, ..config }),
            s.traces == traces,
            s.conversations.wf(),
            s.conversations.running() == Map::<Seq<char>, Seq<char>>::empty(),
            s.trace_dir is None,
    {
        ServerState {
            config: config.without_interactive_tools(),
            conversations: ConversationStore::new(),
            traces,
            trace_dir: None,
        }
    }

    pub fn with_trace_dir(self, trace_dir: String) -> (s: Self)
        ensures
            s.config == self.config,
            s.traces == self.traces,
            s.conversations == self.conversations,
            s.trace_dir == Some(trace_dir),
    {
        let mut s = self;
        s.trace_dir = Some(trace_dir);
        s
    }
}

#[derive(Debug, Clone)]
pub struct CreateAgentTaskRequest {
    pub conversation_id: Option<String>,
    pub client_message_id: String,
    pub message: String,
    pub stream: bool,
}

#[derive(Debug, Clone, PartialEq, Eq)]
pub struct CreateAgentTaskResponse {
    pub task_id: String,
    pub conversation_id: String,
    pub events_url: String,
    pub snapshot_url: String,
}

#[derive(Debug, Clone, Copy, PartialEq, Eq)]
pub struct EventStreamQuery {
    pub after_seq: u64,
}

/// An error answer: HTTP status, code, message and whether to retry.
#[derive(Debug, Clone, PartialEq, Eq)]
pub struct ApiError {
    pub status: u16,
    pub code: String,
    pub message: String,
    pub retryable: bool,
}

pub open spec fn api_error(status: u16, code: Seq<char>, message: Seq<char>, retryable: bool, e: ApiError) -> bool {
    e.status == status && e.code@ == code && e.message@ == message && e.retryable == retryable
}

pub const CONVERSATION_BUSY_MESSAGE: &'static str = "Conversation already has a running task.";

impl ApiError {
    pub fn bad_request(code: &str, message: &str) -> (e: Self)
        ensures
            api_error(400, code@, message@, false, e),
    {
        ApiError { status: 400, code: String::from_str(code), message: String::from_str(message), retryable: false }
    }

    pub fn not_found(code: &str, message: &str) -> (e: Self)
        ensures
            api_error(404, code@, message@, false, e),
    {
        ApiError { status: 404, code: String::from_str(code), message: String::from_str(message), retryable: false }
    }

    pub fn conversation_busy() -> (e: Self)
        ensures
            api_error(409, "conversation_busy"@, CONVERSATION_BUSY_MESSAGE@, true, e),
    {
        ApiError {
            status: 409,
            code: String::from_str("conversation_busy"),
            message: String::from_str(CONVERSATION_BUSY_MESSAGE),
            retryable: true,
        }
    }

    /// The JSON body: `{"error":{"code":..,"message":..,"retryable":..}}`.
    pub fn body(&self) -> (s: String)
        ensures
            s@ == "{\"error\":{\"code\":"@ + json_string(self.code@) + ",\"message\":"@ + json_string(
                self.message@,
            ) + ",\"retryable\":"@ + (if self.retryable {
                "true"@
            } else {
                "false"@
            }) + "}}"@,
    {
        let mut v = str_chars("{\"error\":{\"code\":");
        append_str(&mut v, json_string_literal(self.code.as_str()).as_str());
        append_str(&mut v, ",\"message\":");
        append_str(&mut v, json_string_literal(self.message.as_str()).as_str());
        append_str(&mut v, ",\"retryable\":");
        if self.retryable {
            append_str(&mut v, "true");
        } else {
            append_str(&mut v, "false");
        }
        append_str(&mut v, "}}");
        string_from_chars(v.as_slice())
    }
}

/// The answer to an accepted task: its id, its conversation and where to
/// follow it.
pub fn task_response(task_id: &str, conversation_id: &str) -> (r: CreateAgentTaskResponse)
    ensures
        r.task_id@ == task_id@,
        r.conversation_id@ == conversation_id@,
        r.events_url@ == "/api/agent/tasks/"@ + task_id@ + "/events"@,
        r.snapshot_url@ == "/api/agent/tasks/"@ + task_id@,
{
    let mut e = str_chars("/api/agent/tasks/");
    append_str(&mut e, task_id);
    let snapshot_url = string_from_chars(e.as_slice());
    append_str(&mut e, "/events");
    CreateAgentTaskResponse {
        task_id: String::from_str(task_id),
        conversation_id: String::from_str(conversation_id),
        events_url: string_from_chars(e.as_slice()),
        snapshot_url,
    }
}

pub open spec fn spec_is_terminal_event(t: TraceEventType) -> bool {
    t == TraceEventType::TaskCompleted || t == TraceEventType::TaskFailed
}

pub fn is_terminal_event(event_type: TraceEventType) -> (b: bool)
    ensures
        b == spec_is_terminal_event(event_type),
{
    match event_type {
        TraceEventType::TaskCompleted | TraceEventType::TaskFailed => true,
        _ => false,
    }
}

pub open spec fn spec_is_terminal_status(s: TaskStatus) -> bool {
    s != TaskStatus::Running
}

pub fn is_terminal_status(status: TaskStatus) -> (b: bool)
    ensures
        b == spec_is_terminal_status(status),
{
    match status {
        TaskStatus::Succeeded | TaskStatus::Failed | TaskStatus::Cancelled => true,
        TaskStatus::Running => false,
    }
}

/// A task to run after answering: the conversation, the task and the user's
/// message.
#[derive(Debug, Clone)]
pub struct TaskRun {
    pub conversation_id: String,
    pub task_id: String,
    pub message: String,
}

/// An accepted request: the answer (always `202 Accepted`), and the run to
/// start when the task is new.
#[derive(Debug, Clone)]
pub struct TaskAccepted {
    pub response: CreateAgentTaskResponse,
    pub run: Option<TaskRun>,
}

/// Whether a request is valid, and the error when it is not: only streaming
/// requests with a client message id and a message that are not blank.
pub open spec fn request_error(request: CreateAgentTaskRequest) -> Option<(Seq<char>, Seq<char>)> {
    if !request.stream {
        Some(("unsupported_mode"@, "Only stream=true is supported."@))
    } else if trim(request.client_message_id@).len() == 0 {
        Some(("invalid_request"@, "client_message_id is required."@))
    } else if trim(request.message@).len() == 0 {
        Some(("invalid_request"@, "message is required."@))
    } else {
        None
    }
}

/// The trace store after a new running task was stored last: it has the
/// task's ids and the request's client message id, no events, the time of
/// creation, and every earlier task with another id is kept.
pub open spec fn task_stored(
    before: TraceStore,
    after: TraceStore,
    task_id: Seq<char>,
    conversation_id: Seq<char>,
    client_message_id: Seq<char>,
    now_ms: i64,
) -> bool {
    &&& after.tasks@.len() > 0
    &&& after.tasks@.last().task_id@ == task_id
    &&& after.tasks@.last().conversation_id@ == conversation_id
    &&& after.tasks@.last().client_message_id@ == client_message_id
    &&& after.tasks@.last().status == TaskStatus::Running
    &&& after.tasks@.last().events@.len() == 0
    &&& after.tasks@.last().created_at_ms == now_ms
    &&& after.tasks@.last().updated_at_ms == now_ms
    &&& forall|i: int|
        0 <= i < before.tasks@.len() && before.tasks@[i].task_id@ != task_id ==> after.tasks@.contains(
            #[trigger] before.tasks@[i],
        )
}

/// Starts a task for a new client message in a chosen conversation: a busy
/// conversation is answered 409 and nothing changes; otherwise a new running
/// task is stored, the conversation runs it, and it is to run.
pub fn start_task(
    traces: &mut TraceStore,
    conversations: &mut ConversationStore,
    request: CreateAgentTaskRequest,
    conversation_id: String,
    now_ms: i64,
) -> (r: Result<TaskAccepted, ApiError>)
    requires
        old(traces).wf(),
        old(traces).has_room(),
        old(conversations).wf(),
        forall|i: int|
            0 <= i < old(traces).tasks@.len() ==> (#[trigger] old(traces).tasks@[i]).client_message_id@
                != request.client_message_id@,
    ensures
        final(traces).wf(),
        final(conversations).wf(),
        old(conversations).running().contains_key(conversation_id@) ==> (r matches Err(e) && api_error(
            409,
            "conversation_busy"@,
            CONVERSATION_BUSY_MESSAGE@,
            true,
            e,
        )) && final(traces).tasks@ == old(traces).tasks@ && final(conversations).running()
            == old(conversations).running(),
        !old(conversations).running().contains_key(conversation_id@) ==> (r matches Ok(a) && a.run matches Some(
            run,
        ) && run.conversation_id@ == conversation_id@ && run.task_id@ == a.response.task_id@
            && run.message@ == request.message@ && a.response.conversation_id@ == conversation_id@
            && final(conversations).running() == old(conversations).running().insert(
            conversation_id@,
            run.task_id@,
        ) && task_stored(
            *old(traces),
            *final(traces),
            a.response.task_id@,
            conversation_id@,
            request.client_message_id@,
            now_ms,
        )),
{
    if conversations.is_busy(conversation_id.as_str()) {
        return Err(ApiError::conversation_busy());
    }
    let task = traces.create_task(conversation_id.clone(), request.client_message_id.clone(), now_ms);
    match conversations.try_start_task(conversation_id.as_str(), task.task_id.as_str()) {
        Ok(()) => {},
        Err(_) => {
            traces.mark_failed(task.task_id.as_str(), 0, CONVERSATION_BUSY_MESSAGE, now_ms);
            return Err(ApiError::conversation_busy());
        },
    }
    let response = task_response(task.task_id.as_str(), task.conversation_id.as_str());
    Ok(
        TaskAccepted {
            response,
            run: Some(TaskRun { conversation_id, task_id: task.task_id, message: request.message }),
        },
    )
}

/// Handles a task request.  An invalid request is refused (400); a client
/// message that already has a task is answered with that task; otherwise a
/// new task is created in the given conversation (or a new `conv_`
/// conversation when none is given), unless that conversation is busy
/// (409), and it is to run.
pub fn create_task(
    traces: &mut TraceStore,
    conversations: &mut ConversationStore,
    request: CreateAgentTaskRequest,
    now_ms: i64,
) -> (r: Result<TaskAccepted, ApiError>)
    requires
        old(traces).wf(),
        old(traces).has_room(),
        old(conversations).wf(),
    ensures
        final(traces).wf(),
        final(conversations).wf(),
        match request_error(request) {
            Some((code, message)) => (r matches Err(e) && api_error(400, code, message, false, e))
                && final(traces).tasks@ == old(traces).tasks@ && final(conversations).running()
                == old(conversations).running(),
            None => {
                let known = exists|i: int|
                    0 <= i < old(traces).tasks@.len()
                        && (#[trigger] old(traces).tasks@[i]).client_message_id@
                        == request.client_message_id@;
                if known {
                    &&& r matches Ok(a) && a.run is None && exists|i: int|
                        0 <= i < old(traces).tasks@.len()
                            && (#[trigger] old(traces).tasks@[i]).client_message_id@
                            == request.client_message_id@ && a.response.task_id@
                            == old(traces).tasks@[i].task_id@ && a.response.conversation_id@
                            == old(traces).tasks@[i].conversation_id@
                    &&& final(traces).tasks@ == old(traces).tasks@
                    &&& final(conversations).running() == old(conversations).running()
                } else {
                    let given = match request.conversation_id {
                        Some(c) => if trim(c@).len() > 0 {
                            Some(c@)
                        } else {
                            None
                        },
                        None => None,
                    };
                    match given {
                        Some(c) => if old(conversations).running().contains_key(c) {
                            (r matches Err(e) && api_error(409, "conversation_busy"@, CONVERSATION_BUSY_MESSAGE@, true, e))
                                && final(traces).tasks@ == old(traces).tasks@
                                && final(conversations).running() == old(conversations).running()
                        } else {
                            r matches Ok(a) && a.run matches Some(run) && run.conversation_id@ == c
                                && run.task_id@ == a.response.task_id@ && run.message@
                                == request.message@ && a.response.conversation_id@ == c
                                && final(conversations).running() == old(conversations).running().insert(
                                c,
                                run.task_id@,
                            ) && task_stored(
                                *old(traces),
                                *final(traces),
                                a.response.task_id@,
                                c,
                                request.client_message_id@,
                                now_ms,
                            )
                        },
                        None => (r matches Ok(a) ==> a.run matches Some(run) && is_trace_id(
                            run.conversation_id@,
                            "conv"@,
                        ) && run.task_id@ == a.response.task_id@ && run.message@ == request.message@
                            && a.response.conversation_id@ == run.conversation_id@
                            && final(conversations).running() == old(conversations).running().insert(
                            run.conversation_id@,
                            run.task_id@,
                        ) && task_stored(
                            *old(traces),
                            *final(traces),
                            a.response.task_id@,
                            run.conversation_id@,
                            request.client_message_id@,
                            now_ms,
                        )) && (r matches Err(e) ==> api_error(
                            409,
                            "conversation_busy"@,
                            CONVERSATION_BUSY_MESSAGE@,
                            true,
                            e,
                        ) && final(traces).tasks@ == old(traces).tasks@ && final(conversations).running()
                            == old(conversations).running()),
                    }
                }
            },
        },
{
    if !request.stream {
        return Err(ApiError::bad_request("unsupported_mode", "Only stream=true is supported."));
    }
    if str_is_blank(request.client_message_id.as_str()) {
        return Err(ApiError::bad_request("invalid_request", "client_message_id is required."));
    }
    if str_is_blank(request.message.as_str()) {
        return Err(ApiError::bad_request("invalid_request", "message is required."));
    }
    match traces.find_by_client_message_id(request.client_message_id.as_str()) {
        Some(existing) => {
            return Ok(
                TaskAccepted {
                    response: task_response(existing.task_id.as_str(), existing.conversation_id.as_str()),
                    run: None,
                },
            );
        },
        None => {},
    }
    let conversation_id = match &request.conversation_id {
        Some(c) => if !str_is_blank(c.as_str()) {
            c.clone()
        } else {
            trace_id("conv")
        },
        None => trace_id("conv"),
    };
    start_task(traces, conversations, request, conversation_id, now_ms)
}

/// Records the end of a run: a run that failed while its task was still
/// running marks the task failed; the conversation is then free again.
pub fn finish_task_run(
    traces: &mut TraceStore,
    conversations: &mut ConversationStore,
    run: &TaskRun,
    error: Option<&str>,
    duration_ms: u64,
    now_ms: i64,
)
    requires
        old(traces).wf(),
        old(traces).has_room(),
        old(conversations).wf(),
    ensures
        final(traces).wf(),
        final(conversations).wf(),
        (old(conversations).running().contains_key(run.conversation_id@)
            && old(conversations).running()[run.conversation_id@] == run.task_id@)
            ==> final(conversations).running() == old(conversations).running().remove(
            run.conversation_id@,
        ),
        match old(traces).index_of(run.task_id@) {
            Some(i) => match error {
                Some(e) => if old(traces).tasks@[i].status == TaskStatus::Running {
                    &&& final(traces).tasks@[i].status == TaskStatus::Failed
                    &&& final(traces).tasks@[i].events@.last().payload@ == failure_payload(
                        duration_ms,
                        e@,
                    )
                } else {
                    final(traces).tasks@ == old(traces).tasks@
                },
                None => final(traces).tasks@ == old(traces).tasks@,
            },
            None => final(traces).tasks@ == old(traces).tasks@,
        },
{
    match error {
        Some(e) => {
            match traces.snapshot(run.task_id.as_str()) {
                Ok(s) => if s.status == TaskStatus::Running {
                    traces.mark_failed(run.task_id.as_str(), duration_ms, e, now_ms);
                },
                Err(_) => {},
            }
        },
        None => {},
    }
    conversations.finish_task(run.conversation_id.as_str(), run.task_id.as_str());
}

/// How many of the replayed events an event stream sends, and whether it
/// ends after them: the replay up to and including its first terminal event
/// (then it ends), or all of it, ending when the task's status is already
/// terminal.
pub fn plan_replay(replay: &Vec<TraceEvent>, status: TaskStatus) -> (r: (usize, bool))
    ensures
        r.0 <= replay@.len(),
        forall|k: int| 0 <= k < r.0 - 1 ==> !spec_is_terminal_event(#[trigger] replay@[k].event_type),
        r.0 < replay@.len() ==> r.0 > 0 && r.1 && spec_is_terminal_event(replay@[r.0 - 1].event_type),
        r.0 == replay@.len() ==> r.1 == (
            (r.0 > 0 && spec_is_terminal_event(replay@[r.0 - 1].event_type))
            || spec_is_terminal_status(status)),
{
    let mut i: usize = 0;
    while i < replay.len()
        invariant
            i <= replay@.len(),
            forall|k: int| 0 <= k < i ==> !spec_is_terminal_event(#[trigger] replay@[k].event_type),
        decreases replay.len() - i,
    {
        if is_terminal_event(replay[i].event_type) {
            return (i + 1, true);
        }
        i = i + 1;
    }
    (replay.len(), is_terminal_status(status))
}

} // verus!
