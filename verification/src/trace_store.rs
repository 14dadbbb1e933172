//! The in-memory record of tasks and their trace events.  Each task numbers
//! its events from 1 without gaps, and its status follows its terminal
//! events.  Handing events to live subscribers is left to the caller.
use vstd::prelude::*;
use vstd::string::*;
use crate::context::budget::{json_string, json_string_literal};
use crate::text::{append_chars, append_str, decimal, decimal_chars, str_chars, str_eq, string_from_chars};
use crate::trace::{
    event_records, is_trace_id, trace_id, EventRecord, TaskStatus, TraceEvent, TraceEventType,
};

verus! {

pub const DEFAULT_MAX_EVENTS_PER_TASK: usize = 10_000;

#[derive(Debug, Clone)]
pub struct StoredTaskHandle {
    pub task_id: String,
    pub conversation_id: String,
    pub client_message_id: String,
    pub status: TaskStatus,
}

#[derive(Debug, Clone)]
pub struct TaskSnapshot {
    pub task_id: String,
    pub conversation_id: String,
    pub status: TaskStatus,
    pub created_at_ms: i64,
    pub updated_at_ms: i64,
    pub events: Vec<TraceEvent>,
}

#[derive(Debug, Clone, PartialEq, Eq)]
pub enum TraceStoreError {
    TaskNotFound { task_id: String },
}

impl TraceStoreError {
    pub fn describe(&self) -> (s: String)
        ensures
            s@ == "trace task not found: "@ + self->task_id@,
    {
        match self {
            TraceStoreError::TaskNotFound { task_id } => {
                let mut v = str_chars("trace task not found: ");
                append_str(&mut v, task_id.as_str());
                string_from_chars(v.as_slice())
            },
        }
    }
}

pub struct StoredTask {
    pub task_id: String,
    pub conversation_id: String,
    pub client_message_id: String,
    pub status: TaskStatus,
    pub created_at_ms: i64,
    pub updated_at_ms: i64,
    pub events: Vec<TraceEvent>,
}

/// A terminal event settles the task's status.
pub open spec fn next_status(current: TaskStatus, event_type: TraceEventType) -> TaskStatus {
    match event_type {
        TraceEventType::TaskCompleted => TaskStatus::Succeeded,
        TraceEventType::TaskFailed => TaskStatus::Failed,
        _ => current,
    }
}

/// The status reached from `Running` through some events.
pub open spec fn status_after(events: Seq<EventRecord>) -> TaskStatus
    decreases events.len(),
{
    if events.len() == 0 {
        TaskStatus::Running
    } else {
        next_status(status_after(events.drop_last()), events.last().event_type)
    }
}

impl StoredTask {
    /// Events are numbered 1, 2, ... and carry the task's ids, and the status
    /// is the one the events lead to.
    pub open spec fn wf(&self) -> bool {
        &&& forall|k: int|
            0 <= k < self.events@.len() ==> {
                &&& (#[trigger] self.events@[k]).seq == k + 1
                &&& self.events@[k].task_id@ == self.task_id@
                &&& self.events@[k].conversation_id@ == self.conversation_id@
            }
        &&& self.status == status_after(event_records(self.events@))
    }
}

/// The tasks, in the order they were created, with distinct task ids and
/// distinct client message ids.
pub struct TraceStore {
    pub tasks: Vec<StoredTask>,
    pub max_events_per_task: usize,
}

/// The payload of a failure: `{"duration_ms":<ms>,"error":<text>}`.
pub open spec fn failure_payload(duration_ms: u64, error: Seq<char>) -> Seq<char> {
    "{\"duration_ms\":"@ + decimal(duration_ms as nat) + ",\"error\":"@ + json_string(error) + "}"@
}

/// The payload of a success: `{"duration_ms":<ms>,"final_answer":<text>}`.
pub open spec fn success_payload(duration_ms: u64, final_answer: Seq<char>) -> Seq<char> {
    "{\"duration_ms\":"@ + decimal(duration_ms as nat) + ",\"final_answer\":"@ + json_string(
        final_answer,
    ) + "}"@
}

/// What is recorded for an event asked for on a task that already has
/// `count` events: past the limit, anything but a failure becomes the failure
/// `trace event limit exceeded`.
pub open spec fn recorded_kind(
    count: int,
    max_events: int,
    event_type: TraceEventType,
    payload: Seq<char>,
) -> (TraceEventType, Seq<char>) {
    if count >= max_events && event_type != TraceEventType::TaskFailed {
        (TraceEventType::TaskFailed, failure_payload(0, "trace event limit exceeded"@))
    } else {
        (event_type, payload)
    }
}

fn failure_payload_exec(duration_ms: u64, error: &str) -> (r: String)
    ensures
        r@ == failure_payload(duration_ms, error@),
{
    let mut v = str_chars("{\"duration_ms\":");
    append_chars(&mut v, decimal_chars(duration_ms).as_slice());
    append_str(&mut v, ",\"error\":");
    append_str(&mut v, json_string_literal(error).as_str());
    append_str(&mut v, "}");
    string_from_chars(v.as_slice())
}

fn success_payload_exec(duration_ms: u64, final_answer: &str) -> (r: String)
    ensures
        r@ == success_payload(duration_ms, final_answer@),
{
    let mut v = str_chars("{\"duration_ms\":");
    append_chars(&mut v, decimal_chars(duration_ms).as_slice());
    append_str(&mut v, ",\"final_answer\":");
    append_str(&mut v, json_string_literal(final_answer).as_str());
    append_str(&mut v, "}");
    string_from_chars(v.as_slice())
}

fn clone_events(v: &Vec<TraceEvent>) -> (r: Vec<TraceEvent>)
    ensures
        event_records(r@) == event_records(v@),
{
    let mut r: Vec<TraceEvent> = Vec::new();
    let mut i: usize = 0;
    while i < v.len()
        invariant
            i <= v@.len(),
            r@.len() == i,
            forall|k: int| 0 <= k < i ==> #[trigger] r@[k]@ == v@[k]@,
        decreases v.len() - i,
    {
        r.push(v[i].clone_event());
        i = i + 1;
    }
    assert(event_records(r@) =~= event_records(v@));
    r
}

/// The events replayed after a number are exactly the task's events
/// numbered above it, in order.
pub proof fn lemma_replay_is_events_after(t: StoredTask, after_seq: u64)
    requires
        t.wf(),
    ensures
        ({
            let evs = event_records(t.events@);
            let r = if after_seq < evs.len() {
                evs.subrange(after_seq as int, evs.len() as int)
            } else {
                Seq::empty()
            };
            &&& forall|k: int| 0 <= k < r.len() ==> (#[trigger] r[k]).seq > after_seq
            &&& forall|k: int|
                0 <= k < evs.len() && (#[trigger] evs[k]).seq > after_seq ==> r.contains(evs[k])
        }),
{
    let evs = event_records(t.events@);
    assert forall|k: int| 0 <= k < evs.len() implies (#[trigger] evs[k]).seq == k + 1 by {
        assert(evs[k] == t.events@[k]@);
    }
    if after_seq < evs.len() {
        let r = evs.subrange(after_seq as int, evs.len() as int);
        assert forall|k: int| 0 <= k < evs.len() && (#[trigger] evs[k]).seq > after_seq implies r.contains(
            evs[k],
        ) by {
            assert(r[k - after_seq] == evs[k]);
        }
    }
}

/// The status of a task is that of its last terminal event, `Running` when
/// it has none.
pub proof fn lemma_status_follows_last_terminal_event(events: Seq<EventRecord>)
    ensures
        events.len() > 0 && events.last().event_type == TraceEventType::TaskCompleted
            ==> status_after(events) == TaskStatus::Succeeded,
        events.len() > 0 && events.last().event_type == TraceEventType::TaskFailed
            ==> status_after(events) == TaskStatus::Failed,
        (forall|k: int|
            0 <= k < events.len() ==> (#[trigger] events[k]).event_type != TraceEventType::TaskCompleted
                && events[k].event_type != TraceEventType::TaskFailed) ==> status_after(events)
            == TaskStatus::Running,
    decreases events.len(),
{
    if events.len() > 0 {
        lemma_status_follows_last_terminal_event(events.drop_last());
        if forall|k: int|
            0 <= k < events.len() ==> (#[trigger] events[k]).event_type != TraceEventType::TaskCompleted
                && events[k].event_type != TraceEventType::TaskFailed {
            assert forall|k: int| 0 <= k < events.drop_last().len() implies (#[trigger] events.drop_last()[k]).event_type
                != TraceEventType::TaskCompleted && events.drop_last()[k].event_type
                != TraceEventType::TaskFailed by {
                assert(events.drop_last()[k] == events[k]);
            }
            assert(events[events.len() - 1] == events.last());
        }
    }
}

impl TraceStore {
    pub open spec fn wf(&self) -> bool {
        &&& forall|i: int| 0 <= i < self.tasks@.len() ==> (#[trigger] self.tasks@[i]).wf()
        &&& forall|i: int, j: int|
            0 <= i < j < self.tasks@.len() ==> (#[trigger] self.tasks@[i]).task_id@
                != (#[trigger] self.tasks@[j]).task_id@
        &&& forall|i: int, j: int|
            0 <= i < j < self.tasks@.len() ==> (#[trigger] self.tasks@[i]).client_message_id@
                != (#[trigger] self.tasks@[j]).client_message_id@
    }

    /// The position of the task with this id.
    pub open spec fn index_of(&self, task_id: Seq<char>) -> Option<int> {
        if exists|i: int| 0 <= i < self.tasks@.len() && (#[trigger] self.tasks@[i]).task_id@ == task_id {
            Some(choose|i: int| 0 <= i < self.tasks@.len() && (#[trigger] self.tasks@[i]).task_id@ == task_id)
        } else {
            None
        }
    }

    /// Room for one more event in every task (sequence numbers are `u64`).
    pub open spec fn has_room(&self) -> bool {
        forall|i: int| 0 <= i < self.tasks@.len() ==> (#[trigger] self.tasks@[i]).events@.len() + 2 < u64::MAX
    }

    pub fn new() -> (s: Self)
        ensures
            s.wf(),
            s.has_room(),
            s.tasks@.len() == 0,
            s.max_events_per_task == DEFAULT_MAX_EVENTS_PER_TASK,
    {
        Self::with_max_events(DEFAULT_MAX_EVENTS_PER_TASK)
    }

    pub fn with_max_events(max_events_per_task: usize) -> (s: Self)
        ensures
            s.wf(),
            s.has_room(),
            s.tasks@.len() == 0,
            s.max_events_per_task == max_events_per_task,
    {
        TraceStore { tasks: Vec::new(), max_events_per_task }
    }

    fn find_index(&self, task_id: &str) -> (r: Option<usize>)
        requires
            self.wf(),
        ensures
            match r {
                Some(i) => i < self.tasks@.len() && self.tasks@[i as int].task_id@ == task_id@
                    && self.index_of(task_id@) == Some(i as int),
                None => self.index_of(task_id@) is None,
            },
    {
        let mut i: usize = 0;
        while i < self.tasks.len()
            invariant
                i <= self.tasks@.len(),
                self.wf(),
                forall|k: int| 0 <= k < i ==> self.tasks@[k].task_id@ != task_id@,
            decreases self.tasks.len() - i,
        {
            if str_eq(self.tasks[i].task_id.as_str(), task_id) {
                proof {
                    let j = choose|j: int|
                        0 <= j < self.tasks@.len() && (#[trigger] self.tasks@[j]).task_id@
                            == task_id@;
                    if j != i {
                        if j < i {
                            assert(self.tasks@[j].task_id@ != self.tasks@[i as int].task_id@);
                        } else {
                            assert(self.tasks@[i as int].task_id@ != self.tasks@[j].task_id@);
                        }
                    }
                }
                return Some(i);
            }
            i = i + 1;
        }
        None
    }

    fn find_client_index(&self, client_message_id: &str) -> (r: Option<usize>)
        ensures
            match r {
                Some(i) => i < self.tasks@.len() && self.tasks@[i as int].client_message_id@
                    == client_message_id@,
                None => forall|k: int|
                    0 <= k < self.tasks@.len() ==> (#[trigger] self.tasks@[k]).client_message_id@
                        != client_message_id@,
            },
    {
        let mut i: usize = 0;
        while i < self.tasks.len()
            invariant
                i <= self.tasks@.len(),
                forall|k: int| 0 <= k < i ==> self.tasks@[k].client_message_id@ != client_message_id@,
            decreases self.tasks.len() - i,
        {
            if str_eq(self.tasks[i].client_message_id.as_str(), client_message_id) {
                return Some(i);
            }
            i = i + 1;
        }
        None
    }

    fn handle_at(&self, i: usize) -> (h: StoredTaskHandle)
        requires
            i < self.tasks@.len(),
        ensures
            h.task_id@ == self.tasks@[i as int].task_id@,
            h.conversation_id@ == self.tasks@[i as int].conversation_id@,
            h.client_message_id@ == self.tasks@[i as int].client_message_id@,
            h.status == self.tasks@[i as int].status,
    {
        let t = &self.tasks[i];
        StoredTaskHandle {
            task_id: t.task_id.clone(),
            conversation_id: t.conversation_id.clone(),
            client_message_id: t.client_message_id.clone(),
            status: t.status,
        }
    }

    /// The task of a client message: the existing one when that message
    /// already has a task, else a new running task with a fresh `task_` id.
    /// A new task whose id an old task already had takes its place.
    pub fn create_task(&mut self, conversation_id: String, client_message_id: String, now_ms: i64) -> (h:
        StoredTaskHandle)
        requires
            old(self).wf(),
            old(self).has_room(),
        ensures
            final(self).wf(),
            final(self).has_room(),
            final(self).max_events_per_task == old(self).max_events_per_task,
            h.client_message_id@ == client_message_id@,
            (exists|i: int|
                0 <= i < old(self).tasks@.len() && (#[trigger] old(self).tasks@[i]).client_message_id@
                    == client_message_id@) ==> {
                &&& final(self).tasks@ == old(self).tasks@
                &&& exists|i: int|
                    0 <= i < old(self).tasks@.len() && (#[trigger] old(self).tasks@[i]).client_message_id@
                        == client_message_id@ && h.task_id@ == old(self).tasks@[i].task_id@
                        && h.status == old(self).tasks@[i].status
            },
            (forall|i: int|
                0 <= i < old(self).tasks@.len() ==> (#[trigger] old(self).tasks@[i]).client_message_id@
                    != client_message_id@) ==> {
                &&& is_trace_id(h.task_id@, "task"@)
                &&& h.conversation_id@ == conversation_id@
                &&& h.status == TaskStatus::Running
                &&& final(self).tasks@.len() > 0
                &&& final(self).tasks@.last().task_id@ == h.task_id@
                &&& final(self).tasks@.last().conversation_id@ == conversation_id@
                &&& final(self).tasks@.last().client_message_id@ == client_message_id@
                &&& final(self).tasks@.last().status == TaskStatus::Running
                &&& final(self).tasks@.last().events@.len() == 0
                &&& final(self).tasks@.last().created_at_ms == now_ms
                &&& final(self).tasks@.last().updated_at_ms == now_ms
                &&& forall|i: int|
                    0 <= i < old(self).tasks@.len() && old(self).tasks@[i].task_id@ != h.task_id@
                        ==> final(self).tasks@.contains(#[trigger] old(self).tasks@[i])
            },
    {
        match self.find_client_index(client_message_id.as_str()) {
            Some(i) => {
                return self.handle_at(i);
            },
            None => {},
        }
        let task_id = trace_id("task");
        match self.find_index(task_id.as_str()) {
            Some(j) => {
                let ghost before = self.tasks@;
                self.tasks.remove(j);
                proof {
                    assert forall|i: int|
                        0 <= i < before.len() && before[i].task_id@ != task_id@ implies self.tasks@.contains(
                        #[trigger] before[i],
                    ) by {
                        if i < j {
                            assert(self.tasks@[i] == before[i]);
                        } else {
                            assert(i != j);
                            assert(self.tasks@[i - 1] == before[i]);
                        }
                    }
                    assert forall|a: int, b: int|
                        0 <= a < b < self.tasks@.len() implies (#[trigger] self.tasks@[a]).task_id@
                        != (#[trigger] self.tasks@[b]).task_id@ by {
                        let a0 = if a < j { a } else { a + 1 };
                        let b0 = if b < j { b } else { b + 1 };
                        assert(self.tasks@[a] == before[a0]);
                        assert(self.tasks@[b] == before[b0]);
                    }
                    assert forall|a: int, b: int|
                        0 <= a < b < self.tasks@.len() implies (#[trigger] self.tasks@[a]).client_message_id@
                        != (#[trigger] self.tasks@[b]).client_message_id@ by {
                        let a0 = if a < j { a } else { a + 1 };
                        let b0 = if b < j { b } else { b + 1 };
                        assert(self.tasks@[a] == before[a0]);
                        assert(self.tasks@[b] == before[b0]);
                    }
                    assert forall|a: int| 0 <= a < self.tasks@.len() implies (#[trigger] self.tasks@[a]).wf()
                        && self.tasks@[a].events@.len() + 2 < u64::MAX by {
                        let a0 = if a < j { a } else { a + 1 };
                        assert(self.tasks@[a] == before[a0]);
                    }
                    assert forall|k: int| 0 <= k < self.tasks@.len() implies (#[trigger] self.tasks@[k]).client_message_id@
                        != client_message_id@ by {
                        let k0 = if k < j { k } else { k + 1 };
                        assert(self.tasks@[k] == before[k0]);
                    }
                }
            },
            None => {
                proof {
                    assert forall|i: int|
                        0 <= i < self.tasks@.len() && self.tasks@[i].task_id@ != task_id@ implies self.tasks@.contains(
                        #[trigger] self.tasks@[i],
                    ) by {
                        assert(self.tasks@[i] == self.tasks@[i]);
                    }
                }
            },
        }
        let ghost mid = self.tasks@;
        let handle = StoredTaskHandle {
            task_id: task_id.clone(),
            conversation_id: conversation_id.clone(),
            client_message_id: client_message_id.clone(),
            status: TaskStatus::Running,
        };
        let task = StoredTask {
            task_id,
            conversation_id,
            client_message_id,
            status: TaskStatus::Running,
            created_at_ms: now_ms,
            updated_at_ms: now_ms,
            events: Vec::new(),
        };
        proof {
            assert(event_records(task.events@) =~= Seq::<EventRecord>::empty());
        }
        self.tasks.push(task);
        proof {
            assert(forall|i: int| 0 <= i < mid.len() ==> self.tasks@[i] == mid[i]);
            assert forall|i: int|
                0 <= i < old(self).tasks@.len() && old(self).tasks@[i].task_id@ != handle.task_id@
                    implies self.tasks@.contains(#[trigger] old(self).tasks@[i]) by {
                assert(mid.contains(old(self).tasks@[i]));
                let k = choose|k: int| 0 <= k < mid.len() && mid[k] == old(self).tasks@[i];
                assert(self.tasks@[k] == mid[k]);
            }
        }
        handle
    }

    pub fn find_by_client_message_id(&self, client_message_id: &str) -> (r: Option<StoredTaskHandle>)
        ensures
            match r {
                Some(h) => exists|i: int|
                    0 <= i < self.tasks@.len() && (#[trigger] self.tasks@[i]).client_message_id@
                        == client_message_id@ && h.task_id@ == self.tasks@[i].task_id@
                        && h.conversation_id@ == self.tasks@[i].conversation_id@
                        && h.status == self.tasks@[i].status && h.client_message_id@
                        == client_message_id@,
                None => forall|i: int|
                    0 <= i < self.tasks@.len() ==> (#[trigger] self.tasks@[i]).client_message_id@
                        != client_message_id@,
            },
    {
        match self.find_client_index(client_message_id) {
            Some(i) => Some(self.handle_at(i)),
            None => None,
        }
    }

    /// Records an event on a task: it gets the next number and the time, and
    /// past the event limit anything but a failure is recorded as the failure
    /// `trace event limit exceeded`.  Returns the recorded event.
    pub fn append_event(
        &mut self,
        task_id: &str,
        event_type: TraceEventType,
        payload: String,
        now_ms: i64,
    ) -> (r: Result<TraceEvent, TraceStoreError>)
        requires
            old(self).wf(),
            old(self).has_room(),
        ensures
            final(self).wf(),
            final(self).max_events_per_task == old(self).max_events_per_task,
            final(self).tasks@.len() == old(self).tasks@.len(),
            match old(self).index_of(task_id@) {
                None => (r matches Err(e) && e->task_id@ == task_id@) && final(self).tasks@
                    == old(self).tasks@ && final(self).has_room(),
                Some(i) => {
                    let before = old(self).tasks@[i];
                    let after = final(self).tasks@[i];
                    let n = before.events@.len();
                    let (t, p) = recorded_kind(
                        n as int,
                        old(self).max_events_per_task as int,
                        event_type,
                        payload@,
                    );
                    &&& r matches Ok(e) && e@ == (EventRecord {
                        seq: (n + 1) as u64,
                        task_id: before.task_id@,
                        conversation_id: before.conversation_id@,
                        timestamp_ms: now_ms,
                        event_type: t,
                        payload: p,
                    })
                    &&& event_records(after.events@) == event_records(before.events@).push(
                        r->Ok_0@,
                    )
                    &&& after.status == next_status(before.status, t)
                    &&& after.updated_at_ms == now_ms
                    &&& after.created_at_ms == before.created_at_ms
                    &&& after.task_id == before.task_id
                    &&& after.conversation_id == before.conversation_id
                    &&& after.client_message_id == before.client_message_id
                    &&& forall|k: int|
                        0 <= k < old(self).tasks@.len() && k != i ==> final(self).tasks@[k]
                            == old(self).tasks@[k]
                },
            },
    {
        let i = match self.find_index(task_id) {
            Some(i) => i,
            None => {
                return Err(TraceStoreError::TaskNotFound { task_id: String::from_str(task_id) });
            },
        };
        let ghost before_all = self.tasks@;
        let mut task = self.tasks.remove(i);
        let count = task.events.len();
        let (t, p) = if count >= self.max_events_per_task && event_type != TraceEventType::TaskFailed {
            (TraceEventType::TaskFailed, failure_payload_exec(0, "trace event limit exceeded"))
        } else {
            (event_type, payload)
        };
        proof {
            assert(before_all[i as int].events@.len() + 2 < u64::MAX);
        }
        let event = TraceEvent {
            seq: (count as u64) + 1,
            task_id: task.task_id.clone(),
            conversation_id: task.conversation_id.clone(),
            timestamp_ms: now_ms,
            event_type: t,
            payload: p,
        };
        let ghost old_events = task.events@;
        task.events.push(event.clone_event());
        task.updated_at_ms = now_ms;
        task.status = match t {
            TraceEventType::TaskCompleted => TaskStatus::Succeeded,
            TraceEventType::TaskFailed => TaskStatus::Failed,
            _ => task.status,
        };
        proof {
            assert(event_records(task.events@) =~= event_records(old_events).push(event@));
            assert(event_records(task.events@).drop_last() =~= event_records(old_events));
            assert forall|k: int| 0 <= k < task.events@.len() implies {
                &&& (#[trigger] task.events@[k]).seq == k + 1
                &&& task.events@[k].task_id@ == task.task_id@
                &&& task.events@[k].conversation_id@ == task.conversation_id@
            } by {
                if k < old_events.len() {
                    assert(task.events@[k] == old_events[k]);
                }
            }
        }
        self.tasks.insert(i, task);
        proof {
            assert forall|k: int| 0 <= k < self.tasks@.len() && k != i implies self.tasks@[k]
                == before_all[k] by {}
            assert forall|a: int, b: int|
                0 <= a < b < self.tasks@.len() implies (#[trigger] self.tasks@[a]).task_id@
                != (#[trigger] self.tasks@[b]).task_id@ by {
                assert(self.tasks@[a].task_id@ == before_all[a].task_id@);
                assert(self.tasks@[b].task_id@ == before_all[b].task_id@);
            }
            assert forall|a: int, b: int|
                0 <= a < b < self.tasks@.len() implies (#[trigger] self.tasks@[a]).client_message_id@
                != (#[trigger] self.tasks@[b]).client_message_id@ by {
                assert(self.tasks@[a].client_message_id@ == before_all[a].client_message_id@);
                assert(self.tasks@[b].client_message_id@ == before_all[b].client_message_id@);
            }
        }
        Ok(event)
    }

    /// A copy of a task as it stands.
    pub fn snapshot(&self, task_id: &str) -> (r: Result<TaskSnapshot, TraceStoreError>)
        requires
            self.wf(),
        ensures
            match self.index_of(task_id@) {
                None => r matches Err(e) && e->task_id@ == task_id@,
                Some(i) => r matches Ok(s) && {
                    let t = self.tasks@[i];
                    &&& s.task_id@ == t.task_id@
                    &&& s.conversation_id@ == t.conversation_id@
                    &&& s.status == t.status
                    &&& s.created_at_ms == t.created_at_ms
                    &&& s.updated_at_ms == t.updated_at_ms
                    &&& event_records(s.events@) == event_records(t.events@)
                },
            },
    {
        match self.find_index(task_id) {
            Some(i) => {
                let t = &self.tasks[i];
                Ok(
                    TaskSnapshot {
                        task_id: t.task_id.clone(),
                        conversation_id: t.conversation_id.clone(),
                        status: t.status,
                        created_at_ms: t.created_at_ms,
                        updated_at_ms: t.updated_at_ms,
                        events: clone_events(&t.events),
                    },
                )
            },
            None => Err(TraceStoreError::TaskNotFound { task_id: String::from_str(task_id) }),
        }
    }

    /// The events of a task numbered after `after_seq`, in order.
    pub fn replay_after(&self, task_id: &str, after_seq: u64) -> (r: Result<
        Vec<TraceEvent>,
        TraceStoreError,
    >)
        requires
            self.wf(),
        ensures
            match self.index_of(task_id@) {
                None => r matches Err(e) && e->task_id@ == task_id@,
                Some(i) => r matches Ok(v) && {
                    let evs = event_records(self.tasks@[i].events@);
                    event_records(v@) == if after_seq < evs.len() {
                        evs.subrange(after_seq as int, evs.len() as int)
                    } else {
                        Seq::empty()
                    }
                },
            },
    {
        match self.find_index(task_id) {
            Some(i) => {
                let t = &self.tasks[i];
                let mut out: Vec<TraceEvent> = Vec::new();
                let mut k: usize = 0;
                let ghost evs = event_records(t.events@);
                while k < t.events.len()
                    invariant
                        k <= t.events@.len(),
                        t.wf(),
                        evs == event_records(t.events@),
                        event_records(out@) == if after_seq < k {
                            evs.subrange(after_seq as int, k as int)
                        } else {
                            Seq::empty()
                        },
                    decreases t.events.len() - k,
                {
                    assert(t.events@[k as int].seq == k + 1);
                    if t.events[k].seq > after_seq {
                        let ghost o = event_records(out@);
                        out.push(t.events[k].clone_event());
                        assert(event_records(out@) =~= o.push(evs[k as int]));
                        assert(evs.subrange(after_seq as int, k + 1) =~= evs.subrange(
                            after_seq as int,
                            k as int,
                        ).push(evs[k as int]));
                    }
                    k = k + 1;
                    proof {
                        if after_seq == k - 1 {
                            assert(evs.subrange(after_seq as int, k as int) =~= seq![evs[k - 1]]);
                        }
                    }
                }
                Ok(out)
            },
            None => Err(TraceStoreError::TaskNotFound { task_id: String::from_str(task_id) }),
        }
    }

    /// Records the failure of a task, if it exists.
    pub fn mark_failed(&mut self, task_id: &str, duration_ms: u64, error: &str, now_ms: i64)
        requires
            old(self).wf(),
            old(self).has_room(),
        ensures
            final(self).wf(),
            final(self).max_events_per_task == old(self).max_events_per_task,
            match old(self).index_of(task_id@) {
                None => final(self).tasks@ == old(self).tasks@,
                Some(i) => {
                    let before = old(self).tasks@[i];
                    let after = final(self).tasks@[i];
                    &&& after.status == TaskStatus::Failed
                    &&& after.events@.len() == before.events@.len() + 1
                    &&& after.events@.last().event_type == TraceEventType::TaskFailed
                    &&& after.events@.last().payload@ == failure_payload(duration_ms, error@)
                },
            },
    {
        let payload = failure_payload_exec(duration_ms, error);
        let r = self.append_event(task_id, TraceEventType::TaskFailed, payload, now_ms);
        proof {
            match old(self).index_of(task_id@) {
                Some(i) => {
                    let after = self.tasks@[i];
                    assert(event_records(after.events@).last() == after.events@.last()@);
                    assert(event_records(after.events@).len() == after.events@.len());
                },
                None => {},
            }
        }
    }

    /// Records the success of a task, if it exists.  Past the event limit the
    /// success is recorded as the limit failure.
    pub fn mark_succeeded(&mut self, task_id: &str, duration_ms: u64, final_answer: &str, now_ms: i64)
        requires
            old(self).wf(),
            old(self).has_room(),
        ensures
            final(self).wf(),
            final(self).max_events_per_task == old(self).max_events_per_task,
            match old(self).index_of(task_id@) {
                None => final(self).tasks@ == old(self).tasks@,
                Some(i) => {
                    let before = old(self).tasks@[i];
                    let after = final(self).tasks@[i];
                    &&& after.events@.len() == before.events@.len() + 1
                    &&& before.events@.len() < old(self).max_events_per_task ==> {
                        &&& after.status == TaskStatus::Succeeded
                        &&& after.events@.last().event_type == TraceEventType::TaskCompleted
                        &&& after.events@.last().payload@ == success_payload(duration_ms, final_answer@)
                    }
                },
            },
    {
        let payload = success_payload_exec(duration_ms, final_answer);
        let r = self.append_event(task_id, TraceEventType::TaskCompleted, payload, now_ms);
        proof {
            match old(self).index_of(task_id@) {
                Some(i) => {
                    let after = self.tasks@[i];
                    assert(event_records(after.events@).last() == after.events@.last()@);
                    assert(event_records(after.events@).len() == after.events@.len());
                },
                None => {},
            }
        }
    }

    /// Whether one more event fits in every task's numbering.
    pub fn room_for_event(&self) -> (b: bool)
        ensures
            b == self.has_room(),
    {
        let mut i: usize = 0;
        while i < self.tasks.len()
            invariant
                i <= self.tasks@.len(),
                forall|k: int| 0 <= k < i ==> (#[trigger] self.tasks@[k]).events@.len() + 2 < u64::MAX,
            decreases self.tasks.len() - i,
        {
            if self.tasks[i].events.len() as u128 + 2 >= u64::MAX as u128 {
                return false;
            }
            i = i + 1;
        }
        true
    }
}

} // verus!
