//! Which conversations have a task running: at most one task per
//! conversation.
use vstd::prelude::*;
use vstd::string::*;
use crate::text::str_eq;

verus! {

/// The running task of each busy conversation, as (conversation id, task
/// id) pairs with distinct conversation ids.
pub struct ConversationStore {
    pub running_tasks: Vec<(String, String)>,
}

impl ConversationStore {
    /// The running tasks as a map from conversation id to task id.
    pub open spec fn running(&self) -> Map<Seq<char>, Seq<char>> {
        Map::new(
            |c: Seq<char>| exists|i: int| 0 <= i < self.running_tasks@.len() && (#[trigger] self.running_tasks@[i]).0@ == c,
            |c: Seq<char>| {
                let i = choose|i: int| 0 <= i < self.running_tasks@.len() && (#[trigger] self.running_tasks@[i]).0@ == c;
                self.running_tasks@[i].1@
            },
        )
    }

    pub open spec fn wf(&self) -> bool {
        forall|i: int, j: int|
            0 <= i < j < self.running_tasks@.len() ==> (#[trigger] self.running_tasks@[i]).0@
                != (#[trigger] self.running_tasks@[j]).0@
    }

    pub fn new() -> (s: Self)
        ensures
            s.wf(),
            s.running() == Map::<Seq<char>, Seq<char>>::empty(),
    {
        let s = ConversationStore { running_tasks: Vec::new() };
        assert(s.running() =~= Map::<Seq<char>, Seq<char>>::empty());
        s
    }

    fn find(&self, conversation_id: &str) -> (r: Option<usize>)
        requires
            self.wf(),
        ensures
            match r {
                Some(i) => i < self.running_tasks@.len() && self.running_tasks@[i as int].0@
                    == conversation_id@ && self.running().contains_key(conversation_id@)
                    && self.running()[conversation_id@] == self.running_tasks@[i as int].1@,
                None => !self.running().contains_key(conversation_id@),
            },
    {
        let mut i: usize = 0;
        while i < self.running_tasks.len()
            invariant
                i <= self.running_tasks@.len(),
                self.wf(),
                forall|k: int| 0 <= k < i ==> self.running_tasks@[k].0@ != conversation_id@,
            decreases self.running_tasks.len() - i,
        {
            if str_eq(self.running_tasks[i].0.as_str(), conversation_id) {
                proof {
                    assert(self.running_tasks@[i as int].0@ == conversation_id@);
                    let j = choose|j: int|
                        0 <= j < self.running_tasks@.len() && (#[trigger] self.running_tasks@[j]).0@
                            == conversation_id@;
                    if j != i {
                        if j < i {
                            assert(self.running_tasks@[j].0@ != self.running_tasks@[i as int].0@);
                        } else {
                            assert(self.running_tasks@[i as int].0@ != self.running_tasks@[j].0@);
                        }
                    }
                }
                return Some(i);
            }
            i = i + 1;
        }
        None
    }

    pub fn is_busy(&self, conversation_id: &str) -> (b: bool)
        requires
            self.wf(),
        ensures
            b == self.running().contains_key(conversation_id@),
    {
        match self.find(conversation_id) {
            Some(_) => true,
            None => false,
        }
    }

    /// Starts a task unless the conversation already runs one, whose id is
    /// then the error.
    pub fn try_start_task(&mut self, conversation_id: &str, task_id: &str) -> (r: Result<(), String>)
        requires
            old(self).wf(),
        ensures
            final(self).wf(),
            old(self).running().contains_key(conversation_id@) ==> (r matches Err(e) && e@
                == old(self).running()[conversation_id@]) && final(self).running()
                == old(self).running(),
            !old(self).running().contains_key(conversation_id@) ==> r is Ok && final(self).running()
                == old(self).running().insert(conversation_id@, task_id@),
    {
        match self.find(conversation_id) {
            Some(i) => Err(self.running_tasks[i].1.clone()),
            None => {
                let ghost before = *self;
                self.running_tasks.push((String::from_str(conversation_id), String::from_str(task_id)));
                proof {
                    let n = before.running_tasks@.len();
                    assert forall|a: int, b: int|
                        0 <= a < b < self.running_tasks@.len() implies (#[trigger] self.running_tasks@[a]).0@
                        != (#[trigger] self.running_tasks@[b]).0@ by {
                        if b == n {
                            assert(!before.running().contains_key(conversation_id@));
                            assert(self.running_tasks@[a] == before.running_tasks@[a]);
                            if self.running_tasks@[a].0@ == conversation_id@ {
                                assert(before.running().contains_key(conversation_id@));
                            }
                        } else {
                            assert(self.running_tasks@[a] == before.running_tasks@[a]);
                            assert(self.running_tasks@[b] == before.running_tasks@[b]);
                        }
                    }
                    assert forall|c: Seq<char>| #[trigger] self.running().contains_key(c) <==> before.running().insert(
                        conversation_id@,
                        task_id@,
                    ).contains_key(c) by {
                        if c != conversation_id@ && self.running().contains_key(c) {
                            let k = choose|k: int| 0 <= k < self.running_tasks@.len() && (#[trigger] self.running_tasks@[k]).0@ == c;
                            assert(k != n);
                            assert(self.running_tasks@[k] == before.running_tasks@[k]);
                        }
                        if before.running().contains_key(c) {
                            let k = choose|k: int| 0 <= k < before.running_tasks@.len() && (#[trigger] before.running_tasks@[k]).0@ == c;
                            assert(self.running_tasks@[k] == before.running_tasks@[k]);
                        }
                        if c == conversation_id@ {
                            assert(self.running_tasks@[n as int].0@ == c);
                        }
                    }
                    assert forall|c: Seq<char>| #[trigger] self.running().contains_key(c) implies self.running()[c]
                        == before.running().insert(conversation_id@, task_id@)[c] by {
                        let k = choose|k: int| 0 <= k < self.running_tasks@.len() && (#[trigger] self.running_tasks@[k]).0@ == c;
                        if c == conversation_id@ {
                            if k != n {
                                assert(self.running_tasks@[k] == before.running_tasks@[k]);
                            }
                            assert(k == n);
                        } else {
                            assert(k != n);
                            assert(self.running_tasks@[k] == before.running_tasks@[k]);
                            let k2 = choose|k2: int| 0 <= k2 < before.running_tasks@.len() && (#[trigger] before.running_tasks@[k2]).0@ == c;
                            assert(self.running_tasks@[k2] == before.running_tasks@[k2]);
                            if k != k2 {
                                if k < k2 {
                                    assert(self.running_tasks@[k].0@ != self.running_tasks@[k2].0@);
                                } else {
                                    assert(self.running_tasks@[k2].0@ != self.running_tasks@[k].0@);
                                }
                            }
                        }
                    }
                    assert(self.running() =~= before.running().insert(conversation_id@, task_id@));
                }
                Ok(())
            },
        }
    }

    /// Ends the conversation's task when it is this one.
    pub fn finish_task(&mut self, conversation_id: &str, task_id: &str)
        requires
            old(self).wf(),
        ensures
            final(self).wf(),
            (old(self).running().contains_key(conversation_id@) && old(self).running()[conversation_id@]
                == task_id@) ==> final(self).running() == old(self).running().remove(conversation_id@),
            !(old(self).running().contains_key(conversation_id@) && old(self).running()[conversation_id@]
                == task_id@) ==> final(self).running() == old(self).running(),
    {
        match self.find(conversation_id) {
            Some(i) => {
                if str_eq(self.running_tasks[i].1.as_str(), task_id) {
                    let ghost before = *self;
                    self.running_tasks.remove(i);
                    proof {
                        assert forall|a: int, b: int|
                            0 <= a < b < self.running_tasks@.len() implies (#[trigger] self.running_tasks@[a]).0@
                            != (#[trigger] self.running_tasks@[b]).0@ by {
                            let a0 = if a < i { a } else { a + 1 };
                            let b0 = if b < i { b } else { b + 1 };
                            assert(self.running_tasks@[a] == before.running_tasks@[a0]);
                            assert(self.running_tasks@[b] == before.running_tasks@[b0]);
                        }
                        assert forall|c: Seq<char>| #[trigger] self.running().contains_key(c) <==> before.running().remove(
                            conversation_id@,
                        ).contains_key(c) by {
                            if self.running().contains_key(c) {
                                let k = choose|k: int| 0 <= k < self.running_tasks@.len() && (#[trigger] self.running_tasks@[k]).0@ == c;
                                let k0 = if k < i { k } else { k + 1 };
                                assert(self.running_tasks@[k] == before.running_tasks@[k0]);
                                if c == conversation_id@ {
                                    assert(k0 != i);
                                    if k0 < i {
                                        assert(before.running_tasks@[k0].0@ != before.running_tasks@[i as int].0@);
                                    } else {
                                        assert(before.running_tasks@[i as int].0@ != before.running_tasks@[k0].0@);
                                    }
                                }
                            }
                            if before.running().contains_key(c) && c != conversation_id@ {
                                let k0 = choose|k0: int| 0 <= k0 < before.running_tasks@.len() && (#[trigger] before.running_tasks@[k0]).0@ == c;
                                assert(k0 != i);
                                let k = if k0 < i { k0 } else { k0 - 1 };
                                assert(self.running_tasks@[k] == before.running_tasks@[k0]);
                            }
                        }
                        assert forall|c: Seq<char>| #[trigger] self.running().contains_key(c) implies self.running()[c]
                            == before.running()[c] by {
                            let k = choose|k: int| 0 <= k < self.running_tasks@.len() && (#[trigger] self.running_tasks@[k]).0@ == c;
                            let k0 = if k < i { k } else { k + 1 };
                            assert(self.running_tasks@[k] == before.running_tasks@[k0]);
                            let k2 = choose|k2: int| 0 <= k2 < before.running_tasks@.len() && (#[trigger] before.running_tasks@[k2]).0@ == c;
                            if k0 != k2 {
                                if k0 < k2 {
                                    assert(before.running_tasks@[k0].0@ != before.running_tasks@[k2].0@);
                                } else {
                                    assert(before.running_tasks@[k2].0@ != before.running_tasks@[k0].0@);
                                }
                            }
                        }
                        assert(self.running() =~= before.running().remove(conversation_id@));
                    }
                }
            },
            None => {},
        }
    }
}

/// A task that starts on a free conversation and then finishes leaves the
/// running tasks as they were.
pub proof fn lemma_start_then_finish_restores(
    running: Map<Seq<char>, Seq<char>>,
    conversation_id: Seq<char>,
    task_id: Seq<char>,
)
    requires
        !running.contains_key(conversation_id),
    ensures
        running.insert(conversation_id, task_id).contains_key(conversation_id),
        running.insert(conversation_id, task_id)[conversation_id] == task_id,
        running.insert(conversation_id, task_id).remove(conversation_id) == running,
{
    assert(running.insert(conversation_id, task_id).remove(conversation_id) =~= running);
}

} // verus!
