//! The coordinator's bookkeeping of its worker agents: which tasks are running, the
//! notification a finished worker sends, and the removal of notified tasks. Running the
//! workers and carrying their notifications is left to the caller.
use vstd::prelude::*;
use vstd::string::*;
use crate::text::{prefixed, same_text};

verus! {

/// A message from a worker agent to the coordinator.
#[derive(Debug)]
pub struct TaskNotification {
    pub task_id: String,
    pub status: String,
    pub summary: String,
    pub result: Option<String>,
}

/// A lowercase hexadecimal digit.
pub open spec fn is_hex_digit(c: char) -> bool {
    ('0' <= c && c <= '9') || ('a' <= c && c <= 'f')
}

/// A task id as a version-4 UUID is written: 36 characters, hyphens at positions 8, 13,
/// 18 and 23, lowercase hexadecimal digits elsewhere; the version digit `4` at position
/// 14, and one of the variant digits `8`, `9`, `a`, `b` at position 19.
pub open spec fn is_task_id(s: Seq<char>) -> bool {
    &&& s.len() == 36
    &&& forall|i: int| 0 <= i < 36 ==> (if i == 8 || i == 13 || i == 18 || i == 23 {
        s[i] == '-'
    } else {
        is_hex_digit(#[trigger] s[i])
    })
    &&& s[14] == '4'
    &&& (s[19] == '8' || s[19] == '9' || s[19] == 'a' || s[19] == 'b')
}

/// `uuid::Uuid::new_v4().to_string()`: a fresh random id. Claimed: only its shape, which
/// the crate's hyphenated lowercase formatting gives every UUID, with the version and
/// variant digits that `new_v4` fixes by masking the random bits.
#[verifier::external_body]
fn random_task_id() -> (s: String)
    ensures
        is_task_id(s@),
{
    uuid::Uuid::new_v4().to_string()
}

/// A fresh task id for a worker agent.
pub fn new_task_id() -> (s: String)
    ensures
        is_task_id(s@),
{
    random_task_id()
}

impl TaskNotification {
    /// The notification a worker sends when it has finished the task `task_id` that was
    /// given `prompt`.
    pub fn completed(task_id: String, prompt: &str) -> (n: TaskNotification)
        ensures
            n.task_id@ == task_id@,
            n.status@ == "completed"@,
            n.summary@ == "Worker completed successfully"@,
            n.result matches Some(r) && r@ == "Simulated findings for: "@ + prompt@,
    {
        TaskNotification {
            task_id,
            status: String::from_str("completed"),
            summary: String::from_str("Worker completed successfully"),
            result: Some(prefixed("Simulated findings for: ", prompt)),
        }
    }
}

/// The coordinator's active worker tasks, each id once.
pub struct Coordinator {
    workers: Vec<String>,
}

/// The ids of a list of notifications.
pub open spec fn notified_ids(ns: Seq<TaskNotification>) -> Seq<Seq<char>> {
    ns.map_values(|n: TaskNotification| n.task_id@)
}

impl Coordinator {
    /// The ids of the active tasks.
    pub closed spec fn active(&self) -> Seq<Seq<char>> {
        self.workers@.map_values(|s: String| s@)
    }

    /// Each active id occurs once.
    pub open spec fn wf(&self) -> bool {
        self.active().no_duplicates()
    }

    /// A coordinator with no active task.
    pub fn new() -> (r: Coordinator)
        ensures
            r.wf(),
            r.active() == Seq::<Seq<char>>::empty(),
    {
        let r = Coordinator { workers: Vec::new() };
        assert(r.active() =~= Seq::<Seq<char>>::empty());
        r
    }

    fn index_of_task(&self, id: &str) -> (r: Option<usize>)
        ensures
            match r {
                Some(i) => i < self.active().len() && self.active()[i as int] == id@,
                None => !self.active().contains(id@),
            },
    {
        let mut i: usize = 0;
        while i < self.workers.len()
            invariant
                i <= self.workers@.len(),
                forall|k: int| 0 <= k < i ==> self.active()[k] != id@,
            decreases self.workers@.len() - i,
        {
            if same_text(self.workers[i].as_str(), id) {
                return Some(i);
            }
            i = i + 1;
        }
        None
    }

    /// Records a new worker task and gives its id; the caller starts the worker with it.
    pub fn spawn_worker(&mut self) -> (id: String)
        requires
            old(self).wf(),
        ensures
            final(self).wf(),
            is_task_id(id@),
            old(self).active().contains(id@) ==> final(self).active() == old(self).active(),
            !old(self).active().contains(id@) ==> final(self).active() == old(self).active().push(id@),
    {
        let id = new_task_id();
        match self.index_of_task(id.as_str()) {
            Some(_) => {},
            None => {
                let ghost before = self.active();
                self.workers.push(id.clone());
                proof {
                    assert(self.active() =~= before.push(id@));
                    assert forall|a: int, b: int| 0 <= a < b < self.active().len() implies
                        self.active()[a] != self.active()[b] by {
                        if b == before.len() {
                            assert(before.contains(before[a]));
                        }
                    }
                }
            },
        }
        id
    }

    fn remove_task(&mut self, id: &str)
        requires
            old(self).wf(),
        ensures
            final(self).wf(),
            forall|x: Seq<char>| final(self).active().contains(x) <==> (old(self).active().contains(x) && x != id@),
    {
        match self.index_of_task(id) {
            Some(i) => {
                let ghost before = self.active();
                self.workers.remove(i);
                proof {
                    assert(self.active() =~= before.remove(i as int));
                    assert forall|x: Seq<char>| self.active().contains(x) <==> (before.contains(x) && x != id@) by {
                        if self.active().contains(x) {
                            let k = choose|k: int| 0 <= k < self.active().len() && self.active()[k] == x;
                            if k < i { assert(before[k] == x); } else { assert(before[k + 1] == x); }
                            if x == id@ {
                                if k < i { assert(before[k] == before[i as int]); } else { assert(before[k + 1] == before[i as int]); }
                            }
                        }
                        if before.contains(x) && x != id@ {
                            let k = choose|k: int| 0 <= k < before.len() && before[k] == x;
                            if k < i { assert(self.active()[k] == x); } else { assert(k != i); assert(self.active()[k - 1] == x); }
                        }
                    }
                }
            },
            None => {},
        }
    }

    /// Takes in the notifications received from workers: their tasks are no longer
    /// active; the notifications are handed back in the order received.
    pub fn process_notifications(&mut self, received: Vec<TaskNotification>) -> (r: Vec<TaskNotification>)
        requires
            old(self).wf(),
        ensures
            final(self).wf(),
            r@ == received@,
            forall|x: Seq<char>| final(self).active().contains(x)
                <==> (old(self).active().contains(x) && !notified_ids(received@).contains(x)),
    {
        let mut i: usize = 0;
        while i < received.len()
            invariant
                self.wf(),
                i <= received@.len(),
                forall|x: Seq<char>| self.active().contains(x)
                    <==> (old(self).active().contains(x) && !notified_ids(received@).subrange(0, i as int).contains(x)),
            decreases received@.len() - i,
        {
            self.remove_task(received[i].task_id.as_str());
            proof {
                let ids = notified_ids(received@);
                let s1 = ids.subrange(0, i + 1);
                let s0 = ids.subrange(0, i as int);
                assert(s1 =~= s0.push(ids[i as int]));
                assert forall|x: Seq<char>| s1.contains(x) <==> (s0.contains(x) || x == ids[i as int]) by {
                    if s1.contains(x) && x != ids[i as int] {
                        let k = choose|k: int| 0 <= k < s1.len() && s1[k] == x;
                        assert(s0[k] == x);
                    }
                    if s0.contains(x) {
                        let k = choose|k: int| 0 <= k < s0.len() && s0[k] == x;
                        assert(s1[k] == x);
                    }
                    if x == ids[i as int] {
                        assert(s1[i as int] == x);
                    }
                }
                assert(ids[i as int] == received@[i as int].task_id@);
            }
            i = i + 1;
        }
        assert(notified_ids(received@).subrange(0, received@.len() as int) =~= notified_ids(received@));
        received
    }

    /// Ends the bookkeeping of every worker: gives the ids of the tasks that were active,
    /// so that the caller can await them; none remains active.
    pub fn wait_all(&mut self) -> (ids: Vec<String>)
        requires
            old(self).wf(),
        ensures
            final(self).wf(),
            final(self).active() == Seq::<Seq<char>>::empty(),
            ids@.map_values(|s: String| s@) == old(self).active(),
    {
        let mut ids: Vec<String> = Vec::new();
        std::mem::swap(&mut ids, &mut self.workers);
        assert(self.active() =~= Seq::<Seq<char>>::empty());
        ids
    }
}

} // verus!
