//! Task admission controller: tracks every submitted job through a small
//! state machine and bounds the number of simultaneously running jobs.
//!
//! The controller is a sequential state machine; the caller owns the waiting.
//! `acquire` admits a job exactly when a slot is free, and callers that were
//! refused retry once a holder releases its slot through `complete`, `fail`
//! or `cancel`.
use vstd::prelude::*;

use crate::util::str_eq;

verus! {

/// Lifecycle state of a tracked task.
#[derive(Clone, Copy, Debug, PartialEq, Eq, Structural)]
pub enum TaskState {
    Queued,
    Running,
    Done,
    Failed,
    Cancelled,
}

impl TaskState {
    /// Whether this state is terminal: a task never leaves it.
    pub open spec fn spec_is_terminal(self) -> bool {
        self == TaskState::Done || self == TaskState::Failed || self == TaskState::Cancelled
    }

    /// Executable test for a terminal state.
    pub fn is_terminal(&self) -> (r: bool)
        ensures
            r == self.spec_is_terminal(),
    {
        match self {
            TaskState::Done | TaskState::Failed | TaskState::Cancelled => true,
            TaskState::Queued | TaskState::Running => false,
        }
    }
}

/// Metadata of one tracked task. Timestamps are seconds supplied by the
/// caller, so the controller itself never reads a clock.
#[derive(Debug)]
pub struct TrackedTask {
    pub task_id: String,
    pub chat_id: i64,
    pub task_type: String,
    pub status: TaskState,
    pub progress: u8,
    pub speed: Option<String>,
    pub enqueued_at: i64,
    pub started_at: Option<i64>,
}

/// Point-in-time counts over the controller.
#[derive(Debug, Clone, Copy)]
pub struct QueueStats {
    pub max_concurrent: usize,
    pub running: usize,
    pub queued: usize,
    pub completed: usize,
    pub failed: usize,
    pub total_tracked: usize,
}

/// `t_new` is `t_old` marked running at time `now`; all other fields kept.
pub open spec fn marked_running(t_old: TrackedTask, t_new: TrackedTask, now: i64) -> bool {
    &&& t_new.task_id@ == t_old.task_id@
    &&& t_new.chat_id == t_old.chat_id
    &&& t_new.task_type@ == t_old.task_type@
    &&& t_new.status == TaskState::Running
    &&& t_new.progress == t_old.progress
    &&& t_new.speed == t_old.speed
    &&& t_new.enqueued_at == t_old.enqueued_at
    &&& t_new.started_at == Some(now)
}

/// `t_new` is `t_old` with status and progress replaced; the rest kept.
pub open spec fn restated(t_old: TrackedTask, t_new: TrackedTask, st: TaskState, progress: u8) -> bool {
    &&& t_new.task_id@ == t_old.task_id@
    &&& t_new.chat_id == t_old.chat_id
    &&& t_new.task_type@ == t_old.task_type@
    &&& t_new.status == st
    &&& t_new.progress == progress
    &&& t_new.speed == t_old.speed
    &&& t_new.enqueued_at == t_old.enqueued_at
    &&& t_new.started_at == t_old.started_at
}

/// Number of tasks among the first `n` of `s` whose status is `st`.
pub open spec fn count_state(s: Seq<TrackedTask>, n: int, st: TaskState) -> nat
    decreases n,
{
    if n <= 0 {
        0
    } else {
        count_state(s, n - 1, st) + if s[n - 1].status == st {
            1nat
        } else {
            0nat
        }
    }
}

/// The tasks among the first `n` of `s` that belong to `chat`.
pub open spec fn tasks_for_chat(s: Seq<TrackedTask>, n: int, chat: i64) -> Seq<TrackedTask>
    decreases n,
{
    if n <= 0 {
        Seq::empty()
    } else {
        let pre = tasks_for_chat(s, n - 1, chat);
        if s[n - 1].chat_id == chat {
            pre.push(s[n - 1])
        } else {
            pre
        }
    }
}

/// Whether a retention sweep with the given cutoff keeps task `t`:
/// queued and running tasks are always kept, terminal ones only while young.
pub open spec fn sweep_keeps(t: TrackedTask, cutoff: int) -> bool {
    t.status == TaskState::Queued || t.status == TaskState::Running || t.enqueued_at > cutoff
}

/// The tasks among the first `n` of `s` that a sweep with `cutoff` keeps.
pub open spec fn swept(s: Seq<TrackedTask>, n: int, cutoff: int) -> Seq<TrackedTask>
    decreases n,
{
    if n <= 0 {
        Seq::empty()
    } else {
        let pre = swept(s, n - 1, cutoff);
        if sweep_keeps(s[n - 1], cutoff) {
            pre.push(s[n - 1])
        } else {
            pre
        }
    }
}

/// Bounded-concurrency admission controller over a table of tracked tasks
/// and the set of task ids currently holding an execution slot.
pub struct TaskQueue {
    tasks: Vec<TrackedTask>,
    running_ids: Vec<String>,
    max_concurrent: usize,
}

impl TaskQueue {
    /// The table of tracked tasks, in insertion order.
    pub closed spec fn tasks_seq(&self) -> Seq<TrackedTask> {
        self.tasks@
    }

    /// The ids currently holding a slot, in acquisition order.
    pub closed spec fn slots(&self) -> Seq<String> {
        self.running_ids@
    }

    /// How many tasks currently hold a slot.
    pub closed spec fn slot_count(&self) -> nat {
        self.running_ids@.len()
    }

    /// The fixed slot-pool size.
    pub closed spec fn capacity(&self) -> nat {
        self.max_concurrent as nat
    }

    /// Whether a task with id `id` is tracked.
    pub closed spec fn tracks(&self, id: Seq<char>) -> bool {
        exists|i: int| 0 <= i < self.tasks@.len() && self.tasks@[i].task_id@ == id
    }

    /// Whether the task with id `id` currently holds a slot.
    pub closed spec fn holds_slot(&self, id: Seq<char>) -> bool {
        exists|i: int| 0 <= i < self.running_ids@.len() && self.running_ids@[i]@ == id
    }

    /// Well-formedness: ids are unique, the slot pool is never
    /// over-subscribed, and every task in the running state holds a slot.
    pub closed spec fn wf(&self) -> bool {
        &&& self.running_ids@.len() <= self.max_concurrent
        &&& forall|i: int, j: int|
            0 <= i < j < self.tasks@.len() ==> self.tasks@[i].task_id@ != self.tasks@[j].task_id@
        &&& forall|i: int, j: int|
            0 <= i < j < self.running_ids@.len() ==> self.running_ids@[i]@ != self.running_ids@[j]@
        &&& forall|i: int| #![trigger self.tasks@[i]]
            0 <= i < self.tasks@.len() && self.tasks@[i].status == TaskState::Running
                ==> self.holds_slot(self.tasks@[i].task_id@)
    }

    /// Create a controller with `max_concurrent` slots and no tasks.
    pub fn new(max_concurrent: usize) -> (q: TaskQueue)
        ensures
            q.wf(),
            q.tasks_seq().len() == 0,
            q.slot_count() == 0,
            q.capacity() == max_concurrent,
            forall|x: Seq<char>| !q.tracks(x),
            forall|x: Seq<char>| !q.holds_slot(x),
    {
        TaskQueue { tasks: Vec::new(), running_ids: Vec::new(), max_concurrent }
    }

    /// Index of the tracked task with id `id`, if any.
    fn find_task_index(&self, id: &str) -> (r: Option<usize>)
        ensures
            match r {
                Some(i) => i < self.tasks_seq().len() && self.tasks_seq()[i as int].task_id@ == id@,
                None => !self.tracks(id@),
            },
    {
        let n = self.tasks.len();
        let mut i: usize = 0;
        while i < n
            invariant
                n == self.tasks@.len(),
                0 <= i <= n,
                forall|j: int| 0 <= j < i ==> self.tasks@[j].task_id@ != id@,
            decreases n - i,
        {
            if str_eq(self.tasks[i].task_id.as_str(), id) {
                return Some(i);
            }
            i = i + 1;
        }
        None
    }

    /// Index of `id` in the slot-holder list, if present.
    fn find_slot_index(&self, id: &str) -> (r: Option<usize>)
        ensures
            match r {
                Some(i) => i < self.slots().len() && self.slots()[i as int]@ == id@,
                None => !self.holds_slot(id@),
            },
    {
        let n = self.running_ids.len();
        let mut i: usize = 0;
        while i < n
            invariant
                n == self.running_ids@.len(),
                0 <= i <= n,
                forall|j: int| 0 <= j < i ==> self.running_ids@[j]@ != id@,
            decreases n - i,
        {
            if str_eq(self.running_ids[i].as_str(), id) {
                return Some(i);
            }
            i = i + 1;
        }
        None
    }

    /// Register a new job as queued. Returns `false` and changes nothing if
    /// the id is already tracked, guarding against duplicate submission.
    pub fn enqueue(&mut self, task_id: &str, chat_id: i64, task_type: &str, now: i64) -> (r: bool)
        requires
            old(self).wf(),
        ensures
            final(self).wf(),
            r == !old(self).tracks(task_id@),
            !r ==> *final(self) == *old(self),
            final(self).capacity() == old(self).capacity(),
            final(self).slots() == old(self).slots(),
            final(self).slot_count() == old(self).slot_count(),
            forall|x: Seq<char>| final(self).holds_slot(x) == old(self).holds_slot(x),
            forall|x: Seq<char>|
                final(self).tracks(x) == (old(self).tracks(x) || (r && x == task_id@)),
            final(self).tracks(task_id@),
            r ==> {
                &&& final(self).tasks_seq().len() == old(self).tasks_seq().len() + 1
                &&& final(self).tasks_seq().subrange(0, old(self).tasks_seq().len() as int) == old(self).tasks_seq()
                &&& final(self).tasks_seq().last().task_id@ == task_id@
                &&& final(self).tasks_seq().last().chat_id == chat_id
                &&& final(self).tasks_seq().last().task_type@ == task_type@
                &&& final(self).tasks_seq().last().status == TaskState::Queued
                &&& final(self).tasks_seq().last().progress == 0
                &&& final(self).tasks_seq().last().speed is None
                &&& final(self).tasks_seq().last().enqueued_at == now
                &&& final(self).tasks_seq().last().started_at is None
            },
    {
        match self.find_task_index(task_id) {
            Some(_) => false,
            None => {
                let task = TrackedTask {
                    task_id: task_id.to_owned(),
                    chat_id,
                    task_type: task_type.to_owned(),
                    status: TaskState::Queued,
                    progress: 0,
                    speed: None,
                    enqueued_at: now,
                    started_at: None,
                };
                self.tasks.push(task);
                proof {
                    assert(self.tasks@.subrange(0, old(self).tasks@.len() as int) =~= old(
                        self,
                    ).tasks@);
                    assert(self.tasks@[self.tasks@.len() - 1].task_id@ == task_id@);
                    assert forall|x: Seq<char>| self.holds_slot(x) == old(self).holds_slot(
                        x,
                    ) by {
                        if self.holds_slot(x) {
                            let k = choose|k: int|
                                0 <= k < self.running_ids@.len() && self.running_ids@[k]@ == x;
                            assert(old(self).running_ids@[k]@ == x);
                        }
                        if old(self).holds_slot(x) {
                            let k = choose|k: int|
                                0 <= k < old(self).running_ids@.len() && old(
                                    self,
                                ).running_ids@[k]@ == x;
                            assert(self.running_ids@[k]@ == x);
                        }
                    }
                    assert forall|x: Seq<char>| self.tracks(x) == (old(self).tracks(x) || x
                        == task_id@) by {
                        if self.tracks(x) {
                            let k = choose|k: int|
                                0 <= k < self.tasks@.len() && self.tasks@[k].task_id@ == x;
                            if k < old(self).tasks@.len() {
                                assert(old(self).tasks@[k].task_id@ == x);
                            }
                        }
                        if old(self).tracks(x) {
                            let k = choose|k: int|
                                0 <= k < old(self).tasks@.len() && old(self).tasks@[k].task_id@
                                    == x;
                            assert(self.tasks@[k].task_id@ == x);
                        }
                    }
                    assert forall|i: int|
                        0 <= i < self.tasks@.len() && self.tasks@[i].status == TaskState::Running
                            implies self.holds_slot(self.tasks@[i].task_id@) by {
                        assert(i < old(self).tasks@.len());
                        assert(self.tasks@[i] == old(self).tasks@[i]);
                        assert(old(self).holds_slot(old(self).tasks@[i].task_id@));
                        let k = choose|k: int|
                            0 <= k < old(self).running_ids@.len() && old(self).running_ids@[k]@
                                == old(self).tasks@[i].task_id@;
                        assert(self.running_ids@[k]@ == self.tasks@[i].task_id@);
                    }
                }
                true
            }
        }
    }

    /// Admit the job into a free slot, marking it running and stamping its
    /// start time; a task already in a terminal state keeps it, since no
    /// task leaves one. Returns `false` and changes nothing when every
    /// slot is taken; the caller retries after a holder releases.
    pub fn acquire(&mut self, task_id: &str, now: i64) -> (r: bool)
        requires
            old(self).wf(),
        ensures
            final(self).wf(),
            r == (old(self).slot_count() < old(self).capacity()),
            !r ==> *final(self) == *old(self),
            final(self).capacity() == old(self).capacity(),
            r ==> {
                &&& final(self).holds_slot(task_id@)
                &&& forall|x: Seq<char>|
                    x != task_id@ ==> final(self).holds_slot(x) == old(self).holds_slot(x)
                &&& final(self).slot_count() == old(self).slot_count() + (if old(self).holds_slot(
                    task_id@,
                ) {
                    0int
                } else {
                    1int
                })
                &&& final(self).tasks_seq().len() == old(self).tasks_seq().len()
                &&& forall|x: Seq<char>| final(self).tracks(x) == old(self).tracks(x)
                &&& forall|i: int|
                    0 <= i < final(self).tasks_seq().len() && old(self).tasks_seq()[i].task_id@ != task_id@
                        ==> final(self).tasks_seq()[i] == old(self).tasks_seq()[i]
                &&& forall|i: int|
                    0 <= i < final(self).tasks_seq().len() && old(self).tasks_seq()[i].task_id@ == task_id@
                        ==> (if old(self).tasks_seq()[i].status.spec_is_terminal() {
                        final(self).tasks_seq()[i] == old(self).tasks_seq()[i]
                    } else {
                        marked_running(old(self).tasks_seq()[i], final(self).tasks_seq()[i], now)
                    })
            },
    {
        if self.running_ids.len() >= self.max_concurrent {
            return false;
        }
        match self.find_slot_index(task_id) {
            Some(_) => {
                proof {
                    assert(self.holds_slot(task_id@));
                }
            }
            None => {
                self.running_ids.push(task_id.to_owned());
                proof {
                    let n = old(self).running_ids@.len() as int;
                    assert(self.running_ids@[n]@ == task_id@);
                    assert forall|x: Seq<char>| x != task_id@ implies self.holds_slot(x) == old(
                        self,
                    ).holds_slot(x) by {
                        if self.holds_slot(x) {
                            let k = choose|k: int|
                                0 <= k < self.running_ids@.len() && self.running_ids@[k]@ == x;
                            assert(k < n + 1);
                            assert(k != n);
                            assert(old(self).running_ids@[k]@ == x);
                        }
                        if old(self).holds_slot(x) {
                            let k = choose|k: int|
                                0 <= k < old(self).running_ids@.len() && old(
                                    self,
                                ).running_ids@[k]@ == x;
                            assert(self.running_ids@[k]@ == x);
                        }
                    }
                    assert(self.holds_slot(task_id@));
                }
            }
        }
        let ghost mid = *self;
        match self.find_task_index(task_id) {
            Some(i) => {
                if !self.tasks[i].status.is_terminal() {
                    let t = &self.tasks[i];
                    let updated = TrackedTask {
                        task_id: t.task_id.clone(),
                        chat_id: t.chat_id,
                        task_type: t.task_type.clone(),
                        status: TaskState::Running,
                        progress: t.progress,
                        speed: clone_opt_string(&t.speed),
                        enqueued_at: t.enqueued_at,
                        started_at: Some(now),
                    };
                    self.tasks.set(i, updated);
                    proof {
                        assert(marked_running(
                            old(self).tasks@[i as int],
                            self.tasks@[i as int],
                            now,
                        ));
                        assert forall|j: int|
                            0 <= j < self.tasks@.len() && old(self).tasks@[j].task_id@ != task_id@
                                implies self.tasks@[j] == old(self).tasks@[j] by {
                            assert(j != i);
                        }
                        assert forall|j: int|
                            0 <= j < self.tasks@.len() && old(self).tasks@[j].task_id@ == task_id@
                                implies j == i by {
                            if j != i {
                                assert(old(self).tasks@[j].task_id@ != old(
                                    self,
                                ).tasks@[i as int].task_id@);
                            }
                        }
                    }
                } else {
                    proof {
                        assert forall|j: int|
                            0 <= j < self.tasks@.len() && old(self).tasks@[j].task_id@ == task_id@
                                implies j == i by {
                            if j != i {
                                assert(old(self).tasks@[j].task_id@ != old(
                                    self,
                                ).tasks@[i as int].task_id@);
                            }
                        }
                    }
                }
            }
            None => {
                proof {
                    assert forall|j: int|
                        0 <= j < self.tasks@.len() && old(self).tasks@[j].task_id@ == task_id@
                            implies false by {
                        assert(mid.tracks(task_id@));
                    }
                }
            }
        }
        proof {
            assert forall|x: Seq<char>| self.tracks(x) == old(self).tracks(x) by {
                if self.tracks(x) {
                    let k = choose|k: int|
                        0 <= k < self.tasks@.len() && self.tasks@[k].task_id@ == x;
                    assert(old(self).tasks@[k].task_id@ == x);
                }
                if old(self).tracks(x) {
                    let k = choose|k: int|
                        0 <= k < old(self).tasks@.len() && old(self).tasks@[k].task_id@ == x;
                    assert(self.tasks@[k].task_id@ == x);
                }
            }
        }
        proof {
            assert(self.running_ids@ == mid.running_ids@);
            assert(mid.holds_slot(task_id@));
            assert(self.holds_slot(task_id@));
            assert forall|i2: int|
                0 <= i2 < self.tasks@.len() && self.tasks@[i2].status == TaskState::Running
                    implies self.holds_slot(self.tasks@[i2].task_id@) by {
                if old(self).tasks@[i2].task_id@ == task_id@ {
                    assert(self.tasks@[i2].task_id@ == task_id@);
                } else {
                    assert(self.tasks@[i2] == old(self).tasks@[i2]);
                    assert(old(self).tasks@[i2].status == TaskState::Running);
                    assert(old(self).holds_slot(old(self).tasks@[i2].task_id@));
                    assert(mid.holds_slot(old(self).tasks@[i2].task_id@) == old(self).holds_slot(
                        old(self).tasks@[i2].task_id@,
                    ));
                    assert(self.holds_slot(old(self).tasks@[i2].task_id@));
                }
            }
        }
        true
    }

    /// Record a progress report for a running task; unknown ids are ignored.
    pub fn update_progress(&mut self, task_id: &str, percent: u8, speed: Option<String>)
        requires
            old(self).wf(),
        ensures
            final(self).wf(),
            final(self).capacity() == old(self).capacity(),
            final(self).slots() == old(self).slots(),
            final(self).slot_count() == old(self).slot_count(),
            forall|x: Seq<char>| final(self).tracks(x) == old(self).tracks(x),
            forall|x: Seq<char>| final(self).holds_slot(x) == old(self).holds_slot(x),
            final(self).tasks_seq().len() == old(self).tasks_seq().len(),
            forall|i: int|
                0 <= i < final(self).tasks_seq().len() && old(self).tasks_seq()[i].task_id@ != task_id@
                    ==> final(self).tasks_seq()[i] == old(self).tasks_seq()[i],
            forall|i: int|
                0 <= i < final(self).tasks_seq().len() && old(self).tasks_seq()[i].task_id@ == task_id@ ==> {
                    &&& final(self).tasks_seq()[i].task_id@ == old(self).tasks_seq()[i].task_id@
                    &&& final(self).tasks_seq()[i].chat_id == old(self).tasks_seq()[i].chat_id
                    &&& final(self).tasks_seq()[i].task_type@ == old(self).tasks_seq()[i].task_type@
                    &&& final(self).tasks_seq()[i].status == old(self).tasks_seq()[i].status
                    &&& final(self).tasks_seq()[i].progress == percent
                    &&& final(self).tasks_seq()[i].speed == speed
                    &&& final(self).tasks_seq()[i].enqueued_at == old(self).tasks_seq()[i].enqueued_at
                    &&& final(self).tasks_seq()[i].started_at == old(self).tasks_seq()[i].started_at
                },
            !old(self).tracks(task_id@) ==> *final(self) == *old(self),
    {
        match self.find_task_index(task_id) {
            Some(i) => {
                let t = &self.tasks[i];
                let updated = TrackedTask {
                    task_id: t.task_id.clone(),
                    chat_id: t.chat_id,
                    task_type: t.task_type.clone(),
                    status: t.status,
                    progress: percent,
                    speed,
                    enqueued_at: t.enqueued_at,
                    started_at: t.started_at,
                };
                self.tasks.set(i, updated);
                proof {
                    assert forall|j: int|
                        0 <= j < self.tasks@.len() && old(self).tasks@[j].task_id@ != task_id@
                            implies self.tasks@[j] == old(self).tasks@[j] by {
                        assert(j != i);
                    }
                    assert forall|j: int|
                        0 <= j < self.tasks@.len() && old(self).tasks@[j].task_id@ == task_id@
                            implies j == i by {
                        if j != i {
                            assert(old(self).tasks@[j].task_id@ != old(
                                self,
                            ).tasks@[i as int].task_id@);
                        }
                    }
                    assert forall|i2: int|
                        0 <= i2 < self.tasks@.len() && self.tasks@[i2].status
                            == TaskState::Running implies self.holds_slot(
                        self.tasks@[i2].task_id@,
                    ) by {
                        if i2 == i {
                            assert(self.tasks@[i2].task_id@ == old(self).tasks@[i2].task_id@);
                            assert(self.tasks@[i2].status == old(self).tasks@[i2].status);
                        } else {
                            assert(old(self).tasks@[i2].task_id@ != old(
                                self,
                            ).tasks@[i as int].task_id@);
                            assert(self.tasks@[i2] == old(self).tasks@[i2]);
                        }
                        assert(old(self).tasks@[i2].status == TaskState::Running);
                        assert(old(self).holds_slot(old(self).tasks@[i2].task_id@));
                        let k = choose|k: int|
                            0 <= k < old(self).running_ids@.len() && old(self).running_ids@[k]@
                                == old(self).tasks@[i2].task_id@;
                        assert(self.running_ids@[k]@ == self.tasks@[i2].task_id@);
                    }
                    assert forall|x: Seq<char>| self.tracks(x) == old(self).tracks(x) by {
                        if self.tracks(x) {
                            let k = choose|k: int|
                                0 <= k < self.tasks@.len() && self.tasks@[k].task_id@ == x;
                            assert(old(self).tasks@[k].task_id@ == x);
                        }
                        if old(self).tracks(x) {
                            let k = choose|k: int|
                                0 <= k < old(self).tasks@.len() && old(self).tasks@[k].task_id@
                                    == x;
                            assert(self.tasks@[k].task_id@ == x);
                        }
                    }
                    assert forall|x: Seq<char>| self.holds_slot(x) == old(self).holds_slot(
                        x,
                    ) by {
                        if self.holds_slot(x) {
                            let k = choose|k: int|
                                0 <= k < self.running_ids@.len() && self.running_ids@[k]@ == x;
                            assert(old(self).running_ids@[k]@ == x);
                        }
                        if old(self).holds_slot(x) {
                            let k = choose|k: int|
                                0 <= k < old(self).running_ids@.len() && old(
                                    self,
                                ).running_ids@[k]@ == x;
                            assert(self.running_ids@[k]@ == x);
                        }
                    }
                }
            }
            None => {}
        }
    }

    /// Remove `task_id` from the slot holders if it holds one. Safe to call
    /// whether or not a slot was ever acquired, and safe to call twice.
    /// While the invariant that running tasks hold slots is in force, no
    /// task named `task_id` may still be in the running state.
    fn release_slot(&mut self, task_id: &str)
        requires
            old(self).wf(),
            forall|i: int|
                0 <= i < old(self).tasks_seq().len() && old(self).tasks_seq()[i].task_id@
                    == task_id@ ==> old(self).tasks_seq()[i].status != TaskState::Running,
        ensures
            final(self).wf(),
            final(self).capacity() == old(self).capacity(),
            final(self).tasks_seq() == old(self).tasks_seq(),
            forall|x: Seq<char>| final(self).tracks(x) == old(self).tracks(x),
            !final(self).holds_slot(task_id@),
            forall|x: Seq<char>| x != task_id@ ==> final(self).holds_slot(x) == old(self).holds_slot(x),
            final(self).slot_count() == old(self).slot_count() - (if old(self).holds_slot(task_id@) {
                1int
            } else {
                0int
            }),
    {
        match self.find_slot_index(task_id) {
            Some(j) => {
                self.running_ids.remove(j);
                proof {
                    let olds = old(self).running_ids@;
                    let news = self.running_ids@;
                    let ji = j as int;
                    assert(news =~= olds.subrange(0, ji) + olds.subrange(
                        ji + 1,
                        olds.len() as int,
                    ));
                    assert forall|k: int| 0 <= k < news.len() implies news[k]@ != task_id@ by {
                        if k < ji {
                            assert(news[k] == olds[k]);
                            assert(olds[k]@ != olds[ji]@);
                        } else {
                            assert(news[k] == olds[k + 1]);
                            assert(olds[ji]@ != olds[k + 1]@);
                        }
                    }
                    assert forall|x: Seq<char>| x != task_id@ implies self.holds_slot(x) == old(
                        self,
                    ).holds_slot(x) by {
                        if self.holds_slot(x) {
                            let k = choose|k: int| 0 <= k < news.len() && news[k]@ == x;
                            if k < ji {
                                assert(olds[k]@ == x);
                            } else {
                                assert(olds[k + 1]@ == x);
                            }
                        }
                        if old(self).holds_slot(x) {
                            let k = choose|k: int| 0 <= k < olds.len() && olds[k]@ == x;
                            assert(k != ji);
                            if k < ji {
                                assert(news[k]@ == x);
                            } else {
                                assert(news[k - 1]@ == x);
                            }
                        }
                    }
                    assert forall|a: int, b: int| 0 <= a < b < news.len() implies news[a]@
                        != news[b]@ by {
                        let a2 = if a < ji {
                            a
                        } else {
                            a + 1
                        };
                        let b2 = if b < ji {
                            b
                        } else {
                            b + 1
                        };
                        assert(news[a] == olds[a2]);
                        assert(news[b] == olds[b2]);
                        assert(olds[a2]@ != olds[b2]@);
                    }
                    assert forall|i2: int|
                        0 <= i2 < self.tasks@.len() && self.tasks@[i2].status
                            == TaskState::Running implies self.holds_slot(
                        self.tasks@[i2].task_id@,
                    ) by {
                        assert(self.tasks@[i2] == old(self).tasks@[i2]);
                        assert(old(self).tasks_seq()[i2] == old(self).tasks@[i2]);
                        assert(old(self).tasks@[i2].task_id@ != task_id@);
                        assert(old(self).holds_slot(old(self).tasks@[i2].task_id@));
                    }
                    assert forall|x: Seq<char>| self.tracks(x) == old(self).tracks(x) by {
                        if self.tracks(x) {
                            let k = choose|k: int|
                                0 <= k < self.tasks@.len() && self.tasks@[k].task_id@ == x;
                            assert(old(self).tasks@[k].task_id@ == x);
                        }
                        if old(self).tracks(x) {
                            let k = choose|k: int|
                                0 <= k < old(self).tasks@.len() && old(self).tasks@[k].task_id@
                                    == x;
                            assert(self.tasks@[k].task_id@ == x);
                        }
                    }
                }
            }
            None => {}
        }
    }

    /// Mark the task with id `task_id` as having status `st`, and progress
    /// `progress` when given; unknown ids are ignored. The status written
    /// is never the running state: entering it goes through `acquire`.
    fn set_status(&mut self, task_id: &str, st: TaskState, progress: Option<u8>)
        requires
            old(self).wf(),
            st != TaskState::Running,
        ensures
            final(self).wf(),
            final(self).capacity() == old(self).capacity(),
            final(self).slots() == old(self).slots(),
            forall|x: Seq<char>| final(self).tracks(x) == old(self).tracks(x),
            forall|x: Seq<char>| final(self).holds_slot(x) == old(self).holds_slot(x),
            final(self).tasks_seq().len() == old(self).tasks_seq().len(),
            forall|i: int|
                0 <= i < final(self).tasks_seq().len() && old(self).tasks_seq()[i].task_id@ != task_id@
                    ==> final(self).tasks_seq()[i] == old(self).tasks_seq()[i],
            forall|i: int|
                0 <= i < final(self).tasks_seq().len() && old(self).tasks_seq()[i].task_id@ == task_id@
                    ==> (if old(self).tasks_seq()[i].status.spec_is_terminal() {
                    final(self).tasks_seq()[i] == old(self).tasks_seq()[i]
                } else {
                    restated(
                        old(self).tasks_seq()[i],
                        final(self).tasks_seq()[i],
                        st,
                        (if progress is Some {
                            progress->0
                        } else {
                            old(self).tasks_seq()[i].progress
                        }),
                    )
                }),
            !old(self).tracks(task_id@) ==> final(self).tasks_seq() == old(self).tasks_seq(),
    {
        match self.find_task_index(task_id) {
            Some(i) => {
                if self.tasks[i].status.is_terminal() {
                    proof {
                        assert forall|j: int|
                            0 <= j < self.tasks@.len() && old(self).tasks@[j].task_id@ == task_id@
                                implies j == i by {
                            if j != i {
                                assert(old(self).tasks@[j].task_id@ != old(
                                    self,
                                ).tasks@[i as int].task_id@);
                            }
                        }
                    }
                    return ;
                }
                let t = &self.tasks[i];
                let new_progress = match progress {
                    Some(p) => p,
                    None => t.progress,
                };
                let updated = TrackedTask {
                    task_id: t.task_id.clone(),
                    chat_id: t.chat_id,
                    task_type: t.task_type.clone(),
                    status: st,
                    progress: new_progress,
                    speed: clone_opt_string(&t.speed),
                    enqueued_at: t.enqueued_at,
                    started_at: t.started_at,
                };
                self.tasks.set(i, updated);
                proof {
                    assert forall|j: int|
                        0 <= j < self.tasks@.len() && old(self).tasks@[j].task_id@ != task_id@
                            implies self.tasks@[j] == old(self).tasks@[j] by {
                        assert(j != i);
                    }
                    assert forall|j: int|
                        0 <= j < self.tasks@.len() && old(self).tasks@[j].task_id@ == task_id@
                            implies j == i by {
                        if j != i {
                            assert(old(self).tasks@[j].task_id@ != old(
                                self,
                            ).tasks@[i as int].task_id@);
                        }
                    }
                    assert forall|i2: int|
                        0 <= i2 < self.tasks@.len() && self.tasks@[i2].status
                            == TaskState::Running implies self.holds_slot(
                        self.tasks@[i2].task_id@,
                    ) by {
                        assert(i2 != i);
                        assert(self.tasks@[i2] == old(self).tasks@[i2]);
                        assert(old(self).holds_slot(old(self).tasks@[i2].task_id@));
                        let k = choose|k: int|
                            0 <= k < old(self).running_ids@.len() && old(self).running_ids@[k]@
                                == old(self).tasks@[i2].task_id@;
                        assert(self.running_ids@[k]@ == self.tasks@[i2].task_id@);
                    }
                    assert forall|x: Seq<char>| self.tracks(x) == old(self).tracks(x) by {
                        if self.tracks(x) {
                            let k = choose|k: int|
                                0 <= k < self.tasks@.len() && self.tasks@[k].task_id@ == x;
                            assert(old(self).tasks@[k].task_id@ == x);
                        }
                        if old(self).tracks(x) {
                            let k = choose|k: int|
                                0 <= k < old(self).tasks@.len() && old(self).tasks@[k].task_id@
                                    == x;
                            assert(self.tasks@[k].task_id@ == x);
                        }
                    }
                    assert forall|x: Seq<char>| self.holds_slot(x) == old(self).holds_slot(
                        x,
                    ) by {
                        if self.holds_slot(x) {
                            let k = choose|k: int|
                                0 <= k < self.running_ids@.len() && self.running_ids@[k]@ == x;
                            assert(old(self).running_ids@[k]@ == x);
                        }
                        if old(self).holds_slot(x) {
                            let k = choose|k: int|
                                0 <= k < old(self).running_ids@.len() && old(
                                    self,
                                ).running_ids@[k]@ == x;
                            assert(self.running_ids@[k]@ == x);
                        }
                    }
                }
            }
            None => {}
        }
    }

    /// Mark the task done with full progress and release its slot if held.
    /// Idempotent with respect to the slot: a second call releases nothing.
    /// A task already in a terminal state keeps it: transitions are
    /// monotonic, so the slot release alone happens.
    pub fn complete(&mut self, task_id: &str)
        requires
            old(self).wf(),
        ensures
            final(self).wf(),
            final(self).capacity() == old(self).capacity(),
            !final(self).holds_slot(task_id@),
            forall|x: Seq<char>| x != task_id@ ==> final(self).holds_slot(x) == old(self).holds_slot(x),
            final(self).slot_count() == old(self).slot_count() - (if old(self).holds_slot(task_id@) {
                1int
            } else {
                0int
            }),
            forall|x: Seq<char>| final(self).tracks(x) == old(self).tracks(x),
            final(self).tasks_seq().len() == old(self).tasks_seq().len(),
            forall|i: int|
                0 <= i < final(self).tasks_seq().len() && old(self).tasks_seq()[i].task_id@ != task_id@
                    ==> final(self).tasks_seq()[i] == old(self).tasks_seq()[i],
            forall|i: int|
                0 <= i < final(self).tasks_seq().len() && old(self).tasks_seq()[i].task_id@ == task_id@
                    ==> (if old(self).tasks_seq()[i].status.spec_is_terminal() {
                    final(self).tasks_seq()[i] == old(self).tasks_seq()[i]
                } else {
                    restated(
                        old(self).tasks_seq()[i],
                        final(self).tasks_seq()[i],
                        TaskState::Done,
                        100u8,
                    )
                }),
    {
        self.set_status(task_id, TaskState::Done, Some(100));
        self.release_slot(task_id);
    }

    /// Mark the task failed and release its slot if held. Idempotent with
    /// respect to the slot; a task already in a terminal state keeps it.
    pub fn fail(&mut self, task_id: &str)
        requires
            old(self).wf(),
        ensures
            final(self).wf(),
            final(self).capacity() == old(self).capacity(),
            !final(self).holds_slot(task_id@),
            forall|x: Seq<char>| x != task_id@ ==> final(self).holds_slot(x) == old(self).holds_slot(x),
            final(self).slot_count() == old(self).slot_count() - (if old(self).holds_slot(task_id@) {
                1int
            } else {
                0int
            }),
            forall|x: Seq<char>| final(self).tracks(x) == old(self).tracks(x),
            final(self).tasks_seq().len() == old(self).tasks_seq().len(),
            forall|i: int|
                0 <= i < final(self).tasks_seq().len() && old(self).tasks_seq()[i].task_id@ != task_id@
                    ==> final(self).tasks_seq()[i] == old(self).tasks_seq()[i],
            forall|i: int|
                0 <= i < final(self).tasks_seq().len() && old(self).tasks_seq()[i].task_id@ == task_id@
                    ==> (if old(self).tasks_seq()[i].status.spec_is_terminal() {
                    final(self).tasks_seq()[i] == old(self).tasks_seq()[i]
                } else {
                    restated(
                        old(self).tasks_seq()[i],
                        final(self).tasks_seq()[i],
                        TaskState::Failed,
                        old(self).tasks_seq()[i].progress,
                    )
                }),
    {
        self.set_status(task_id, TaskState::Failed, None);
        self.release_slot(task_id);
    }

    /// Cancel a tracked task: mark it cancelled — unless it already
    /// reached a terminal state, which it keeps — and release its slot if
    /// held. Returns `false` and changes nothing for unknown ids.
    /// Cancellation is bookkeeping only; work already delegated to the
    /// worker is not interrupted.
    pub fn cancel(&mut self, task_id: &str) -> (r: bool)
        requires
            old(self).wf(),
        ensures
            final(self).wf(),
            r == old(self).tracks(task_id@),
            !r ==> *final(self) == *old(self),
            final(self).capacity() == old(self).capacity(),
            r ==> {
                &&& !final(self).holds_slot(task_id@)
                &&& forall|x: Seq<char>|
                    x != task_id@ ==> final(self).holds_slot(x) == old(self).holds_slot(x)
                &&& final(self).slot_count() == old(self).slot_count() - (if old(self).holds_slot(
                    task_id@,
                ) {
                    1int
                } else {
                    0int
                })
                &&& forall|x: Seq<char>| final(self).tracks(x) == old(self).tracks(x)
                &&& final(self).tasks_seq().len() == old(self).tasks_seq().len()
                &&& forall|i: int|
                    0 <= i < final(self).tasks_seq().len() && old(self).tasks_seq()[i].task_id@ != task_id@
                        ==> final(self).tasks_seq()[i] == old(self).tasks_seq()[i]
                &&& forall|i: int|
                    0 <= i < final(self).tasks_seq().len() && old(self).tasks_seq()[i].task_id@ == task_id@
                        ==> (if old(self).tasks_seq()[i].status.spec_is_terminal() {
                        final(self).tasks_seq()[i] == old(self).tasks_seq()[i]
                    } else {
                        restated(
                            old(self).tasks_seq()[i],
                            final(self).tasks_seq()[i],
                            TaskState::Cancelled,
                            old(self).tasks_seq()[i].progress,
                        )
                    })
            },
    {
        match self.find_task_index(task_id) {
            Some(_) => {
                self.set_status(task_id, TaskState::Cancelled, None);
                self.release_slot(task_id);
                true
            }
            None => false,
        }
    }

    /// A copy of the tracked task with id `task_id`, if any.
    pub fn get_status(&self, task_id: &str) -> (r: Option<TrackedTask>)
        ensures
            match r {
                Some(t) => {
                    &&& self.tracks(task_id@)
                    &&& t.task_id@ == task_id@
                    &&& exists|i: int| 0 <= i < self.tasks_seq().len() && self.tasks_seq()[i] == t
                },
                None => !self.tracks(task_id@),
            },
    {
        match self.find_task_index(task_id) {
            Some(i) => Some(copy_task(&self.tasks[i])),
            None => None,
        }
    }

    /// Copies of all tasks that belong to `chat_id`, in insertion order.
    pub fn get_user_tasks(&self, chat_id: i64) -> (r: Vec<TrackedTask>)
        ensures
            r@ == tasks_for_chat(self.tasks_seq(), self.tasks_seq().len() as int, chat_id),
    {
        let n = self.tasks.len();
        let mut out: Vec<TrackedTask> = Vec::new();
        let mut i: usize = 0;
        while i < n
            invariant
                n == self.tasks@.len(),
                0 <= i <= n,
                out@ == tasks_for_chat(self.tasks@, i as int, chat_id),
            decreases n - i,
        {
            if self.tasks[i].chat_id == chat_id {
                out.push(copy_task(&self.tasks[i]));
            }
            i = i + 1;
        }
        out
    }

    /// How many tasks currently hold a slot.
    pub fn running_count(&self) -> (r: usize)
        ensures
            r == self.slot_count(),
    {
        self.running_ids.len()
    }

    /// How many tracked tasks are still waiting in the queued state.
    pub fn queued_count(&self) -> (r: usize)
        ensures
            r == count_state(self.tasks_seq(), self.tasks_seq().len() as int, TaskState::Queued),
    {
        let n = self.tasks.len();
        let mut count: usize = 0;
        let mut i: usize = 0;
        while i < n
            invariant
                n == self.tasks@.len(),
                0 <= i <= n,
                count == count_state(self.tasks@, i as int, TaskState::Queued),
                count <= i,
            decreases n - i,
        {
            if self.tasks[i].status == TaskState::Queued {
                count = count + 1;
            }
            i = i + 1;
        }
        count
    }

    /// Point-in-time statistics over the controller.
    pub fn stats(&self) -> (st: QueueStats)
        ensures
            st.max_concurrent == self.capacity(),
            st.running == self.slot_count(),
            st.queued == count_state(self.tasks_seq(), self.tasks_seq().len() as int, TaskState::Queued),
            st.completed == count_state(self.tasks_seq(), self.tasks_seq().len() as int, TaskState::Done),
            st.failed == count_state(self.tasks_seq(), self.tasks_seq().len() as int, TaskState::Failed),
            st.total_tracked == self.tasks_seq().len(),
    {
        let n = self.tasks.len();
        let mut queued: usize = 0;
        let mut completed: usize = 0;
        let mut failed: usize = 0;
        let mut i: usize = 0;
        while i < n
            invariant
                n == self.tasks@.len(),
                0 <= i <= n,
                queued == count_state(self.tasks@, i as int, TaskState::Queued),
                completed == count_state(self.tasks@, i as int, TaskState::Done),
                failed == count_state(self.tasks@, i as int, TaskState::Failed),
                queued <= i,
                completed <= i,
                failed <= i,
            decreases n - i,
        {
            if self.tasks[i].status == TaskState::Queued {
                queued = queued + 1;
            } else if self.tasks[i].status == TaskState::Done {
                completed = completed + 1;
            } else if self.tasks[i].status == TaskState::Failed {
                failed = failed + 1;
            }
            i = i + 1;
        }
        QueueStats {
            max_concurrent: self.max_concurrent,
            running: self.running_ids.len(),
            queued,
            completed,
            failed,
            total_tracked: n,
        }
    }

    /// Evict terminal tasks whose enqueue time is `max_age_secs` or more in
    /// the past. Queued and running tasks are never evicted.
    pub fn cleanup_old(&mut self, max_age_secs: i64, now: i64)
        requires
            old(self).wf(),
            i64::MIN <= now - max_age_secs <= i64::MAX,
        ensures
            final(self).wf(),
            final(self).capacity() == old(self).capacity(),
            final(self).slots() == old(self).slots(),
            final(self).tasks_seq() == swept(
                old(self).tasks_seq(),
                old(self).tasks_seq().len() as int,
                now - max_age_secs,
            ),
    {
        let cutoff: i64 = now - max_age_secs;
        let n = self.tasks.len();
        let mut kept: Vec<TrackedTask> = Vec::new();
        let mut i: usize = 0;
        while i < n
            invariant
                n == self.tasks@.len(),
                0 <= i <= n,
                kept@ == swept(self.tasks@, i as int, cutoff as int),
            decreases n - i,
        {
            let t = &self.tasks[i];
            let keep = !t.status.is_terminal() || t.enqueued_at > cutoff;
            if keep {
                kept.push(copy_task(t));
            }
            i = i + 1;
        }
        proof {
            lemma_swept_unique(self.tasks@, n as int, cutoff as int);
        }
        self.tasks = kept;
        proof {
            let s = old(self).tasks@;
            assert forall|i2: int|
                0 <= i2 < self.tasks@.len() && self.tasks@[i2].status == TaskState::Running
                    implies self.holds_slot(self.tasks@[i2].task_id@) by {
                let j = choose|j: int|
                    0 <= j < s.len() && #[trigger] swept(s, s.len() as int, cutoff as int)[i2]
                        == s[j];
                assert(self.tasks@[i2] == s[j]);
                assert(old(self).holds_slot(s[j].task_id@));
                let k = choose|k: int|
                    0 <= k < old(self).running_ids@.len() && old(self).running_ids@[k]@
                        == s[j].task_id@;
                assert(self.running_ids@[k]@ == self.tasks@[i2].task_id@);
            }
        }
    }
}

/// Copy an `Option<String>`, preserving its value exactly.
fn clone_opt_string(o: &Option<String>) -> (r: Option<String>)
    ensures
        r == *o,
{
    match o {
        Some(s) => Some(s.clone()),
        None => None,
    }
}

/// Copy a tracked task, preserving every field exactly.
fn copy_task(t: &TrackedTask) -> (r: TrackedTask)
    ensures
        r == *t,
{
    TrackedTask {
        task_id: t.task_id.clone(),
        chat_id: t.chat_id,
        task_type: t.task_type.clone(),
        status: t.status,
        progress: t.progress,
        speed: clone_opt_string(&t.speed),
        enqueued_at: t.enqueued_at,
        started_at: t.started_at,
    }
}

/// Every task a sweep keeps comes from the swept prefix, position for
/// position; with unique ids in the source, the kept ids stay unique.
proof fn lemma_swept_unique(s: Seq<TrackedTask>, n: int, cutoff: int)
    requires
        0 <= n <= s.len(),
        forall|i: int, j: int| 0 <= i < j < s.len() ==> s[i].task_id@ != s[j].task_id@,
    ensures
        forall|k: int| #![trigger swept(s, n, cutoff)[k]]
            0 <= k < swept(s, n, cutoff).len() ==> exists|j: int|
                0 <= j < n && swept(s, n, cutoff)[k] == #[trigger] s[j],
        forall|a: int, b: int| #![trigger swept(s, n, cutoff)[a], swept(s, n, cutoff)[b]]
            0 <= a < b < swept(s, n, cutoff).len() ==> swept(s, n, cutoff)[a].task_id@ != swept(
                s,
                n,
                cutoff,
            )[b].task_id@,
    decreases n,
{
    if n > 0 {
        lemma_swept_unique(s, n - 1, cutoff);
        let pre = swept(s, n - 1, cutoff);
        let cur = swept(s, n, cutoff);
        assert forall|k: int| #![trigger cur[k]] 0 <= k < cur.len() implies exists|j: int|
            0 <= j < n && cur[k] == #[trigger] s[j] by {
            if k < pre.len() {
                assert(cur[k] == pre[k]);
                let j = choose|j: int| 0 <= j < n - 1 && pre[k] == s[j];
                assert(cur[k] == s[j]);
            } else {
                assert(cur[k] == s[n - 1]);
            }
        }
        assert forall|a: int, b: int| 0 <= a < b < cur.len() implies cur[a].task_id@
            != cur[b].task_id@ by {
            if b < pre.len() {
                assert(cur[a] == pre[a]);
                assert(cur[b] == pre[b]);
            } else {
                assert(cur[b] == s[n - 1]);
                assert(cur[a] == pre[a]);
                let ja = choose|j: int| 0 <= j < n - 1 && pre[a] == s[j];
                assert(s[ja].task_id@ != s[n - 1].task_id@);
            }
        }
    }
}

/// With unique task ids and unique slot ids, tasks in the running state
/// that each hold a slot cannot outnumber the slots.
proof fn lemma_count_running_bounded(s: Seq<TrackedTask>, n: int, slots: Seq<String>)
    requires
        0 <= n <= s.len(),
        forall|i: int, j: int| 0 <= i < j < s.len() ==> s[i].task_id@ != s[j].task_id@,
        forall|i: int, j: int| 0 <= i < j < slots.len() ==> slots[i]@ != slots[j]@,
        forall|i: int| #![trigger s[i]]
            0 <= i < n && s[i].status == TaskState::Running ==> exists|k: int|
                0 <= k < slots.len() && slots[k]@ == s[i].task_id@,
    ensures
        count_state(s, n, TaskState::Running) <= slots.len(),
    decreases n,
{
    if n > 0 {
        if s[n - 1].status == TaskState::Running {
            let k = choose|k: int| 0 <= k < slots.len() && slots[k]@ == s[n - 1].task_id@;
            let slots2 = slots.remove(k);
            assert forall|i: int| #![trigger s[i]]
                0 <= i < n - 1 && s[i].status == TaskState::Running implies exists|k2: int|
                0 <= k2 < slots2.len() && slots2[k2]@ == s[i].task_id@ by {
                let k0 = choose|k0: int| 0 <= k0 < slots.len() && slots[k0]@ == s[i].task_id@;
                assert(s[i].task_id@ != s[n - 1].task_id@);
                assert(k0 != k);
                if k0 < k {
                    assert(slots2[k0]@ == s[i].task_id@);
                } else {
                    assert(slots2[k0 - 1]@ == s[i].task_id@);
                }
            }
            assert forall|a: int, b: int| 0 <= a < b < slots2.len() implies slots2[a]@
                != slots2[b]@ by {
                let a2 = if a < k {
                    a
                } else {
                    a + 1
                };
                let b2 = if b < k {
                    b
                } else {
                    b + 1
                };
                assert(slots2[a] == slots[a2]);
                assert(slots2[b] == slots[b2]);
                assert(slots[a2]@ != slots[b2]@);
            }
            lemma_count_running_bounded(s, n - 1, slots2);
        } else {
            lemma_count_running_bounded(s, n - 1, slots);
        }
    }
}

/// Law: the admission bound. A well-formed controller never has more
/// slot holders than its capacity, so at most `max_concurrent` tasks are
/// simultaneously admitted; `acquire` refuses exactly when the bound is
/// reached, until a holder releases through `complete`, `fail` or `cancel`.
pub proof fn lemma_bounded_concurrency(q: &TaskQueue)
    requires
        q.wf(),
    ensures
        q.slot_count() <= q.capacity(),
{
}

/// Law: no more than the configured number of tasks are simultaneously in
/// the running state. Every running task holds a slot, slot holders are
/// unique, and the slot pool is capped, so the count of running tasks in
/// the table never exceeds the capacity.
pub proof fn lemma_bounded_running_tasks(q: &TaskQueue)
    requires
        q.wf(),
    ensures
        count_state(q.tasks_seq(), q.tasks_seq().len() as int, TaskState::Running) <= q.capacity(),
{
    lemma_count_running_bounded(q.tasks_seq(), q.tasks_seq().len() as int, q.slots());
}

} // verus!
