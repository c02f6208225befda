//! The task table of the priority-preemptive executor.
//!
//! Tasks are declared ahead of time, each with a fixed priority. At most one
//! task runs at a time on the single core; a task leaves the running state
//! only at an explicit suspension point or on completion. The executor
//! itself (timer interrupts, context switching) lives outside the library;
//! this module holds the task-state bookkeeping and the dispatch decisions,
//! with the transitions of the per-task state machine
//! Dormant -> Pending -> Running -> Suspended -> Pending -> ... -> Dormant.
//!
//! Beside each task's state the table keeps the ready queue: the pending
//! tasks in the order they became ready. Dispatch picks the highest
//! priority first and, within one priority level, first-come-first-served
//! on that queue.

use vstd::prelude::*;

verus! {

/// Identifier of the serial receive task.
pub const TASK_CLIENT: usize = 0;
/// Identifier of the help handler task.
pub const TASK_HELP: usize = 1;
/// Identifier of the display-toggle handler task.
pub const TASK_TOGGLE_DISPLAY: usize = 2;
/// Identifier of the board-log handler task.
pub const TASK_LOG_BOARD: usize = 3;
/// Identifier of the version handler task.
pub const TASK_VERSION: usize = 4;
/// Number of statically declared tasks.
pub const TASK_COUNT: usize = 5;

/// Scheduling state of one task.
#[derive(Clone, Copy, PartialEq, Eq, Structural, Debug)]
pub enum TaskState {
    /// Declared but not requested: the task does nothing.
    Dormant,
    /// A spawn was requested; the task waits to be scheduled.
    Pending,
    /// The task is executing on the core.
    Running,
    /// The task yielded at a timed delay and waits for the timer.
    Suspended,
}

/// Error returned when a task is spawned while it is still active.
#[derive(Clone, Copy, PartialEq, Eq, Structural, Debug)]
pub enum SpawnError {
    AlreadyActive,
}

/// One entry of the static task table.
#[derive(Clone, Copy, PartialEq, Eq, Structural, Debug)]
pub struct TaskControl {
    pub state: TaskState,
    pub priority: u8,
}

/// The static task table: a fixed set of tasks, each with a scheduling
/// state and a fixed priority (higher value = more urgent), plus the ready
/// queue recording the order in which the pending tasks became ready.
pub struct Scheduler {
    tasks: Vec<TaskControl>,
    ready: Vec<usize>,
}

impl View for Scheduler {
    type V = Seq<TaskControl>;

    closed spec fn view(&self) -> Seq<TaskControl> {
        self.tasks@
    }
}

impl Scheduler {
    /// The pending tasks, in the order they became ready (front = earliest).
    pub closed spec fn ready_order(&self) -> Seq<usize> {
        self.ready@
    }

    /// Invariant: at most one task occupies the core at any time, and the
    /// ready queue holds exactly the pending tasks, each once.
    pub open spec fn wf(&self) -> bool {
        &&& (forall|i: int, j: int|
            0 <= i < j < self@.len() ==> !(#[trigger] self@[i].state is Running
                && #[trigger] self@[j].state is Running))
        &&& (forall|k: int|
            0 <= k < self.ready_order().len() ==> (#[trigger] self.ready_order()[k])
                < self@.len() && self@[self.ready_order()[k] as int].state is Pending)
        &&& (forall|i: int|
            0 <= i < self@.len() && #[trigger] self@[i].state is Pending ==> exists|k: int|
                0 <= k < self.ready_order().len() && #[trigger] self.ready_order()[k] as int == i)
        &&& (forall|k: int, m: int|
            #![trigger self.ready_order()[k], self.ready_order()[m]]
            0 <= k < m < self.ready_order().len() ==> self.ready_order()[k]
                != self.ready_order()[m])
    }

    /// Declares the task table: one dormant task per given priority, and an
    /// empty ready queue.
    pub fn new(priorities: &Vec<u8>) -> (s: Scheduler)
        ensures
            s@.len() == priorities@.len(),
            forall|i: int| 0 <= i < s@.len() ==> #[trigger] s@[i] == (TaskControl {
                state: TaskState::Dormant,
                priority: priorities@[i],
            }),
            s.ready_order() == Seq::<usize>::empty(),
            s.wf(),
    {
        let mut tasks: Vec<TaskControl> = Vec::new();
        let mut k: usize = 0;
        while k < priorities.len()
            invariant
                k <= priorities@.len(),
                tasks@.len() == k,
                forall|i: int| 0 <= i < k ==> #[trigger] tasks@[i] == (TaskControl {
                    state: TaskState::Dormant,
                    priority: priorities@[i],
                }),
            decreases priorities@.len() - k,
        {
            tasks.push(TaskControl { state: TaskState::Dormant, priority: priorities[k] });
            k += 1;
        }
        let s = Scheduler { tasks, ready: Vec::new() };
        proof {
            assert forall|i: int|
                0 <= i < s@.len() && #[trigger] s@[i].state is Pending implies (exists|k: int|
                    0 <= k < s.ready_order().len() && #[trigger] s.ready_order()[k] as int
                        == i) by {
                assert(s@[i].state is Dormant);
            }
        }
        s
    }

    /// Number of declared tasks.
    pub fn task_count(&self) -> (n: usize)
        ensures
            n == self@.len(),
    {
        self.tasks.len()
    }

    /// Scheduling state of one task.
    pub fn state_of(&self, id: usize) -> (st: TaskState)
        requires
            id < self@.len(),
        ensures
            st == self@[id as int].state,
    {
        self.tasks[id].state
    }

    /// Requests that a dormant task be scheduled: the task becomes pending
    /// and joins the back of the ready queue. A task that is already
    /// pending, running or suspended is not queued a second time: the
    /// request is rejected and the table is unchanged.
    pub fn spawn(&mut self, id: usize) -> (r: Result<(), SpawnError>)
        requires
            id < old(self)@.len(),
        ensures
            r is Ok <==> old(self)@[id as int].state is Dormant,
            r is Ok ==> final(self)@ == old(self)@.update(id as int, (TaskControl {
                state: TaskState::Pending,
                priority: old(self)@[id as int].priority,
            })),
            r is Ok ==> final(self).ready_order() == old(self).ready_order().push(id),
            r is Err ==> final(self)@ == old(self)@,
            r is Err ==> final(self).ready_order() == old(self).ready_order(),
            r is Err ==> r == Result::<(), SpawnError>::Err(SpawnError::AlreadyActive),
            old(self).wf() ==> final(self).wf(),
    {
        match self.tasks[id].state {
            TaskState::Dormant => {
                let pri = self.tasks[id].priority;
                self.tasks.set(id, TaskControl { state: TaskState::Pending, priority: pri });
                self.ready.push(id);
                proof {
                    if old(self).wf() {
                        self.lemma_wf_after_enqueue(*old(self), id);
                    }
                }
                Ok(())
            },
            _ => Err(SpawnError::AlreadyActive),
        }
    }

    /// The queue invariants survive marking a task pending and putting it
    /// at the back of the ready queue, provided it was not pending before.
    proof fn lemma_wf_after_enqueue(&self, pre: Scheduler, id: usize)
        requires
            pre.wf(),
            id < pre@.len(),
            !(pre@[id as int].state is Pending),
            !(pre@[id as int].state is Running),
            self@ == pre@.update(id as int, (TaskControl {
                state: TaskState::Pending,
                priority: pre@[id as int].priority,
            })),
            self.ready_order() == pre.ready_order().push(id),
        ensures
            self.wf(),
    {
        let pr = pre.ready_order();
        let nr = self.ready_order();
        assert forall|k: int|
            0 <= k < nr.len() implies (#[trigger] nr[k]) < self@.len() && self@[nr[k] as int].state
            is Pending by {
            if k < pr.len() {
                assert(pr[k] < pre@.len() && pre@[pr[k] as int].state is Pending);
            }
        }
        assert forall|i: int|
            0 <= i < self@.len() && #[trigger] self@[i].state is Pending implies (exists|k: int|
                0 <= k < nr.len() && #[trigger] nr[k] as int == i) by {
            if i == id as int {
                assert(nr[pr.len() as int] as int == i);
            } else {
                assert(pre@[i].state is Pending);
                let k = choose|k: int| 0 <= k < pr.len() && #[trigger] pr[k] as int == i;
                assert(nr[k] as int == i);
            }
        }
        assert forall|k: int, m: int|
            #![trigger nr[k], nr[m]]
            0 <= k < m < nr.len() implies nr[k] != nr[m] by {
            if m == pr.len() {
                assert(pre@[pr[k] as int].state is Pending);
            }
        }
    }

    /// Picks the task to dispatch next: among the pending tasks of maximal
    /// priority, the one that became ready first (first-in-first-out within
    /// the shared priority level). Returns `None` when no task is pending.
    pub fn next_ready(&self) -> (r: Option<usize>)
        requires
            self.wf(),
        ensures
            r is None <==> (forall|i: int|
                0 <= i < self@.len() ==> !(#[trigger] self@[i].state is Pending)),
            r matches Some(id) ==> {
                &&& id < self@.len()
                &&& self@[id as int].state is Pending
                &&& forall|j: int|
                    0 <= j < self@.len() && #[trigger] self@[j].state is Pending
                        ==> self@[j].priority <= self@[id as int].priority
                &&& exists|k: int|
                    {
                        &&& 0 <= k < self.ready_order().len()
                        &&& self.ready_order()[k] == id
                        &&& forall|m: int|
                            0 <= m < k ==> self@[#[trigger] self.ready_order()[m] as int].priority
                                < self@[id as int].priority
                    }
            },
    {
        let mut best: Option<usize> = None;
        let mut k: usize = 0;
        while k < self.ready.len()
            invariant
                self.wf(),
                k <= self.ready_order().len(),
                best is None ==> k == 0,
                best matches Some(kb) ==> {
                    &&& kb < k
                    &&& forall|m: int|
                        0 <= m < k ==> self@[#[trigger] self.ready_order()[m] as int].priority
                            <= self@[self.ready_order()[kb as int] as int].priority
                    &&& forall|m: int|
                        0 <= m < kb ==> self@[#[trigger] self.ready_order()[m] as int].priority
                            < self@[self.ready_order()[kb as int] as int].priority
                },
            decreases self.ready_order().len() - k,
        {
            let cand = self.ready[k];
            match best {
                None => {
                    best = Some(k);
                },
                Some(kb) => {
                    let b = self.ready[kb];
                    if self.tasks[cand].priority > self.tasks[b].priority {
                        best = Some(k);
                    }
                },
            }
            k += 1;
        }
        match best {
            None => {
                proof {
                    assert forall|i: int|
                        0 <= i < self@.len() implies !(#[trigger] self@[i].state is Pending) by {
                        if self@[i].state is Pending {
                            let m = choose|m: int|
                                0 <= m < self.ready_order().len()
                                    && #[trigger] self.ready_order()[m] as int == i;
                        }
                    }
                }
                None
            },
            Some(kb) => {
                let id = self.ready[kb];
                proof {
                    assert forall|j: int|
                        0 <= j < self@.len() && #[trigger] self@[j].state is Pending implies self@[j].priority
                        <= self@[id as int].priority by {
                        let m = choose|m: int|
                            0 <= m < self.ready_order().len()
                                && #[trigger] self.ready_order()[m] as int == j;
                        assert(self@[self.ready_order()[m] as int].priority <= self@[self.ready_order()[kb as int] as int].priority);
                    }
                    assert(self.ready_order()[kb as int] == id);
                }
                Some(id)
            },
        }
    }

    /// Dispatches a pending task onto the idle core and removes it from the
    /// ready queue. The dispatched task must have maximal priority among
    /// the pending tasks.
    pub fn start(&mut self, id: usize)
        requires
            old(self).wf(),
            id < old(self)@.len(),
            old(self)@[id as int].state is Pending,
            forall|i: int|
                0 <= i < old(self)@.len() ==> !(#[trigger] old(self)@[i].state is Running),
            forall|j: int|
                0 <= j < old(self)@.len() && #[trigger] old(self)@[j].state is Pending
                    ==> old(self)@[j].priority <= old(self)@[id as int].priority,
        ensures
            final(self)@ == old(self)@.update(id as int, (TaskControl {
                state: TaskState::Running,
                priority: old(self)@[id as int].priority,
            })),
            exists|k: int|
                {
                    &&& 0 <= k < old(self).ready_order().len()
                    &&& old(self).ready_order()[k] == id
                    &&& final(self).ready_order() == old(self).ready_order().remove(k)
                },
            final(self).wf(),
    {
        let ghost pre = *self;
        let pri = self.tasks[id].priority;
        self.tasks.set(id, TaskControl { state: TaskState::Running, priority: pri });

        // The task is pending, so the well-formed queue holds it somewhere.
        proof {
            assert(pre@[id as int].state is Pending);
        }
        let mut k: usize = 0;
        while k < self.ready.len() && self.ready[k] != id
            invariant
                self.ready@ == pre.ready_order(),
                k <= pre.ready_order().len(),
                forall|m: int| 0 <= m < k ==> #[trigger] pre.ready_order()[m] != id,
            decreases pre.ready_order().len() - k,
        {
            k += 1;
        }
        proof {
            if k >= self.ready.len() {
                let j = choose|j: int|
                    0 <= j < pre.ready_order().len() && #[trigger] pre.ready_order()[j] as int
                        == id as int;
                assert(pre.ready_order()[j] != id);
            }
        }
        self.ready.remove(k);
        proof {
            self.lemma_wf_after_dequeue(pre, id, k as int);
        }
    }

    /// The queue invariants survive dispatching a pending task: it leaves
    /// the queue, every other entry keeps its place and its state.
    proof fn lemma_wf_after_dequeue(&self, pre: Scheduler, id: usize, k: int)
        requires
            pre.wf(),
            id < pre@.len(),
            pre@[id as int].state is Pending,
            forall|i: int| 0 <= i < pre@.len() ==> !(#[trigger] pre@[i].state is Running),
            0 <= k < pre.ready_order().len(),
            pre.ready_order()[k] == id,
            self@ == pre@.update(id as int, (TaskControl {
                state: TaskState::Running,
                priority: pre@[id as int].priority,
            })),
            self.ready_order() == pre.ready_order().remove(k),
        ensures
            self.wf(),
    {
        let pr = pre.ready_order();
        let nr = self.ready_order();
        pr.remove_ensures(k);
        assert forall|m: int|
            0 <= m < nr.len() implies (#[trigger] nr[m]) < self@.len() && self@[nr[m] as int].state
            is Pending by {
            if m < k {
                assert(nr[m] == pr[m]);
                assert(pr[m] != pr[k]);
            } else {
                assert(nr[m] == pr[m + 1]);
                assert(pr[m + 1] != pr[k]);
            }
        }
        assert forall|i: int|
            0 <= i < self@.len() && #[trigger] self@[i].state is Pending implies (exists|kk: int|
                0 <= kk < nr.len() && #[trigger] nr[kk] as int == i) by {
            assert(pre@[i].state is Pending);
            let j = choose|j: int| 0 <= j < pr.len() && #[trigger] pr[j] as int == i;
            assert(i != id as int);
            assert(j != k);
            if j < k {
                assert(nr[j] as int == i);
            } else {
                assert(nr[j - 1] == pr[j]);
                assert(nr[j - 1] as int == i);
            }
        }
        assert forall|m: int, n: int|
            #![trigger nr[m], nr[n]]
            0 <= m < n < nr.len() implies nr[m] != nr[n] by {
            let m0: int = if m < k {
                m
            } else {
                m + 1
            };
            let n0: int = if n < k {
                n
            } else {
                n + 1
            };
            assert(nr[m] == pr[m0]);
            assert(nr[n] == pr[n0]);
            assert(pr[m0] != pr[n0]);
        }
    }

    /// The running task yields at a timed delay and leaves the core. While
    /// suspended it holds no locks, performs no work, and is not ready.
    pub fn suspend(&mut self, id: usize)
        requires
            id < old(self)@.len(),
            old(self)@[id as int].state is Running,
        ensures
            final(self)@ == old(self)@.update(id as int, (TaskControl {
                state: TaskState::Suspended,
                priority: old(self)@[id as int].priority,
            })),
            final(self).ready_order() == old(self).ready_order(),
            old(self).wf() ==> final(self).wf(),
    {
        let pri = self.tasks[id].priority;
        self.tasks.set(id, TaskControl { state: TaskState::Suspended, priority: pri });
        proof {
            if old(self).wf() {
                self.lemma_wf_after_settle(*old(self), id);
            }
        }
    }

    /// The queue invariants survive a running task leaving the core (to the
    /// suspended or the dormant state): it was not in the ready queue, and
    /// the queue is untouched.
    proof fn lemma_wf_after_settle(&self, pre: Scheduler, id: usize)
        requires
            pre.wf(),
            id < pre@.len(),
            pre@[id as int].state is Running,
            !(self@[id as int].state is Pending),
            !(self@[id as int].state is Running),
            self@.len() == pre@.len(),
            forall|i: int| 0 <= i < pre@.len() && i != id ==> self@[i] == pre@[i],
            self.ready_order() == pre.ready_order(),
        ensures
            self.wf(),
    {
        let r = self.ready_order();
        assert forall|m: int|
            0 <= m < r.len() implies (#[trigger] r[m]) < self@.len() && self@[r[m] as int].state
            is Pending by {
            assert(pre@[r[m] as int].state is Pending);
        }
        assert forall|i: int|
            0 <= i < self@.len() && #[trigger] self@[i].state is Pending implies (exists|k: int|
                0 <= k < r.len() && #[trigger] r[k] as int == i) by {
            assert(pre@[i].state is Pending);
        }
    }

    /// The timer of a suspended task fired: the task becomes ready again
    /// and joins the back of the ready queue.
    pub fn make_ready(&mut self, id: usize)
        requires
            id < old(self)@.len(),
            old(self)@[id as int].state is Suspended,
        ensures
            final(self)@ == old(self)@.update(id as int, (TaskControl {
                state: TaskState::Pending,
                priority: old(self)@[id as int].priority,
            })),
            final(self).ready_order() == old(self).ready_order().push(id),
            old(self).wf() ==> final(self).wf(),
    {
        let pri = self.tasks[id].priority;
        self.tasks.set(id, TaskControl { state: TaskState::Pending, priority: pri });
        self.ready.push(id);
        proof {
            if old(self).wf() {
                self.lemma_wf_after_enqueue(*old(self), id);
            }
        }
    }

    /// The running task finished: it returns to the dormant state and may
    /// be spawned again later.
    pub fn complete(&mut self, id: usize)
        requires
            id < old(self)@.len(),
            old(self)@[id as int].state is Running,
        ensures
            final(self)@ == old(self)@.update(id as int, (TaskControl {
                state: TaskState::Dormant,
                priority: old(self)@[id as int].priority,
            })),
            final(self).ready_order() == old(self).ready_order(),
            old(self).wf() ==> final(self).wf(),
    {
        let pri = self.tasks[id].priority;
        self.tasks.set(id, TaskControl { state: TaskState::Dormant, priority: pri });
        proof {
            if old(self).wf() {
                self.lemma_wf_after_settle(*old(self), id);
            }
        }
    }
}

} // verus!
