//! The receive task: polls one byte per tick from the inbound serial
//! channel and feeds it to the command accumulator; a completed command is
//! dispatched by spawning its handler task.
//!
//! The poll itself (the non-blocking read of the receive driver, and the
//! timed yield between polls) happens outside the library; each polled byte
//! is handed in here. The receive driver and the accumulator are owned by
//! this one task alone and need no lock.

use vstd::prelude::*;

use crate::accumulator::step_buffer;
use crate::accumulator::step_dispatch;
use crate::accumulator::Accumulator;
use crate::command::handler_task_spec;
use crate::scheduler::Scheduler;
use crate::scheduler::TaskControl;
use crate::scheduler::TaskState;
use crate::scheduler::TASK_CLIENT;
use crate::scheduler::TASK_COUNT;
use crate::transmit::TransmitResource;

verus! {

/// The static task declaration made at initialization: the receive task
/// and the four handler tasks, all at the same priority tier.
pub fn declare_tasks() -> (s: Scheduler)
    ensures
        s@.len() == TASK_COUNT,
        forall|i: int| 0 <= i < TASK_COUNT ==> #[trigger] s@[i] == (TaskControl {
            state: TaskState::Dormant,
            priority: 1u8,
        }),
        s.ready_order() == Seq::<usize>::empty(),
        s.wf(),
{
    let mut priorities: Vec<u8> = Vec::new();
    let mut k: usize = 0;
    while k < TASK_COUNT
        invariant
            k <= TASK_COUNT,
            priorities@.len() == k,
            forall|i: int| 0 <= i < k ==> priorities@[i] == 1u8,
        decreases TASK_COUNT - k,
    {
        priorities.push(1u8);
        k += 1;
    }
    Scheduler::new(&priorities)
}

/// The interpreter state right after initialization, once the board and
/// serial setup outside the library is done: an empty accumulator, nothing
/// on the wire, and the declared task table with the receive task already
/// spawned and every handler dormant.
pub fn init_interpreter() -> (r: (Accumulator, Scheduler, TransmitResource))
    ensures
        r.0@ == Seq::<u8>::empty(),
        r.0.wf(),
        r.1@.len() == TASK_COUNT,
        r.1@[TASK_CLIENT as int] == (TaskControl { state: TaskState::Pending, priority: 1u8 }),
        forall|i: int| TASK_CLIENT < i < TASK_COUNT ==> #[trigger] r.1@[i] == (TaskControl {
            state: TaskState::Dormant,
            priority: 1u8,
        }),
        r.1.ready_order() == Seq::<usize>::empty().push(TASK_CLIENT),
        r.1.wf(),
        r.2@ == Seq::<char>::empty(),
{
    let acc = Accumulator::new();
    let mut sched = declare_tasks();
    let tx = TransmitResource::new();
    // The receive task starts dormant in a fresh table, so this cannot fail.
    let spawned = sched.spawn(TASK_CLIENT);
    assert(spawned is Ok);
    (acc, sched, tx)
}

/// The task table after one poll: when the polled byte completes a
/// recognized command whose handler is dormant, that handler becomes
/// pending; in every other case (no byte, no complete command, handler
/// still active) the table is unchanged and the command, if any, is
/// dropped silently.
pub open spec fn step_tasks(tasks: Seq<TaskControl>, buffered: Seq<u8>, polled: Option<u8>) -> Seq<
    TaskControl,
> {
    match polled {
        None => tasks,
        Some(byte) => match step_dispatch(buffered, byte) {
            None => tasks,
            Some(c) => {
                if tasks[handler_task_spec(c) as int].state is Dormant {
                    tasks.update(
                        handler_task_spec(c) as int,
                        TaskControl {
                            state: TaskState::Pending,
                            priority: tasks[handler_task_spec(c) as int].priority,
                        },
                    )
                } else {
                    tasks
                }
            },
        },
    }
}

/// The ready queue after one poll: the dispatched handler joins the back
/// of the queue exactly when its spawn succeeded.
pub open spec fn step_ready(
    tasks: Seq<TaskControl>,
    order: Seq<usize>,
    buffered: Seq<u8>,
    polled: Option<u8>,
) -> Seq<usize> {
    match polled {
        None => order,
        Some(byte) => match step_dispatch(buffered, byte) {
            None => order,
            Some(c) => {
                if tasks[handler_task_spec(c) as int].state is Dormant {
                    order.push(handler_task_spec(c))
                } else {
                    order
                }
            },
        },
    }
}

/// One tick of the receive task, after its timed yield: handles the polled
/// byte, if there was one, and dispatches a completed command. Absence of
/// a byte is not an error; the poll is O(1) and never blocks.
pub fn command_client_step(acc: &mut Accumulator, sched: &mut Scheduler, polled: Option<u8>)
    requires
        old(acc).wf(),
        old(sched)@.len() == TASK_COUNT,
    ensures
        final(acc).wf(),
        final(acc)@ == (match polled {
            Some(byte) => step_buffer(old(acc)@, byte),
            None => old(acc)@,
        }),
        final(sched)@ == step_tasks(old(sched)@, old(acc)@, polled),
        final(sched).ready_order() == step_ready(
            old(sched)@,
            old(sched).ready_order(),
            old(acc)@,
            polled,
        ),
        old(sched).wf() ==> final(sched).wf(),
{
    match polled {
        None => {},
        Some(byte) => {
            match acc.feed_byte(byte) {
                None => {},
                Some(cmd) => {
                    // A handler that is still active rejects the spawn; the
                    // command is dropped, never queued or retried.
                    let _ = cmd.execute(sched);
                },
            }
        },
    }
}

} // verus!
