//! A whole session under the nominal schedule.
//!
//! On the device, the receive task polls one byte, then yields at its timed
//! delay; a handler dispatched by that byte becomes ready and, all tasks
//! sharing one priority tier, runs to completion before the next poll. This
//! module composes accumulator, dispatcher, scheduler and handlers under
//! exactly that schedule, and states the wire output and the row state for
//! a complete input as one function of the input.

use vstd::prelude::*;

use crate::accumulator::step_buffer;
use crate::accumulator::step_dispatch;
use crate::accumulator::Accumulator;
use crate::client::command_client_step;
use crate::client::declare_tasks;
use crate::command::handler_task_spec;
use crate::command::task_command;
use crate::command::task_command_spec;
use crate::display::toggled;
use crate::display::DisplayRows;
use crate::handlers::execute_handler;
use crate::handlers::response_of;
use crate::scheduler::TASK_COUNT;
use crate::transmit::TransmitResource;

verus! {

/// The observable state of a session: the bytes buffered toward the next
/// command, everything flushed onto the wire, and the row pin levels.
pub struct SessionState {
    pub buf: Seq<u8>,
    pub wire: Seq<char>,
    pub rows: DisplayRows,
}

/// One tick of the nominal schedule: the byte steps the accumulator, and a
/// command it completed runs its handler to completion before the tick ends.
pub open spec fn session_step(st: SessionState, byte: u8, descriptor: Seq<char>) -> SessionState {
    let buf = step_buffer(st.buf, byte);
    match step_dispatch(st.buf, byte) {
        Some(c) => SessionState {
            buf,
            wire: st.wire + response_of(c, descriptor),
            rows: if c is ToggleDisplay {
                toggled(st.rows)
            } else {
                st.rows
            },
        },
        None => SessionState { buf, wire: st.wire, rows: st.rows },
    }
}

/// The session state after a whole input, one tick per byte.
pub open spec fn session_run(
    st: SessionState,
    input: Seq<u8>,
    descriptor: Seq<char>,
) -> SessionState
    decreases input.len(),
{
    if input.len() == 0 {
        st
    } else {
        session_step(session_run(st, input.drop_last(), descriptor), input.last(), descriptor)
    }
}

/// Interprets a whole input under the nominal schedule, starting from an
/// empty buffer and a silent wire: every byte is polled in order, and each
/// dispatched handler writes its full response before the next poll. The
/// returned transmit resource carries the session's entire wire output.
pub fn run_session(input: &[u8], rows: &mut DisplayRows, descriptor: &str) -> (tx:
    TransmitResource)
    ensures
        ({
            let end = session_run(
                SessionState {
                    buf: Seq::<u8>::empty(),
                    wire: Seq::<char>::empty(),
                    rows: *old(rows),
                },
                input@,
                descriptor@,
            );
            &&& tx@ == end.wire
            &&& *final(rows) == end.rows
        }),
{
    let ghost init_st = SessionState {
        buf: Seq::<u8>::empty(),
        wire: Seq::<char>::empty(),
        rows: *rows,
    };
    let mut acc = Accumulator::new();
    let mut sched = declare_tasks();
    let mut tx = TransmitResource::new();
    let mut i: usize = 0;
    while i < input.len()
        invariant
            i <= input@.len(),
            acc.wf(),
            sched.wf(),
            sched@.len() == TASK_COUNT,
            sched.ready_order() == Seq::<usize>::empty(),
            forall|t: int| 0 <= t < TASK_COUNT ==> #[trigger] sched@[t].state is Dormant,
            ({
                let st = session_run(init_st, input@.take(i as int), descriptor@);
                &&& acc@ == st.buf
                &&& tx@ == st.wire
                &&& *rows == st.rows
            }),
            init_st == (SessionState {
                buf: Seq::<u8>::empty(),
                wire: Seq::<char>::empty(),
                rows: *old(rows),
            }),
        decreases input@.len() - i,
    {
        let byte = input[i];
        let ghost st = session_run(init_st, input@.take(i as int), descriptor@);
        let ghost pre_tasks = sched@;
        proof {
            assert(input@.take(i as int + 1).drop_last() =~= input@.take(i as int));
            assert(input@.take(i as int + 1).last() == input@[i as int]);
        }
        command_client_step(&mut acc, &mut sched, Some(byte));
        let next = sched.next_ready();
        proof {
            match step_dispatch(st.buf, byte) {
                Some(c) => {
                    let h = handler_task_spec(c) as int;
                    assert(pre_tasks[h].state is Dormant);
                    assert(sched@[h].state is Pending);
                    assert(next is Some);
                    let id = next->0;
                    if id as int != h {
                        assert(pre_tasks[id as int].state is Dormant);
                        assert(false);
                    }
                    assert(task_command_spec(id) == Some(c));
                },
                None => {
                    assert forall|t: int|
                        0 <= t < sched@.len() implies !(#[trigger] sched@[t].state is Pending) by {
                        assert(sched@[t].state is Dormant);
                    }
                    assert(next is None);
                },
            }
        }
        match next {
            Some(id) => {
                proof {
                    assert forall|t: int|
                        0 <= t < sched@.len() implies !(#[trigger] sched@[t].state is Running) by {
                        if t != id {
                            assert(pre_tasks[t].state is Dormant);
                        }
                    }
                    assert forall|j: int|
                        0 <= j < sched@.len() && #[trigger] sched@[j].state is Pending
                            implies sched@[j].priority <= sched@[id as int].priority by {
                        if j != id {
                            assert(pre_tasks[j].state is Dormant);
                        }
                    }
                }
                let ghost ready_before = sched.ready_order();
                sched.start(id);
                if let Some(cmd) = task_command(id) {
                    execute_handler(cmd, &mut tx, rows, descriptor);
                }
                sched.complete(id);
                proof {
                    assert forall|t: int|
                        0 <= t < sched@.len() implies #[trigger] sched@[t].state is Dormant by {
                        if t != id {
                            assert(pre_tasks[t].state is Dormant);
                        }
                    }
                    let k0 = choose|k: int|
                        0 <= k < ready_before.len() && ready_before[k] == id
                            && sched.ready_order() == ready_before.remove(k);
                    assert(sched.ready_order() =~= Seq::<usize>::empty());
                }
            },
            None => {},
        }
        i += 1;
    }
    proof {
        assert(input@.take(input@.len() as int) =~= input@);
    }
    tx
}

} // verus!
