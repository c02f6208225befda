//! The command vocabulary: parsing a buffered byte sequence into a command,
//! and dispatching a command to its handler task.

use vstd::prelude::*;

use crate::scheduler::Scheduler;
use crate::scheduler::SpawnError;
use crate::scheduler::TaskControl;
use crate::scheduler::TaskState;
use crate::scheduler::TASK_COUNT;
use crate::scheduler::TASK_HELP;
use crate::scheduler::TASK_LOG_BOARD;
use crate::scheduler::TASK_TOGGLE_DISPLAY;
use crate::scheduler::TASK_VERSION;

verus! {

/// A recognized command. Carries no payload beyond its variant; constructed
/// only by `Command::try_from` and consumed exactly once by dispatch.
#[derive(PartialEq, Eq, Structural, Debug)]
pub enum Command {
    Help,
    ToggleDisplay,
    LogBoard,
    Version,
}

/// The bytes of the `help` token.
pub open spec fn help_token() -> Seq<u8> {
    seq!['h' as u8, 'e' as u8, 'l' as u8, 'p' as u8]
}

/// The bytes of the `toggle` token.
pub open spec fn toggle_token() -> Seq<u8> {
    seq!['t' as u8, 'o' as u8, 'g' as u8, 'g' as u8, 'l' as u8, 'e' as u8]
}

/// The bytes of the `log_board` token.
pub open spec fn log_board_token() -> Seq<u8> {
    seq!['l' as u8, 'o' as u8, 'g' as u8, '_' as u8, 'b' as u8, 'o' as u8, 'a' as u8, 'r' as u8, 'd' as u8]
}

/// The bytes of the `version` token.
pub open spec fn version_token() -> Seq<u8> {
    seq!['v' as u8, 'e' as u8, 'r' as u8, 's' as u8, 'i' as u8, 'o' as u8, 'n' as u8]
}

/// Exact, case-sensitive match of a byte sequence against the fixed
/// vocabulary; no trimming, no partial matches.
pub open spec fn parse_spec(s: Seq<u8>) -> Option<Command> {
    if s == help_token() {
        Some(Command::Help)
    } else if s == toggle_token() {
        Some(Command::ToggleDisplay)
    } else if s == log_board_token() {
        Some(Command::LogBoard)
    } else if s == version_token() {
        Some(Command::Version)
    } else {
        None
    }
}

/// True exactly when the bytes are one of the vocabulary tokens.
pub open spec fn is_token(s: Seq<u8>) -> bool {
    parse_spec(s) is Some
}

/// Byte-for-byte equality of two slices.
fn bytes_match(a: &[u8], b: &[u8]) -> (r: bool)
    ensures
        r == (a@ == b@),
{
    if a.len() != b.len() {
        return false;
    }
    let mut k: usize = 0;
    while k < a.len()
        invariant
            k <= a@.len(),
            a@.len() == b@.len(),
            forall|j: int| 0 <= j < k ==> a@[j] == b@[j],
        decreases a@.len() - k,
    {
        if a[k] != b[k] {
            return false;
        }
        k += 1;
    }
    proof {
        assert(a@ =~= b@);
    }
    true
}

/// The `help` token as buffered bytes.
fn help_token_bytes() -> (v: Vec<u8>)
    ensures
        v@ == help_token(),
{
    let mut v: Vec<u8> = Vec::new();
    v.push('h' as u8);
    v.push('e' as u8);
    v.push('l' as u8);
    v.push('p' as u8);
    proof {
        assert(v@ =~= help_token());
    }
    v
}

/// The `toggle` token as buffered bytes.
fn toggle_token_bytes() -> (v: Vec<u8>)
    ensures
        v@ == toggle_token(),
{
    let mut v: Vec<u8> = Vec::new();
    v.push('t' as u8);
    v.push('o' as u8);
    v.push('g' as u8);
    v.push('g' as u8);
    v.push('l' as u8);
    v.push('e' as u8);
    proof {
        assert(v@ =~= toggle_token());
    }
    v
}

/// The `log_board` token as buffered bytes.
fn log_board_token_bytes() -> (v: Vec<u8>)
    ensures
        v@ == log_board_token(),
{
    let mut v: Vec<u8> = Vec::new();
    v.push('l' as u8);
    v.push('o' as u8);
    v.push('g' as u8);
    v.push('_' as u8);
    v.push('b' as u8);
    v.push('o' as u8);
    v.push('a' as u8);
    v.push('r' as u8);
    v.push('d' as u8);
    proof {
        assert(v@ =~= log_board_token());
    }
    v
}

/// The `version` token as buffered bytes.
fn version_token_bytes() -> (v: Vec<u8>)
    ensures
        v@ == version_token(),
{
    let mut v: Vec<u8> = Vec::new();
    v.push('v' as u8);
    v.push('e' as u8);
    v.push('r' as u8);
    v.push('s' as u8);
    v.push('i' as u8);
    v.push('o' as u8);
    v.push('n' as u8);
    proof {
        assert(v@ =~= version_token());
    }
    v
}

/// The task that handles a command.
pub open spec fn handler_task_spec(c: Command) -> usize {
    match c {
        Command::Help => TASK_HELP,
        Command::ToggleDisplay => TASK_TOGGLE_DISPLAY,
        Command::LogBoard => TASK_LOG_BOARD,
        Command::Version => TASK_VERSION,
    }
}

/// The dispatch table from command variant to handler task identifier.
pub fn handler_task(c: &Command) -> (id: usize)
    ensures
        id == handler_task_spec(*c),
        0 < id < TASK_COUNT,
{
    match c {
        Command::Help => TASK_HELP,
        Command::ToggleDisplay => TASK_TOGGLE_DISPLAY,
        Command::LogBoard => TASK_LOG_BOARD,
        Command::Version => TASK_VERSION,
    }
}

/// The inverse of the dispatch table: the command a handler task executes,
/// and `None` for the receive task and for identifiers outside the table.
pub open spec fn task_command_spec(id: usize) -> Option<Command> {
    if id == TASK_HELP {
        Some(Command::Help)
    } else if id == TASK_TOGGLE_DISPLAY {
        Some(Command::ToggleDisplay)
    } else if id == TASK_LOG_BOARD {
        Some(Command::LogBoard)
    } else if id == TASK_VERSION {
        Some(Command::Version)
    } else {
        None
    }
}

/// The command a handler task executes.
pub fn task_command(id: usize) -> (r: Option<Command>)
    ensures
        r == task_command_spec(id),
{
    if id == TASK_HELP {
        Some(Command::Help)
    } else if id == TASK_TOGGLE_DISPLAY {
        Some(Command::ToggleDisplay)
    } else if id == TASK_LOG_BOARD {
        Some(Command::LogBoard)
    } else if id == TASK_VERSION {
        Some(Command::Version)
    } else {
        None
    }
}

impl Command {
    /// Total-but-fallible parse of buffered bytes: succeeds exactly on the
    /// four vocabulary tokens, and fails on every other byte sequence with
    /// the fixed message the device never surfaces to the client.
    pub fn try_from(value: &[u8]) -> (r: Result<Command, &'static str>)
        ensures
            r matches Ok(c) ==> parse_spec(value@) == Some(c),
            r is Err <==> parse_spec(value@) is None,
            r matches Err(m) ==> m@ == "not a command"@,
    {
        if bytes_match(value, help_token_bytes().as_slice()) {
            Ok(Command::Help)
        } else if bytes_match(value, toggle_token_bytes().as_slice()) {
            Ok(Command::ToggleDisplay)
        } else if bytes_match(value, log_board_token_bytes().as_slice()) {
            Ok(Command::LogBoard)
        } else if bytes_match(value, version_token_bytes().as_slice()) {
            Ok(Command::Version)
        } else {
            Err("not a command")
        }
    }

    /// Dispatch: requests the handler task of this command. The command is
    /// consumed. A command whose handler task is still active is rejected,
    /// and the caller drops it silently.
    pub fn execute(self, sched: &mut Scheduler) -> (r: Result<(), SpawnError>)
        requires
            old(sched)@.len() == TASK_COUNT,
        ensures
            r is Ok <==> old(sched)@[handler_task_spec(self) as int].state is Dormant,
            r is Ok ==> final(sched)@ == old(sched)@.update(
                handler_task_spec(self) as int,
                (TaskControl {
                    state: TaskState::Pending,
                    priority: old(sched)@[handler_task_spec(self) as int].priority,
                }),
            ),
            r is Ok ==> final(sched).ready_order() == old(sched).ready_order().push(
                handler_task_spec(self),
            ),
            r is Err ==> final(sched)@ == old(sched)@,
            r is Err ==> final(sched).ready_order() == old(sched).ready_order(),
            old(sched).wf() ==> final(sched).wf(),
    {
        let id = handler_task(&self);
        sched.spawn(id)
    }
}

} // verus!
