//! The command accumulator: the state machine that reconstructs discrete
//! commands from a live byte stream.
//!
//! One byte is handled per poll. On the terminator the buffered bytes are
//! parsed; a recognized command is handed back for dispatch and the buffer
//! is cleared, an unrecognized one is discarded silently. A non-terminator
//! byte is appended, after first clearing a full buffer: the overflow
//! policy drops the whole in-progress command and keeps the newest byte.

use vstd::prelude::*;

use crate::buffer::CommandBuffer;
use crate::buffer::COMMAND_BUF_SIZE;
use crate::command::is_token;
use crate::command::parse_spec;
use crate::command::Command;

verus! {

/// The byte marking the end of a command: `;`.
pub const TERMINATOR: u8 = 59;

/// The buffer contents after one byte has been handled.
pub open spec fn step_buffer(s: Seq<u8>, byte: u8) -> Seq<u8> {
    if byte == TERMINATOR {
        Seq::<u8>::empty()
    } else if s.len() >= COMMAND_BUF_SIZE {
        seq![byte]
    } else {
        s.push(byte)
    }
}

/// The command dispatched after one byte has been handled: only a
/// terminator arriving on buffered bytes that form a vocabulary token
/// dispatches anything.
pub open spec fn step_dispatch(s: Seq<u8>, byte: u8) -> Option<Command> {
    if byte == TERMINATOR {
        parse_spec(s)
    } else {
        None
    }
}

/// The buffer contents after a whole byte sequence has been fed, oldest
/// byte first.
pub open spec fn feed_all(s: Seq<u8>, bytes: Seq<u8>) -> Seq<u8>
    decreases bytes.len(),
{
    if bytes.len() == 0 {
        s
    } else {
        feed_all(step_buffer(s, bytes[0]), bytes.drop_first())
    }
}

/// The command accumulator owned by the receive task: a fixed-capacity
/// byte buffer plus the policy that turns incoming bytes into commands.
pub struct Accumulator {
    buf: CommandBuffer,
}

impl View for Accumulator {
    type V = Seq<u8>;

    closed spec fn view(&self) -> Seq<u8> {
        self.buf@
    }
}

impl Accumulator {
    /// Invariant: the buffer never exceeds its capacity.
    pub open spec fn wf(&self) -> bool {
        self@.len() <= COMMAND_BUF_SIZE
    }

    /// A fresh accumulator with an empty buffer, ready for the first byte.
    pub fn new() -> (a: Accumulator)
        ensures
            a@ == Seq::<u8>::empty(),
            a.wf(),
    {
        Accumulator { buf: CommandBuffer::new() }
    }

    /// Number of bytes buffered toward the next command.
    pub fn buffered_len(&self) -> (n: usize)
        ensures
            n == self@.len(),
    {
        self.buf.len()
    }

    /// The bytes buffered toward the next command, oldest first.
    pub fn buffered(&self) -> (s: &[u8])
        ensures
            s@ == self@,
    {
        self.buf.as_slice()
    }

    /// Handles one polled byte; never blocks. Returns the command to
    /// dispatch when the byte completed a recognized command, and `None`
    /// otherwise (absence of a byte this tick is simply not fed).
    pub fn feed_byte(&mut self, byte: u8) -> (r: Option<Command>)
        requires
            old(self).wf(),
        ensures
            final(self).wf(),
            final(self)@ == step_buffer(old(self)@, byte),
            r == step_dispatch(old(self)@, byte),
    {
        if byte == TERMINATOR {
            let parsed = Command::try_from(self.buf.as_slice());
            self.buf.clear();
            match parsed {
                Ok(cmd) => Some(cmd),
                Err(_) => None,
            }
        } else {
            if self.buf.is_full() {
                self.buf.clear();
            }
            self.buf.push(byte);
            None
        }
    }
}

/// Feeding terminator-free bytes that fit in the remaining capacity simply
/// appends them to the buffer.
proof fn lemma_feed_all_appends(s: Seq<u8>, bytes: Seq<u8>)
    requires
        s.len() + bytes.len() <= COMMAND_BUF_SIZE,
        forall|i: int| 0 <= i < bytes.len() ==> bytes[i] != TERMINATOR,
    ensures
        feed_all(s, bytes) == s + bytes,
    decreases bytes.len(),
{
    if bytes.len() == 0 {
        assert(feed_all(s, bytes) =~= s + bytes);
    } else {
        assert(step_buffer(s, bytes[0]) == s.push(bytes[0]));
        lemma_feed_all_appends(s.push(bytes[0]), bytes.drop_first());
        assert(s.push(bytes[0]) + bytes.drop_first() =~= s + bytes);
    }
}

/// Law: a terminator-free byte sequence that fits in the buffer, fed into
/// an empty accumulator and followed by the terminator, dispatches a
/// command exactly when the sequence is a vocabulary token — and then the
/// parsed one; on any other sequence nothing is dispatched, and either way
/// the buffer is left cleared.
pub proof fn lemma_dispatch_iff_token(bytes: Seq<u8>)
    requires
        bytes.len() <= COMMAND_BUF_SIZE,
        forall|i: int| 0 <= i < bytes.len() ==> bytes[i] != TERMINATOR,
    ensures
        feed_all(Seq::<u8>::empty(), bytes) == bytes,
        step_dispatch(feed_all(Seq::<u8>::empty(), bytes), TERMINATOR) == parse_spec(bytes),
        step_dispatch(feed_all(Seq::<u8>::empty(), bytes), TERMINATOR) is Some <==> is_token(bytes),
        step_buffer(feed_all(Seq::<u8>::empty(), bytes), TERMINATOR) == Seq::<u8>::empty(),
{
    lemma_feed_all_appends(Seq::<u8>::empty(), bytes);
    assert(Seq::<u8>::empty() + bytes =~= bytes);
}

/// Law: whatever bytes arrive, in any number, the buffer never exceeds its
/// capacity: overflow always clears before the append.
pub proof fn lemma_buffer_bounded(s: Seq<u8>, bytes: Seq<u8>)
    requires
        s.len() <= COMMAND_BUF_SIZE,
    ensures
        feed_all(s, bytes).len() <= COMMAND_BUF_SIZE,
    decreases bytes.len(),
{
    if bytes.len() > 0 {
        lemma_buffer_bounded(step_buffer(s, bytes[0]), bytes.drop_first());
    }
}

/// Law: the bound holds at every point of the stream, not only at its end:
/// after any prefix of the arriving bytes the buffer is within capacity.
pub proof fn lemma_buffer_bounded_throughout(s: Seq<u8>, bytes: Seq<u8>)
    requires
        s.len() <= COMMAND_BUF_SIZE,
    ensures
        forall|k: int|
            0 <= k <= bytes.len() ==> feed_all(s, #[trigger] bytes.take(k)).len()
                <= COMMAND_BUF_SIZE,
{
    assert forall|k: int| 0 <= k <= bytes.len() implies feed_all(
        s,
        #[trigger] bytes.take(k),
    ).len() <= COMMAND_BUF_SIZE by {
        lemma_buffer_bounded(s, bytes.take(k));
    }
}

} // verus!
