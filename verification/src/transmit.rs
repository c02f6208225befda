//! The shared transmit resource: the one outbound serial channel, guarded
//! by a lock with a priority-ceiling discipline.
//!
//! Exclusive access is scoped: a handler acquires the resource, writes its
//! whole response, flushes until every byte is physically out, and releases
//! on every exit path. Exclusivity is carried here by `&mut`: holding the
//! mutable borrow for the whole write-and-flush is what the lock provides
//! on the device, so no two lock sections can interleave their bytes. The
//! wire history records everything flushed since startup.

use vstd::prelude::*;
use vstd::string::StringExecFns;

verus! {

/// The wire contents after one lock section has written and flushed `msg`:
/// the full message follows the prior contents atomically.
pub open spec fn wire_after(wire: Seq<char>, msg: Seq<char>) -> Seq<char> {
    wire + msg
}

/// The single shared handle to the outbound serial channel. Created once
/// at startup; lives for the process lifetime.
pub struct TransmitResource {
    wire: String,
}

impl View for TransmitResource {
    type V = Seq<char>;

    closed spec fn view(&self) -> Seq<char> {
        self.wire@
    }
}

impl TransmitResource {
    /// The transmit resource at startup: nothing sent yet.
    pub fn new() -> (t: TransmitResource)
        ensures
            t@ == Seq::<char>::empty(),
    {
        TransmitResource { wire: String::new() }
    }

    /// One scoped lock section: acquire, write the whole message, flush
    /// until every byte is physically transmitted, release. No byte from
    /// any other writer can land inside the message.
    pub fn lock_write_flush(&mut self, msg: &str)
        ensures
            final(self)@ == wire_after(old(self)@, msg@),
    {
        self.wire.append(msg);
    }

    /// Everything flushed onto the wire since startup.
    pub fn wire_history(&self) -> (s: &str)
        ensures
            s@ == self@,
    {
        self.wire.as_str()
    }
}

/// Law: two handler tasks that both acquire the transmit resource never
/// produce interleaved output. From any prior wire contents, after both
/// lock sections the wire is the prior contents followed by the two full
/// writes, concatenated in acquisition order, whichever order that is.
pub proof fn lemma_writes_never_interleave(wire: Seq<char>, first: Seq<char>, second: Seq<char>)
    ensures
        wire_after(wire_after(wire, first), second) == wire + (first + second),
        wire_after(wire_after(wire, second), first) == wire + (second + first),
{
    assert((wire + first) + second =~= wire + (first + second));
    assert((wire + second) + first =~= wire + (second + first));
}

} // verus!
