//! The fixed-capacity command buffer.
//!
//! The buffer is a `heapless::Vec` of bytes: a stack-allocated vector with a
//! fixed maximum capacity and no heap behind it, as the device has no
//! allocator. The vector itself comes from the `heapless` crate and is used
//! through trusted wrappers; everything built on top of it is verified
//! against their contracts.

use vstd::prelude::*;

verus! {

/// Maximum number of command bytes buffered before a terminator must arrive.
pub const COMMAND_BUF_SIZE: usize = 32;

#[verifier::external_type_specification]
#[verifier::external_body]
#[verifier::reject_recursive_types(T)]
pub struct ExHeaplessVec<T, const N: usize>(heapless::Vec<T, N>);

/// The bytes a command buffer currently holds, oldest first.
pub uninterp spec fn stored_bytes(v: heapless::Vec<u8, COMMAND_BUF_SIZE>) -> Seq<u8>;

/// Relies on heapless::Vec::new: a freshly constructed vector is empty.
#[verifier::external_body]
fn hv_new() -> (v: heapless::Vec<u8, COMMAND_BUF_SIZE>)
    ensures
        stored_bytes(v) == Seq::<u8>::empty(),
{
    heapless::Vec::new()
}

/// Relies on heapless::Vec::push: appends the item when the vector holds
/// fewer than `N` elements, and returns the item back untouched when the
/// vector is full.
#[verifier::external_body]
fn hv_push(
    v: &mut heapless::Vec<u8, COMMAND_BUF_SIZE>,
    byte: u8,
) -> (r: Result<(), u8>)
    ensures
        stored_bytes(*old(v)).len() < COMMAND_BUF_SIZE ==> {
            &&& r is Ok
            &&& stored_bytes(*final(v)) == stored_bytes(*old(v)).push(byte)
        },
        stored_bytes(*old(v)).len() >= COMMAND_BUF_SIZE ==> {
            &&& r == Result::<(), u8>::Err(byte)
            &&& stored_bytes(*final(v)) == stored_bytes(*old(v))
        },
{
    v.push(byte)
}

/// Relies on heapless::Vec::clear: removes every element.
#[verifier::external_body]
fn hv_clear(v: &mut heapless::Vec<u8, COMMAND_BUF_SIZE>)
    ensures
        stored_bytes(*final(v)) == Seq::<u8>::empty(),
{
    v.clear()
}

/// Relies on heapless::Vec::as_slice: returns the first `len` initialized
/// elements, in insertion order.
#[verifier::external_body]
fn hv_as_slice(v: &heapless::Vec<u8, COMMAND_BUF_SIZE>) -> (s: &[u8])
    ensures
        s@ == stored_bytes(*v),
{
    v.as_slice()
}

/// Relies on heapless::Vec::is_full: true exactly when the length has
/// reached the capacity `N`.
#[verifier::external_body]
fn hv_is_full(v: &heapless::Vec<u8, COMMAND_BUF_SIZE>) -> (r: bool)
    ensures
        r == (stored_bytes(*v).len() == COMMAND_BUF_SIZE),
{
    v.is_full()
}

/// An ordered sequence of command bytes with fixed maximum capacity,
/// append-only until cleared. Owned exclusively by the receive task.
pub struct CommandBuffer {
    buf: heapless::Vec<u8, COMMAND_BUF_SIZE>,
}

impl View for CommandBuffer {
    type V = Seq<u8>;

    closed spec fn view(&self) -> Seq<u8> {
        stored_bytes(self.buf)
    }
}

impl CommandBuffer {
    /// Invariant: the buffer never holds more than its capacity.
    pub open spec fn wf(&self) -> bool {
        self@.len() <= COMMAND_BUF_SIZE
    }

    /// A new, empty command buffer.
    pub fn new() -> (b: CommandBuffer)
        ensures
            b@ == Seq::<u8>::empty(),
            b.wf(),
    {
        CommandBuffer { buf: hv_new() }
    }

    /// Number of bytes currently buffered.
    pub fn len(&self) -> (n: usize)
        ensures
            n == self@.len(),
    {
        hv_as_slice(&self.buf).len()
    }

    /// True exactly when the buffer has reached its capacity.
    pub fn is_full(&self) -> (r: bool)
        ensures
            r == (self@.len() == COMMAND_BUF_SIZE),
    {
        hv_is_full(&self.buf)
    }

    /// Drops every buffered byte.
    pub fn clear(&mut self)
        ensures
            final(self)@ == Seq::<u8>::empty(),
            final(self).wf(),
    {
        hv_clear(&mut self.buf);
    }

    /// Appends one byte; the caller must have made room first.
    pub fn push(&mut self, byte: u8)
        requires
            old(self)@.len() < COMMAND_BUF_SIZE,
        ensures
            final(self)@ == old(self)@.push(byte),
            final(self).wf(),
    {
        let _ = hv_push(&mut self.buf, byte);
    }

    /// The buffered bytes, oldest first.
    pub fn as_slice(&self) -> (s: &[u8])
        ensures
            s@ == self@,
    {
        hv_as_slice(&self.buf)
    }
}

} // verus!
