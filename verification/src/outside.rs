//! The calls this library makes into outside crates, each behind a contract
//! that the crate's source shows.
use bytes::{Buf, BufMut, IntoBuf};
use rand::Rng;
use vstd::bytes::{spec_u64_from_le_bytes, spec_u64_to_le_bytes};
use vstd::prelude::*;

verus! {

/// `rand::Rng::gen::<u64>` on `rand::thread_rng()`: a fresh random number.
/// Any value may come back, so nothing is stated of it.
#[verifier::external_body]
pub(crate) fn random_u64() -> u64 {
    rand::thread_rng().gen()
}

/// `bytes::Buf::get_u8` on a cursor over `bytes` placed at `pos`: the byte
/// at `pos`. It panics when no byte remains, which `requires` leaves out.
#[verifier::external_body]
pub(crate) fn buf_get_u8(bytes: &[u8], pos: usize) -> (r: u8)
    requires
        pos < bytes@.len(),
    ensures
        r == bytes@[pos as int],
{
    (&bytes[pos..]).into_buf().get_u8()
}

/// `bytes::Buf::get_u64_le` on a cursor over `bytes` placed at `pos`: the
/// eight bytes from `pos` read as a little-endian number. It panics when
/// fewer than eight bytes remain, which `requires` leaves out.
#[verifier::external_body]
pub(crate) fn buf_get_u64_le(bytes: &[u8], pos: usize) -> (r: u64)
    requires
        pos + 8 <= bytes@.len(),
    ensures
        r == spec_u64_from_le_bytes(bytes@.subrange(pos as int, pos + 8)),
{
    (&bytes[pos..]).into_buf().get_u64_le()
}

/// `bytes::Buf::copy_to_slice` on a cursor over `bytes` placed at `pos`:
/// fills `dst` with the next `dst.len()` bytes. It panics when fewer bytes
/// remain, which `requires` leaves out.
#[verifier::external_body]
pub(crate) fn buf_copy_to_slice(bytes: &[u8], pos: usize, dst: &mut Vec<u8>)
    requires
        pos + old(dst)@.len() <= bytes@.len(),
    ensures
        final(dst)@ == bytes@.subrange(pos as int, pos + old(dst)@.len()),
{
    (&bytes[pos..]).into_buf().copy_to_slice(&mut dst[..])
}

/// `bytes::BufMut::put_u8` on a `Vec<u8>`: appends the byte. It panics when
/// the length would pass `usize::MAX`, which `requires` leaves out.
#[verifier::external_body]
pub(crate) fn buf_put_u8(buf: &mut Vec<u8>, n: u8)
    requires
        old(buf)@.len() + 1 <= usize::MAX,
    ensures
        final(buf)@ == old(buf)@.push(n),
{
    buf.put_u8(n)
}

/// `bytes::BufMut::put_u64_le` on a `Vec<u8>`: appends the number as eight
/// little-endian bytes. It panics when the length would pass `usize::MAX`,
/// which `requires` leaves out.
#[verifier::external_body]
pub(crate) fn buf_put_u64_le(buf: &mut Vec<u8>, n: u64)
    requires
        old(buf)@.len() + 8 <= usize::MAX,
    ensures
        final(buf)@ == old(buf)@ + spec_u64_to_le_bytes(n),
{
    buf.put_u64_le(n)
}

/// `bytes::BufMut::put` on a `Vec<u8>` with the bytes of `data`: appends
/// them. It panics when the length would pass `usize::MAX`, which
/// `requires` leaves out.
#[verifier::external_body]
pub(crate) fn buf_put(buf: &mut Vec<u8>, data: &Vec<u8>)
    requires
        old(buf)@.len() + data@.len() <= usize::MAX,
    ensures
        final(buf)@ == old(buf)@ + data@,
{
    buf.put(data)
}

} // verus!

verus! {

/// Declares `futures::sync::mpsc::UnboundedSender`, the sending half of a
/// channel; a value of it is carried through, never looked into.
#[verifier::external_type_specification]
#[verifier::external_body]
#[verifier::reject_recursive_types(T)]
pub struct ExUnboundedSender<T>(futures::sync::mpsc::UnboundedSender<T>);

/// Declares `futures::sync::mpsc::UnboundedReceiver`, the receiving half of
/// a channel; a value of it is carried through, never looked into.
#[verifier::external_type_specification]
#[verifier::external_body]
#[verifier::reject_recursive_types(T)]
pub struct ExUnboundedReceiver<T>(futures::sync::mpsc::UnboundedReceiver<T>);

/// `futures::sync::mpsc::unbounded`: a new channel. Nothing is stated of
/// the two halves, which are opaque here.
#[verifier::external_body]
pub(crate) fn new_channel<T>() -> (futures::sync::mpsc::UnboundedSender<T>, futures::sync::mpsc::UnboundedReceiver<T>) {
    futures::sync::mpsc::unbounded()
}

/// `futures::sync::mpsc::UnboundedSender::clone`: another sending half of
/// the same channel. Nothing is stated of it.
#[verifier::external_body]
pub(crate) fn clone_sender<T>(chan: &futures::sync::mpsc::UnboundedSender<T>) -> futures::sync::mpsc::UnboundedSender<T> {
    chan.clone()
}

/// Proof that a channel took a message: only a send that succeeded gives one.
pub struct Delivered<T> {
    message: Ghost<T>,
}

impl<T> Delivered<T> {
    /// The message the channel took.
    pub closed spec fn message(self) -> T {
        self.message@
    }
}

/// Proof that a channel refused a message: only a send that failed gives one.
pub struct Refused<T> {
    message: Ghost<T>,
}

impl<T> Refused<T> {
    /// The message the channel refused.
    pub closed spec fn message(self) -> T {
        self.message@
    }
}

/// `futures::sync::mpsc::UnboundedSender::unbounded_send`, with the message
/// taken out of the `SendError` by `into_inner`. Whether the send succeeds
/// depends on whether the receiving half is still alive, so either outcome
/// may come. A success comes with proof that the channel took `msg`; a
/// failure with proof that it refused `msg`, and the very message that was
/// handed in. The channel panics once 2^63 messages wait in it; that count
/// is not modelled here and is left unstated.
#[verifier::external_body]
pub(crate) fn channel_send<T>(chan: &futures::sync::mpsc::UnboundedSender<T>, msg: T) -> (r: Result<Delivered<T>, (Refused<T>, T)>)
    ensures
        match r {
            Ok(d) => d.message() == msg,
            Err((f, m)) => f.message() == msg && m == msg,
        },
{
    let ghost sent = msg;
    match chan.unbounded_send(msg) {
        Ok(()) => Ok(Delivered { message: Ghost(sent) }),
        Err(err) => Err((Refused { message: Ghost(sent) }, err.into_inner())),
    }
}

} // verus!

verus! {

/// `std::sync::Arc::<str>::from(&str)`: a shared copy of the string, which
/// holds the same characters.
#[verifier::external_body]
pub(crate) fn arc_from_str(s: &str) -> (r: std::sync::Arc<str>)
    ensures
        (*r)@ == s@,
{
    std::sync::Arc::from(s)
}

} // verus!

verus! {

/// Declares `std::time::Instant`, a point on the monotonic clock; a value
/// of it is carried through, never looked into.
#[verifier::external_type_specification]
#[verifier::external_body]
pub struct ExInstant(std::time::Instant);

/// `std::time::Instant::now`: the present point on the clock. It depends
/// on the time, so nothing is stated of it.
#[verifier::external_body]
pub(crate) fn clock_start() -> std::time::Instant {
    std::time::Instant::now()
}

/// A reading of a server's clock: nanoseconds since its epoch. Only the
/// clock gives one.
pub struct ClockReading {
    nanos: u128,
}

impl ClockReading {
    /// The nanoseconds the reading holds.
    pub closed spec fn value(self) -> u128 {
        self.nanos
    }

    /// The nanoseconds the reading holds.
    pub fn nanos(&self) -> (r: u128)
        ensures
            r == self.value(),
    {
        self.nanos
    }
}

/// `std::time::Instant::elapsed`, as a number of nanoseconds by
/// `Duration::as_nanos`: the time since `start`. It depends on the time;
/// what holds of every outcome is that it is a span a `Duration` can hold.
#[verifier::external_body]
pub(crate) fn elapsed_nanos(start: &std::time::Instant) -> (r: ClockReading)
    ensures
        r.value() <= crate::server::MAX_DURATION_NANOS,
{
    ClockReading { nanos: start.elapsed().as_nanos() }
}

} // verus!
