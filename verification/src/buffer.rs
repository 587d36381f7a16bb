//! The growable byte buffer of the `bytes` crate, as the rest of the crate
//! sees it: a sequence of bytes, changed only through the calls below.

use bytes::BytesMut;
use vstd::prelude::*;

verus! {

/// `bytes::BytesMut`, carried opaquely; its contents are `buf_contents`.
#[verifier::external_type_specification]
#[verifier::external_body]
pub struct ExBytesMut(bytes::BytesMut);

/// The bytes that a `BytesMut` holds, first to last.
pub uninterp spec fn buf_contents(b: BytesMut) -> Seq<u8>;

/// `BytesMut::new`: the contract claims that the new buffer is empty.
#[verifier::external_body]
pub(crate) fn buf_new() -> (b: BytesMut)
    ensures
        buf_contents(b) == Seq::<u8>::empty(),
{
    BytesMut::new()
}

/// `BytesMut::from(&[u8])`: the contract claims that the buffer holds a copy
/// of the slice.
#[verifier::external_body]
pub(crate) fn buf_from_slice(data: &[u8]) -> (b: BytesMut)
    ensures
        buf_contents(b) == data@,
{
    BytesMut::from(data)
}

/// `BytesMut::zeroed`: the contract claims that the buffer holds `len` zero
/// bytes.
#[verifier::external_body]
pub(crate) fn buf_zeroed(len: usize) -> (b: BytesMut)
    ensures
        buf_contents(b) == Seq::new(len as nat, |i: int| 0u8),
{
    BytesMut::zeroed(len)
}

/// `<BytesMut as AsRef<[u8]>>::as_ref`: the contract claims that the slice
/// shows the buffer's contents.
#[verifier::external_body]
pub(crate) fn buf_as_slice(b: &BytesMut) -> (s: &[u8])
    ensures
        s@ == buf_contents(*b),
{
    b.as_ref()
}

/// `<BytesMut as AsMut<[u8]>>::as_mut`: the contract claims that the slice
/// shows the buffer's contents and that what is written through it is what
/// the buffer holds afterwards.
#[verifier::external_body]
pub(crate) fn buf_as_mut_slice(b: &mut BytesMut) -> (s: &mut [u8])
    ensures
        s@ == buf_contents(*old(b)),
        buf_contents(*final(b)) == final(s)@,
{
    b.as_mut()
}

/// `<BytesMut as Clone>::clone`: the contract claims that the copy holds the
/// same bytes.
#[verifier::external_body]
pub(crate) fn buf_clone(b: &BytesMut) -> (c: BytesMut)
    ensures
        buf_contents(c) == buf_contents(*b),
{
    b.clone()
}

/// `BytesMut::len`: the contract claims that it is the number of bytes held.
#[verifier::external_body]
pub(crate) fn buf_len(b: &BytesMut) -> (n: usize)
    ensures
        n == buf_contents(*b).len(),
{
    b.len()
}

/// `BytesMut::clear`: the contract claims that the buffer is empty afterwards.
#[verifier::external_body]
pub(crate) fn buf_clear(b: &mut BytesMut)
    ensures
        buf_contents(*final(b)) == Seq::<u8>::empty(),
{
    b.clear()
}

/// `BytesMut::extend_from_slice`: the contract claims that the slice is
/// appended to the contents.
#[verifier::external_body]
pub(crate) fn buf_extend(b: &mut BytesMut, data: &[u8])
    ensures
        buf_contents(*final(b)) == buf_contents(*old(b)) + data@,
{
    b.extend_from_slice(data)
}

/// `BytesMut::split_to`: the contract claims that the first `at` bytes are
/// handed out and the rest stay behind.  The call panics when `at` exceeds the
/// length, so `requires` leaves that out.
#[verifier::external_body]
pub(crate) fn buf_split_to(b: &mut BytesMut, at: usize) -> (front: BytesMut)
    requires
        at <= buf_contents(*old(b)).len(),
    ensures
        buf_contents(front) == buf_contents(*old(b)).subrange(0, at as int),
        buf_contents(*final(b)) == buf_contents(*old(b)).subrange(
            at as int,
            buf_contents(*old(b)).len() as int,
        ),
{
    b.split_to(at)
}

} // verus!
