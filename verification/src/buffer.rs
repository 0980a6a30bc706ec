//! The byte buffer that frames are written to and read from: `BytesMut` of
//! the `bytes` crate. Verus cannot see inside it, so what it holds has a
//! name, [`buffered`], and each of its methods that the codec calls has a
//! contract over that name. These contracts are taken on trust.
use vstd::prelude::*;
use bytes::BytesMut;

verus! {

#[verifier::external_type_specification]
#[verifier::external_body]
pub struct ExBytesMut(bytes::BytesMut);

/// The bytes that the buffer holds, first to last.
pub uninterp spec fn buffered(buf: BytesMut) -> Seq<u8>;

/// `BytesMut::as_ref`: the bytes of the buffer as a slice.
#[verifier::external_body]
pub(crate) fn contents(buf: &BytesMut) -> (bytes: &[u8])
    ensures
        bytes@ == buffered(*buf),
{
    buf.as_ref()
}

/// `BytesMut::extend_from_slice`: reserves room for all of `extend`, then
/// appends it. What the buffer held stays in front. The call panics when
/// the new length overflows, so lengths past `isize::MAX`, which no
/// allocation can have, are left out.
#[verifier::external_body]
pub(crate) fn extend(buf: &mut BytesMut, extend: &[u8])
    requires
        buffered(*old(buf)).len() + extend@.len() <= isize::MAX,
    ensures
        buffered(*final(buf)) == buffered(*old(buf)) + extend@,
{
    buf.extend_from_slice(extend)
}

/// `BytesMut::split_to`: takes the first `at` bytes out of the buffer and
/// returns them; the rest stays. The call panics when `at` is past the end,
/// so that is left out.
#[verifier::external_body]
pub(crate) fn split_to(buf: &mut BytesMut, at: usize) -> (head: BytesMut)
    requires
        at <= buffered(*old(buf)).len(),
    ensures
        buffered(head) == buffered(*old(buf)).take(at as int),
        buffered(*final(buf)) == buffered(*old(buf)).skip(at as int),
{
    buf.split_to(at)
}

} // verus!
