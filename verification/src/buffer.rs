//! The shared byte buffer that requests are framed from, and what this
//! library relies on of it without proof.

use vstd::prelude::*;
use tokio_core::io::EasyBuf;

verus! {

/// `tokio_core::io::EasyBuf`, a window onto reference-counted bytes. Nothing
/// inside it is visible to the verifier.
#[verifier::external_type_specification]
#[verifier::external_body]
pub struct ExEasyBuf(EasyBuf);

/// The bytes that a buffer's window currently shows, in order.
pub uninterp spec fn buf_bytes(buf: EasyBuf) -> Seq<u8>;

/// `EasyBuf::as_slice`: trusted to hand out exactly the bytes of the window.
pub assume_specification[ EasyBuf::as_slice ](buf: &EasyBuf) -> (bytes: &[u8])
    ensures
        bytes@ == buf_bytes(*buf),
;

/// `EasyBuf::drain_to`: trusted to cut the first `at` bytes off the front of
/// the window and return them as a buffer of their own. The outside function
/// panics when `at` is past the end, so callers must rule that out.
pub assume_specification[ EasyBuf::drain_to ](buf: &mut EasyBuf, at: usize) -> (front: EasyBuf)
    requires
        at <= buf_bytes(*old(buf)).len(),
    ensures
        buf_bytes(front) == buf_bytes(*old(buf)).subrange(0, at as int),
        buf_bytes(*final(buf)) == buf_bytes(*old(buf)).subrange(
            at as int,
            buf_bytes(*old(buf)).len() as int,
        ),
;

/// `EasyBuf::get_mut` followed by `Vec::extend_from_slice` on the vector it
/// exposes: trusted to leave the window showing its old bytes followed by
/// `extra`.
#[verifier::external_body]
pub(crate) fn buf_append(buf: &mut EasyBuf, extra: &[u8])
    ensures
        buf_bytes(*final(buf)) == buf_bytes(*old(buf)) + extra@,
{
    buf.get_mut().extend_from_slice(extra);
}

} // verus!
