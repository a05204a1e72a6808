//! Byte buffers that are shared rather than copied.

use vstd::prelude::*;
use bytes::Bytes;

verus! {

/// `bytes::Bytes`: an immutable run of bytes, cheap to clone and to split.
#[verifier::external_type_specification]
#[verifier::external_body]
pub struct ExBytes(bytes::Bytes);

/// The bytes that a `bytes::Bytes` holds.
pub uninterp spec fn contents(b: Bytes) -> Seq<u8>;

/// `bytes::Bytes::len`: the number of bytes.
#[verifier::external_body]
pub(crate) fn bytes_len(b: &Bytes) -> (n: usize)
    ensures
        n == contents(*b).len(),
{
    b.len()
}

/// `bytes::Bytes::split_to`: takes the first `at` bytes off. It panics where
/// there are fewer.
#[verifier::external_body]
pub(crate) fn bytes_split_to(b: &mut Bytes, at: usize) -> (head: Bytes)
    requires
        at <= contents(*old(b)).len(),
    ensures
        contents(head) == contents(*old(b)).take(at as int),
        contents(*final(b)) == contents(*old(b)).skip(at as int),
{
    b.split_to(at)
}

/// `bytes::Bytes::clone`: a second handle on the same bytes.
#[verifier::external_body]
pub(crate) fn bytes_clone(b: &Bytes) -> (copy: Bytes)
    ensures
        contents(copy) == contents(*b),
{
    b.clone()
}

} // verus!
