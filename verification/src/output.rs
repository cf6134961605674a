//! What this library relies on of `bytes::BytesMut`, the container that
//! callers hand in to receive sample payloads.
//!
//! Nothing in this file is proved: each item states, for the verifier, what
//! the `bytes` crate does.

use bytes::BytesMut;
use vstd::prelude::*;

verus! {

/// `bytes::BytesMut`, taken as an opaque value.
#[verifier::external_type_specification]
#[verifier::external_body]
pub struct ExBytesMut(BytesMut);

/// The bytes that a `BytesMut` holds, from its first to its last: what
/// dereferencing it to a byte slice shows.
pub uninterp spec fn contents(buf: BytesMut) -> Seq<u8>;

/// `BytesMut::clear` sets the length to zero, so the buffer holds no byte
/// afterwards.
pub assume_specification[ BytesMut::clear ](buf: &mut BytesMut)
    ensures
        contents(*final(buf)) == Seq::<u8>::empty(),
;

/// `BytesMut::capacity` returns how many bytes the buffer can hold without
/// reallocating. The number is the allocation's own, so all that is claimed
/// of it is that the bytes already held fit in it.
pub assume_specification[ BytesMut::capacity ](buf: &BytesMut) -> (cap: usize)
    ensures
        cap >= contents(*buf).len(),
;

/// `BytesMut::extend_from_slice` appends the given bytes after those already
/// held, and makes room for them first where there is not enough. Making room
/// panics when more than `isize::MAX` bytes would have to be held, which the
/// precondition rules out.
pub assume_specification[ BytesMut::extend_from_slice ](buf: &mut BytesMut, extend: &[u8])
    requires
        contents(*old(buf)).len() + extend@.len() <= isize::MAX,
    ensures
        contents(*final(buf)) == contents(*old(buf)) + extend@,
;

} // verus!
