//! The chunks of a response body, and what is assumed of them.

use bytes::Bytes;
use vstd::prelude::*;

verus! {

/// `bytes::Bytes`: one chunk of a response body.
#[verifier::external_type_specification]
#[verifier::external_body]
pub struct ExBytes(Bytes);

/// What a chunk holds: its bytes, in order.
pub uninterp spec fn chunk_bytes(chunk: Bytes) -> Seq<u8>;

/// `Bytes::len`. Assumed: the number of bytes that the chunk holds.
#[verifier::external_body]
pub(crate) fn chunk_len(chunk: &Bytes) -> (len: usize)
    ensures
        len == chunk_bytes(*chunk).len(),
{
    chunk.len()
}

} // verus!
