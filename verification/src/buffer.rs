//! Immutable byte buffers of the `bytes` crate, as the decoder uses them.
//!
//! Verus cannot look inside a `Bytes`. What one holds is named by
//! [`bytes_seq`], and the functions below are believed, not proved, to treat
//! that content as their contracts say.

use bytes::Bytes;
use vstd::prelude::*;

verus! {

/// `bytes::Bytes`, a value that Verus cannot look inside.
#[verifier::external_type_specification]
#[verifier::external_body]
pub struct ExBytes(bytes::Bytes);

/// The bytes that a buffer holds, first to last.
pub uninterp spec fn bytes_seq(b: Bytes) -> Seq<u8>;

/// `Bytes::copy_from_slice`: a fresh buffer holding a copy of `data`.
#[verifier::external_body]
pub(crate) fn bytes_copy_from_slice(data: &[u8]) -> (b: Bytes)
    ensures
        bytes_seq(b) == data@,
{
    Bytes::copy_from_slice(data)
}

/// `Bytes::from(Vec<u8>)`: the buffer takes over the vector's bytes unchanged.
#[verifier::external_body]
pub(crate) fn bytes_from_vec(data: Vec<u8>) -> (b: Bytes)
    ensures
        bytes_seq(b) == data@,
{
    Bytes::from(data)
}

/// `Vec::<u8>::from(Bytes)`: the vector receives the buffer's bytes unchanged.
#[verifier::external_body]
pub(crate) fn bytes_into_vec(b: Bytes) -> (data: Vec<u8>)
    ensures
        data@ == bytes_seq(b),
{
    Vec::from(b)
}

/// `Bytes::is_empty`: whether the buffer holds no byte.
#[verifier::external_body]
pub(crate) fn bytes_is_empty(b: &Bytes) -> (empty: bool)
    ensures
        empty == (bytes_seq(*b).len() == 0),
{
    b.is_empty()
}

} // verus!
