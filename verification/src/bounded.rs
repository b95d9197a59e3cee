//! The bounded byte buffer that holds a node's properties.
//!
//! The buffer is `frame_support::BoundedVec`, which `frame_support` hands on from the crate
//! `bounded-collections`. Verus does not look inside it: what it holds, and what its methods
//! do, is stated here and believed, not proved.

use frame_support::traits::ConstU32;
use frame_support::BoundedVec;
use vstd::prelude::*;

verus! {

/// `frame_support::BoundedVec` (`bounded_collections::BoundedVec`), a vector that keeps its
/// length under a bound. Opaque to Verus.
#[verifier::external_type_specification]
#[verifier::external_body]
#[verifier::reject_recursive_types(T)]
#[verifier::reject_recursive_types(S)]
pub struct ExBoundedVec<T, S>(BoundedVec<T, S>);

/// `frame_support::traits::ConstU32` (`bounded_collections::ConstU32`), the type-level
/// constant that carries the bound. Opaque to Verus.
#[verifier::external_type_specification]
#[verifier::external_body]
pub struct ExConstU32<const N: u32>(ConstU32<N>);

/// The largest number of bytes that a node's properties may take.
pub const MAX_NODE_PARAMS_LEN: usize = 2048;

/// A byte buffer of at most `MAX_NODE_PARAMS_LEN` bytes.
pub type BoundedBytes = BoundedVec<u8, ConstU32<2048>>;

/// The bytes that a bounded buffer holds, in order.
pub uninterp spec fn bounded_bytes(buffer: BoundedVec<u8, ConstU32<2048>>) -> Seq<u8>;

/// `BoundedVec::try_from(Vec<u8>)`, believed: a vector of at most 2048 bytes becomes a buffer
/// with the same bytes; a longer one is handed back untouched as the error.
#[verifier::external_body]
pub(crate) fn bounded_from_vec(bytes: Vec<u8>) -> (r: Result<BoundedBytes, Vec<u8>>)
    ensures
        bytes@.len() <= MAX_NODE_PARAMS_LEN ==> r is Ok && bounded_bytes(r->Ok_0) == bytes@,
        bytes@.len() > MAX_NODE_PARAMS_LEN ==> r is Err && r->Err_0@ == bytes@,
{
    BoundedVec::try_from(bytes)
}

/// `BoundedVec::clone`, believed: the copy holds the same bytes.
#[verifier::external_body]
pub(crate) fn bounded_clone(buffer: &BoundedBytes) -> (r: BoundedBytes)
    ensures
        bounded_bytes(r) == bounded_bytes(*buffer),
{
    buffer.clone()
}

} // verus!
