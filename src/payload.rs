//! The data bytes of a command, held in a fixed-capacity vector of eight.
use vstd::prelude::*;

verus! {

/// heapless's fixed-capacity vector, opaque to proofs.
#[verifier::external_type_specification]
#[verifier::external_body]
#[verifier::reject_recursive_types(T)]
pub struct ExVec<T, const N: usize>(heapless::Vec<T, N>);

/// The bytes that a data vector holds, in order.
pub uninterp spec fn payload_bytes(v: heapless::Vec<u8, 8>) -> Seq<u8>;

/// Relies on heapless::Vec::new: a new vector is empty.
#[verifier::external_body]
pub(crate) fn empty_payload() -> (r: heapless::Vec<u8, 8>)
    ensures
        payload_bytes(r) == Seq::<u8>::empty(),
{
    heapless::Vec::new()
}

/// Relies on heapless::Vec::push: the item is appended while the length is under the capacity.
#[verifier::external_body]
pub(crate) fn push_byte(v: &mut heapless::Vec<u8, 8>, b: u8) -> (r: Result<(), u8>)
    ensures
        r is Ok <==> payload_bytes(*old(v)).len() < 8,
        r is Ok ==> payload_bytes(*final(v)) == payload_bytes(*old(v)).push(b),
        r is Err ==> payload_bytes(*final(v)) == payload_bytes(*old(v)),
{
    v.push(b)
}

} // verus!
