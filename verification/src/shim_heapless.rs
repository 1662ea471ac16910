//! The `heapless` fixed-capacity vectors that hold frame payloads and the
//! filter's type allowlist.
use vstd::prelude::*;
use crate::protocol::MAX_PAYLOAD;
use crate::filter::MAX_FILTER_TYPES;

verus! {

#[verifier::external_type_specification]
#[verifier::external_body]
#[verifier::reject_recursive_types(T)]
pub struct ExHeaplessVec<T, const N: usize>(heapless::Vec<T, N>);

/// `Clone` of a `heapless::Vec`; nothing is claimed of the copy.
pub assume_specification<T, const N: usize>[ <heapless::Vec<T, N> as Clone>::clone ](
    v: &heapless::Vec<T, N>,
) -> heapless::Vec<T, N>
    where
        T: Clone,
;

/// The bytes held by a payload buffer, in order.
pub uninterp spec fn payload_contents(v: heapless::Vec<u8, MAX_PAYLOAD>) -> Seq<u8>;

/// The type bytes held by a filter allowlist, in order.
pub uninterp spec fn allowlist_contents(v: heapless::Vec<u8, MAX_FILTER_TYPES>) -> Seq<u8>;

/// Calls `heapless::Vec::new`: an empty payload buffer.
#[verifier::external_body]
pub fn payload_new() -> (v: heapless::Vec<u8, MAX_PAYLOAD>)
    ensures
        payload_contents(v) == Seq::<u8>::empty(),
{
    heapless::Vec::new()
}

/// Calls `heapless::Vec::len`; a `Vec<_, N>` never holds more than `N` items.
#[verifier::external_body]
pub fn payload_len(v: &heapless::Vec<u8, MAX_PAYLOAD>) -> (n: usize)
    ensures
        n == payload_contents(*v).len(),
        n <= MAX_PAYLOAD,
{
    v.len()
}

/// Calls `heapless::Vec::as_slice`: the bytes held, as a slice.
#[verifier::external_body]
pub fn payload_as_slice(v: &heapless::Vec<u8, MAX_PAYLOAD>) -> (s: &[u8])
    ensures
        s@ == payload_contents(*v),
        s@.len() <= MAX_PAYLOAD,
{
    v.as_slice()
}

/// Calls `heapless::Vec::extend_from_slice`, which appends all of `other`
/// when it fits in the remaining capacity and otherwise changes nothing and
/// fails.
#[verifier::external_body]
pub fn payload_extend(v: &mut heapless::Vec<u8, MAX_PAYLOAD>, other: &[u8]) -> (r: Result<(), ()>)
    ensures
        r is Ok <==> payload_contents(*old(v)).len() + other@.len() <= MAX_PAYLOAD,
        r is Ok ==> payload_contents(*final(v)) == payload_contents(*old(v)) + other@,
        r is Err ==> payload_contents(*final(v)) == payload_contents(*old(v)),
{
    v.extend_from_slice(other)
}

/// Calls `heapless::Vec::as_slice` on an allowlist.
#[verifier::external_body]
pub fn allowlist_as_slice(v: &heapless::Vec<u8, MAX_FILTER_TYPES>) -> (s: &[u8])
    ensures
        s@ == allowlist_contents(*v),
{
    v.as_slice()
}

/// Calls `heapless::Vec::new`: an empty allowlist.
#[verifier::external_body]
pub fn allowlist_new() -> (v: heapless::Vec<u8, MAX_FILTER_TYPES>)
    ensures
        allowlist_contents(v) == Seq::<u8>::empty(),
{
    heapless::Vec::new()
}

/// Calls `heapless::Vec::push`, which appends `item` when the list holds
/// fewer than [`MAX_FILTER_TYPES`] items and otherwise changes nothing and
/// hands `item` back. The returned item is dropped here.
#[verifier::external_body]
pub fn allowlist_push(v: &mut heapless::Vec<u8, MAX_FILTER_TYPES>, item: u8) -> (r: Result<(), ()>)
    ensures
        r is Ok <==> allowlist_contents(*old(v)).len() < MAX_FILTER_TYPES,
        r is Ok ==> allowlist_contents(*final(v)) == allowlist_contents(*old(v)).push(item),
        r is Err ==> allowlist_contents(*final(v)) == allowlist_contents(*old(v)),
{
    match v.push(item) {
        Ok(()) => Ok(()),
        Err(_) => Err(()),
    }
}

} // verus!
