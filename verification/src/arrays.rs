//! The bounded byte vectors of the crate arrayvec, as far as this library
//! uses them. Everything in this module is taken on trust: the contracts
//! restate what the source of arrayvec shows and are not proved here.

use arrayvec::ArrayVec;
use arrayvec::CapacityError;
use vstd::prelude::*;

verus! {

/// `ArrayVec` of arrayvec: a vector that holds its items in place and never
/// more than `CAP` of them.
#[verifier::external_type_specification]
#[verifier::external_body]
#[verifier::reject_recursive_types(T)]
pub struct ExArrayVec<T, const CAP: usize>(ArrayVec<T, CAP>);

/// `CapacityError` of arrayvec: what did not fit.
#[verifier::external_type_specification]
#[verifier::external_body]
#[verifier::reject_recursive_types(T)]
pub struct ExCapacityError<T>(CapacityError<T>);

/// The bytes that an `ArrayVec` of capacity 36 holds, first to last.
pub uninterp spec fn guid_bytes(array: ArrayVec<u8, 36>) -> Seq<u8>;

/// The bytes that an `ArrayVec` of capacity 30 holds, first to last.
pub uninterp spec fn name_bytes(array: ArrayVec<u8, 30>) -> Seq<u8>;

/// Calls `ArrayVec::try_from` of arrayvec on a slice, for capacity 36. By
/// its source the call fails with a `CapacityError` where the slice is longer
/// than the capacity, and else gives a vector that holds the slice's items in
/// their order.
#[verifier::external_body]
pub(crate) fn guid_array(bytes: &[u8]) -> (res: Result<ArrayVec<u8, 36>, CapacityError>)
    ensures
        res is Ok <==> bytes@.len() <= 36,
        res matches Ok(array) ==> guid_bytes(array) == bytes@,
{
    ArrayVec::try_from(bytes)
}

/// Calls `ArrayVec::as_slice` of arrayvec, for capacity 36: the items held,
/// which are never more than the capacity.
#[verifier::external_body]
pub(crate) fn guid_slice(array: &ArrayVec<u8, 36>) -> (bytes: &[u8])
    ensures
        bytes@ == guid_bytes(*array),
        bytes@.len() <= 36,
{
    array.as_slice()
}

/// Calls `ArrayVec::try_from` of arrayvec on a slice, for capacity 30. By
/// its source the call fails with a `CapacityError` where the slice is longer
/// than the capacity, and else gives a vector that holds the slice's items in
/// their order.
#[verifier::external_body]
pub(crate) fn name_array(bytes: &[u8]) -> (res: Result<ArrayVec<u8, 30>, CapacityError>)
    ensures
        res is Ok <==> bytes@.len() <= 30,
        res matches Ok(array) ==> name_bytes(array) == bytes@,
{
    ArrayVec::try_from(bytes)
}

/// Calls `ArrayVec::as_slice` of arrayvec, for capacity 30: the items held,
/// which are never more than the capacity.
#[verifier::external_body]
pub(crate) fn name_slice(array: &ArrayVec<u8, 30>) -> (bytes: &[u8])
    ensures
        bytes@ == name_bytes(*array),
        bytes@.len() <= 30,
{
    array.as_slice()
}

} // verus!
