//! The bounded vectors of `arrayvec` that hold labels, names and datagrams,
//! and what this library takes for granted of them.

use arrayvec::ArrayVec;
use arrayvec::CapacityError;
use vstd::prelude::*;

verus! {

/// `arrayvec::ArrayVec`, a vector of at most `CAP` items that are stored in
/// the value itself. Nothing is known of a value of it but what the items
/// below state.
#[verifier::external_type_specification]
#[verifier::external_body]
#[verifier::reject_recursive_types(T)]
pub struct ExArrayVec<T, const CAP: usize>(ArrayVec<T, CAP>);

/// `arrayvec::CapacityError`, which `ArrayVec` returns when an item does
/// not fit.
#[verifier::external_type_specification]
#[verifier::external_body]
#[verifier::reject_recursive_types(T)]
pub struct ExCapacityError<T>(CapacityError<T>);

/// The octets that a label's buffer holds, in order.
pub uninterp spec fn label_octets(v: ArrayVec<u8, 63>) -> Seq<u8>;

/// The octets that a name's buffer holds, in order.
pub uninterp spec fn name_octets(v: ArrayVec<u8, 255>) -> Seq<u8>;

/// The octets that a datagram's buffer holds, in order.
pub uninterp spec fn datagram_octets(v: ArrayVec<u8, 512>) -> Seq<u8>;

/// `ArrayVec::new` at capacity 63. Trusted: the new vector holds nothing.
#[verifier::external_body]
pub(crate) fn label_buffer() -> (v: ArrayVec<u8, 63>)
    ensures
        label_octets(v) == Seq::<u8>::empty(),
{
    ArrayVec::new()
}

/// `ArrayVec::try_extend_from_slice` at capacity 63. Trusted: where the
/// slice fits into what is left of the capacity it is appended whole, and
/// else the call fails and the vector keeps its contents.
#[verifier::external_body]
pub(crate) fn label_extend(v: &mut ArrayVec<u8, 63>, other: &[u8]) -> (r: Result<
    (),
    CapacityError,
>)
    ensures
        r is Ok <==> label_octets(*old(v)).len() + other@.len() <= 63,
        r is Ok ==> label_octets(*final(v)) == label_octets(*old(v)) + other@,
        r is Err ==> label_octets(*final(v)) == label_octets(*old(v)),
{
    v.try_extend_from_slice(other)
}

/// `ArrayVec::as_slice` at capacity 63. Trusted: the slice is the vector's
/// contents, which never exceed the capacity.
#[verifier::external_body]
pub(crate) fn label_slice(v: &ArrayVec<u8, 63>) -> (s: &[u8])
    ensures
        s@ == label_octets(*v),
        s@.len() <= 63,
{
    v.as_slice()
}

/// `ArrayVec::new` at capacity 255. Trusted: the new vector holds nothing.
#[verifier::external_body]
pub(crate) fn name_buffer() -> (v: ArrayVec<u8, 255>)
    ensures
        name_octets(v) == Seq::<u8>::empty(),
{
    ArrayVec::new()
}

/// `ArrayVec::try_extend_from_slice` at capacity 255. Trusted: where the
/// slice fits into what is left of the capacity it is appended whole, and
/// else the call fails and the vector keeps its contents.
#[verifier::external_body]
pub(crate) fn name_extend(v: &mut ArrayVec<u8, 255>, other: &[u8]) -> (r: Result<
    (),
    CapacityError,
>)
    ensures
        r is Ok <==> name_octets(*old(v)).len() + other@.len() <= 255,
        r is Ok ==> name_octets(*final(v)) == name_octets(*old(v)) + other@,
        r is Err ==> name_octets(*final(v)) == name_octets(*old(v)),
{
    v.try_extend_from_slice(other)
}

/// `ArrayVec::as_slice` at capacity 255. Trusted: the slice is the vector's
/// contents, which never exceed the capacity.
#[verifier::external_body]
pub(crate) fn name_slice(v: &ArrayVec<u8, 255>) -> (s: &[u8])
    ensures
        s@ == name_octets(*v),
        s@.len() <= 255,
{
    v.as_slice()
}

/// `ArrayVec::new` at capacity 512. Trusted: the new vector holds nothing.
#[verifier::external_body]
pub(crate) fn datagram_buffer() -> (v: ArrayVec<u8, 512>)
    ensures
        datagram_octets(v) == Seq::<u8>::empty(),
{
    ArrayVec::new()
}

/// `ArrayVec::try_extend_from_slice` at capacity 512. Trusted: where the
/// slice fits into what is left of the capacity it is appended whole, and
/// else the call fails and the vector keeps its contents.
#[verifier::external_body]
pub(crate) fn datagram_extend(v: &mut ArrayVec<u8, 512>, other: &[u8]) -> (r: Result<
    (),
    CapacityError,
>)
    ensures
        r is Ok <==> datagram_octets(*old(v)).len() + other@.len() <= 512,
        r is Ok ==> datagram_octets(*final(v)) == datagram_octets(*old(v)) + other@,
        r is Err ==> datagram_octets(*final(v)) == datagram_octets(*old(v)),
{
    v.try_extend_from_slice(other)
}

/// `ArrayVec::as_slice` at capacity 512. Trusted: the slice is the vector's
/// contents, which never exceed the capacity.
#[verifier::external_body]
pub(crate) fn datagram_slice(v: &ArrayVec<u8, 512>) -> (s: &[u8])
    ensures
        s@ == datagram_octets(*v),
        s@.len() <= 512,
{
    v.as_slice()
}

} // verus!
