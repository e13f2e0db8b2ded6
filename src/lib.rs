use vstd::prelude::*;

pub mod unique_id;
pub mod order;
pub mod request;
pub mod snapshot;
pub mod polling;

pub use order::OrderCore;

verus! {

#[verifier::external_type_specification]
#[verifier::external_body]
pub struct ExStaticId<const N: usize, const M: usize>(static_id::StaticIdNxM<N, M>);

/// Relies on the derived `Clone` of `static_id::StaticIdNxM`, a `Copy` type: a clone is
/// the same id.
pub assume_specification<const N: usize, const M: usize>[ <static_id::StaticIdNxM<N, M> as Clone>::clone ](
    id: &static_id::StaticIdNxM<N, M>,
) -> (r: static_id::StaticIdNxM<N, M>)
    ensures
        r == *id,
;

pub type UnixNano = u64;

pub type BookQuantity = u64;

pub type BookPrice = i64;

pub type OrderId = u64;

pub type TimeStamp = UnixNano;

pub type OrderCount = u64;

/// A yield in basis points.
pub type BookYield = i64;

/// The id of an instrument.
pub type InstId = static_id::StaticId;

/// Sums two quantities.
pub fn add(left: u64, right: u64) -> (r: u64)
    requires
        left + right <= u64::MAX,
    ensures
        r == left + right,
{
    left + right
}

} // verus!
