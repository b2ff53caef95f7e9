//! The contract that every kind of quantity meets: conversion to and from one
//! canonical unit.
use vstd::prelude::*;

verus! {

/// The mathematical content of a quantity: an amount in millionths of `unit`.
pub struct Quantity<U> {
    pub value: int,
    pub unit: U,
}

/// Whether the result `r` holds what `owed` describes: the same error, or a
/// value whose view is the quantity owed.
pub open spec fn holds<T: View, E>(r: Result<T, E>, owed: Result<T::V, E>) -> bool {
    match owed {
        Ok(q) => r matches Ok(t) && t@ == q,
        Err(e) => r matches Err(x) && x == e,
    }
}

/// A kind of quantity whose values convert through one canonical unit.
pub trait Conversion: Sized + View<V = Quantity<<Self as Conversion>::Unit>> {
    type Unit;

    type Error;

    /// What `to_canonical` owes for a value that holds `q`.
    spec fn to_canonical_model(q: Quantity<Self::Unit>) -> Result<Quantity<Self::Unit>, Self::Error>;

    /// What `from_canonical` owes for a canonical value that holds `q` and the unit `target`.
    spec fn from_canonical_model(q: Quantity<Self::Unit>, target: Self::Unit) -> Result<
        Quantity<Self::Unit>,
        Self::Error,
    >;

    /// Expresses `self` in the canonical unit.
    fn to_canonical(self) -> (r: Result<Self, Self::Error>)
        ensures
            holds(r, Self::to_canonical_model(self@)),
    ;

    /// Expresses `canon`, read as an amount of the canonical unit, in `target`.
    fn from_canonical(canon: Self, target: Self::Unit) -> (r: Result<Self, Self::Error>)
        ensures
            holds(r, Self::from_canonical_model(canon@, target)),
    ;
}

/// What `convert` owes: the canonical form of `q`, then that form in `target`.
pub open spec fn convert_model<T: Conversion>(q: Quantity<T::Unit>, target: T::Unit) -> Result<
    Quantity<T::Unit>,
    T::Error,
> {
    match T::to_canonical_model(q) {
        Ok(canon) => T::from_canonical_model(canon, target),
        Err(e) => Err(e),
    }
}

/// Converts `value` to `target` by way of the canonical unit.
pub fn convert<T: Conversion>(value: T, target: T::Unit) -> (r: Result<T, T::Error>)
    ensures
        holds(r, convert_model::<T>(value@, target)),
{
    match value.to_canonical() {
        Ok(canon) => T::from_canonical(canon, target),
        Err(e) => Err(e),
    }
}

} // verus!
