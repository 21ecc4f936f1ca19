//! A bridge that lets a foreign host create, address and mutate native
//! collections (a hash map, a vector and a slice view over a vector) through
//! opaque handles, with every value carried across the boundary as a
//! [`value::DynamicValue`].
//!
//! The crate root holds the index normaliser: the two functions that turn a
//! signed index supplied by the host into an unsigned offset that is safe to
//! use natively.
use vstd::prelude::*;

pub mod collections;
pub mod handle;
pub mod registry;
pub mod value;

verus! {

/// The offset that a signed index stands for when only a lower bound is
/// wanted: negative indices become zero, every other index is itself.
pub open spec fn saturated(x: int) -> int {
    if x < 0 {
        0
    } else {
        x
    }
}

/// The offset that a signed index stands for in the closed interval from zero
/// to `fallback`: an index inside the interval is itself, every other index is
/// `fallback`.
pub open spec fn bounded_or(x: int, fallback: int) -> int {
    if 0 <= x <= fallback {
        x
    } else {
        fallback
    }
}

/// Clamps a signed index to zero from below. There is no upper clamp.
pub fn saturating_cast(x: isize) -> (offset: usize)
    ensures
        offset == saturated(x as int),
        x < 0 ==> offset == 0,
        x >= 0 ==> offset == x,
{
    if x < 0 {
        0usize
    } else {
        x as usize
    }
}

/// Passes an index in `0..=fallback` through and maps every other index,
/// negative or too large, to `fallback`.
pub fn cast_or(index: isize, fallback: usize) -> (offset: usize)
    ensures
        offset == bounded_or(index as int, fallback as int),
        index < 0 ==> offset == fallback,
        0 <= index <= fallback ==> offset == index,
        index > fallback ==> offset == fallback,
        offset <= fallback,
{
    if index < 0 || index as usize > fallback {
        fallback
    } else {
        index as usize
    }
}

} // verus!
