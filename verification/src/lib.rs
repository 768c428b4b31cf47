//! Containment queries for range-like values.
//!
//! A range-like value is one that holds other values between a start and an
//! end: the interval types of `core::ops`, but also slices and `str`, which
//! hold their elements and sub-slices between the first and the last address
//! of their storage.
//!
//! [`Holds`] asks whether a value is held. [`Reassign`] builds on it for
//! references: a reference that a longer-lived container holds is handed back
//! with the container's lifetime.
//!
//! - [`interval`] implements [`Holds`] for the interval types.
//! - [`extent`] describes where a sequence lies in memory and decides
//!   containment on that description.
//! - [`sequence`] implements [`Holds`] and [`Reassign`] for slices and `str`.

use vstd::prelude::*;

pub mod extent;
pub mod interval;
pub mod sequence;

verus! {

/// A container that can say whether it holds a value.
pub trait Holds<T> {
    /// The answers that [`holds`](Holds::holds) may give for `value`.
    ///
    /// Where the answer is a function of the two values, this fixes it. Where
    /// it also depends on where the values lie in memory, this states what is
    /// true of every answer. An implementation that does not say allows
    /// either answer.
    open spec fn holds_ensures(&self, value: &T, held: bool) -> bool {
        true
    }

    /// Whether `value` lies inside `self`.
    fn holds<'a, 'b>(&'a self, value: &'b T) -> (held: bool)
        ensures
            self.holds_ensures(value, held),
    ;
}

/// A container that can hand a reference it holds back with its own lifetime.
pub trait Reassign<T>: for<'c> Holds<&'c T> where T: ?Sized {
    /// The results that [`reassign`](Reassign::reassign) may give for
    /// `reference`. An implementation that does not say allows any result.
    open spec fn reassign_ensures(&self, reference: &T, reassigned: Option<&T>) -> bool {
        true
    }

    /// The data `reference` points to, borrowed from `self`, where `self` holds it.
    fn reassign<'a, 'b>(&'a self, reference: &'b T) -> (reassigned: Option<&'a T>)
        ensures
            self.reassign_ensures(reference, reassigned),
            reassigned is Some ==> self.holds_ensures(&reference, true),
    ;
}

} // verus!
