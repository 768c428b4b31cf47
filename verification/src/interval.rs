//! [`Holds`] for the interval types of `core::ops`.
//!
//! An interval holds a value that lies between its bounds in the order that
//! `PartialOrd` gives the value's type. Each bound is compared by one call of
//! `<`, `<=` or `>=`, so a value that the order does not relate to a bound is
//! not held. What the comparisons answer is known for a type whose
//! `obeys_partial_cmp_spec` holds, as it does for the integers.

use crate::Holds;
use core::ops::{Range, RangeFrom, RangeFull, RangeInclusive, RangeTo, RangeToInclusive};
use vstd::prelude::*;
use vstd::std_specs::cmp::{PartialOrdIs, PartialOrdSpec};

verus! {

/// `core::ops::RangeFrom`, read as it is defined: one public field, `start`.
/// Nothing is assumed of it.
#[verifier::external_type_specification]
#[verifier::reject_recursive_types(Idx)]
pub struct ExRangeFrom<Idx>(core::ops::RangeFrom<Idx>);

/// `core::ops::RangeTo`, read as it is defined: one public field, `end`.
/// Nothing is assumed of it.
#[verifier::external_type_specification]
#[verifier::reject_recursive_types(Idx)]
pub struct ExRangeTo<Idx>(core::ops::RangeTo<Idx>);

/// `core::ops::RangeToInclusive`, read as it is defined: one public field,
/// `end`. Nothing is assumed of it.
#[verifier::external_type_specification]
#[verifier::reject_recursive_types(Idx)]
pub struct ExRangeToInclusive<Idx>(core::ops::RangeToInclusive<Idx>);

/// `core::ops::RangeFull`, read as it is defined: a struct without fields.
/// Nothing is assumed of it.
#[verifier::external_type_specification]
pub struct ExRangeFull(core::ops::RangeFull);

/// `RangeInclusive::start` returns the lower bound of the interval, which is
/// the `start` of the view that vstd gives the type.
pub assume_specification<Idx>[ core::ops::RangeInclusive::<Idx>::start ](
    interval: &RangeInclusive<Idx>,
) -> (start: &Idx)
    ensures
        *start == interval@.start,
;

/// `RangeInclusive::end` returns the upper bound of the interval, which is
/// the `end` of the view that vstd gives the type.
pub assume_specification<Idx>[ core::ops::RangeInclusive::<Idx>::end ](
    interval: &RangeInclusive<Idx>,
) -> (end: &Idx)
    ensures
        *end == interval@.end,
;

/// `start..end` holds `value` iff `start <= value < end`.
impl<T: PartialOrd<T>> Holds<T> for Range<T> {
    open spec fn holds_ensures(&self, value: &T, held: bool) -> bool {
        T::obeys_partial_cmp_spec() ==> held == (self.start.is_le(value) && value.is_lt(&self.end))
    }

    #[inline]
    fn holds<'a, 'b>(&'a self, value: &'b T) -> (held: bool) {
        self.start <= *value && *value < self.end
    }
}

/// `start..` holds `value` iff `value >= start`.
impl<T: PartialOrd<T>> Holds<T> for RangeFrom<T> {
    open spec fn holds_ensures(&self, value: &T, held: bool) -> bool {
        T::obeys_partial_cmp_spec() ==> held == value.is_ge(&self.start)
    }

    #[inline]
    fn holds<'a, 'b>(&'a self, value: &'b T) -> (held: bool) {
        *value >= self.start
    }
}

/// `..` holds every value.
impl<T: PartialOrd<T>> Holds<T> for RangeFull {
    open spec fn holds_ensures(&self, value: &T, held: bool) -> bool {
        held
    }

    #[inline]
    fn holds<'a, 'b>(&'a self, _value: &'b T) -> (held: bool) {
        true
    }
}

/// `start..=end` holds `value` iff `start <= value <= end`.
impl<T: PartialOrd<T>> Holds<T> for RangeInclusive<T> {
    open spec fn holds_ensures(&self, value: &T, held: bool) -> bool {
        T::obeys_partial_cmp_spec() ==> held == (self@.start.is_le(value) && value.is_le(
            &self@.end,
        ))
    }

    #[inline]
    fn holds<'a, 'b>(&'a self, value: &'b T) -> (held: bool) {
        *self.start() <= *value && *value <= *self.end()
    }
}

/// `..end` holds `value` iff `value < end`.
impl<T: PartialOrd<T>> Holds<T> for RangeTo<T> {
    open spec fn holds_ensures(&self, value: &T, held: bool) -> bool {
        T::obeys_partial_cmp_spec() ==> held == value.is_lt(&self.end)
    }

    #[inline]
    fn holds<'a, 'b>(&'a self, value: &'b T) -> (held: bool) {
        *value < self.end
    }
}

/// `..=end` holds `value` iff `value <= end`.
impl<T: PartialOrd<T>> Holds<T> for RangeToInclusive<T> {
    open spec fn holds_ensures(&self, value: &T, held: bool) -> bool {
        T::obeys_partial_cmp_spec() ==> held == value.is_le(&self.end)
    }

    #[inline]
    fn holds<'a, 'b>(&'a self, value: &'b T) -> (held: bool) {
        *value <= self.end
    }
}

} // verus!
