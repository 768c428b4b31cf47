//! The place of a sequence in memory, as plain numbers.
//!
//! A slice is a run of equally wide elements: it starts at an address, holds
//! a number of elements, and ends where its last element ends. Whether one
//! slice lies inside another is a question about these numbers alone. An
//! [`Extent`] holds them, and [`Span`] is what they mean.

use crate::Holds;
use vstd::prelude::*;

verus! {

/// A run of `len` elements, each `width` bytes wide, the first at address `start`.
pub struct Span {
    pub start: nat,
    pub len: nat,
    pub width: nat,
}

impl Span {
    /// The address one past the last element.
    pub open spec fn end(self) -> nat {
        self.start + self.len * self.width
    }

    /// Whether the run ends inside the address space.
    pub open spec fn fits(self) -> bool {
        self.end() <= usize::MAX
    }

    /// Whether `other` starts and ends between the start and the end of `self`,
    /// both included.
    pub open spec fn contains(self, other: Span) -> bool {
        self.start <= other.start && other.start <= self.end() && other.end() <= self.end()
    }

    /// The `len` elements of `self` that begin with the element at index `first`.
    pub open spec fn window(self, first: nat, len: nat) -> Span {
        Span { start: self.start + first * self.width, len, width: self.width }
    }

    /// Whether `other` is made of elements of `self`, the first of them at
    /// index `first`.
    pub open spec fn has_window_at(self, other: Span, first: nat) -> bool {
        first + other.len <= self.len && other == self.window(first, other.len)
    }

    /// The index in `self` of the first element of `other`, where `other` is
    /// made of elements of `self`.
    ///
    /// Elements of no width all lie at one address, so any index would do for
    /// them: the answer is then the first index.
    pub open spec fn index_of(self, other: Span) -> Option<nat> {
        if !self.contains(other) || other.width != self.width || other.len > self.len {
            None
        } else if self.width == 0 {
            Some(0)
        } else if (other.start - self.start) % (self.width as int) != 0 {
            None
        } else {
            Some(((other.start - self.start) / (self.width as int)) as nat)
        }
    }

    /// `other`, vouched for by `self`, where `self` contains it.
    pub open spec fn reassign(self, other: Span) -> Option<Span> {
        if self.contains(other) {
            Some(other)
        } else {
            None
        }
    }
}

/// Every run of elements taken from a sequence is contained in it.
pub proof fn lemma_window_contained(container: Span, first: nat, len: nat)
    requires
        first + len <= container.len,
    ensures
        container.contains(container.window(first, len)),
{
    let w: nat = container.width;
    assert(first * w + len * w == (first + len) * w) by (nonlinear_arith);
    assert((first + len) * w <= container.len * w) by (nonlinear_arith)
        requires
            first + len <= container.len,
    ;
}

/// A sequence that starts before the container starts, or ends after it
/// ends, is not contained in it.
pub proof fn lemma_outside_not_contained(container: Span, other: Span)
    requires
        other.start < container.start || other.end() > container.end(),
    ensures
        !container.contains(other),
{
}

/// A sequence without elements that lies exactly at the end of the container
/// is contained in it, whatever the width of its elements.
pub proof fn lemma_empty_at_end_contained(container: Span, width: nat)
    ensures
        container.contains((Span { start: container.end(), len: 0, width })),
        container.contains(container.window(container.len, 0)),
{
    assert(0 * width == 0) by (nonlinear_arith);
    assert(0 * container.width == 0) by (nonlinear_arith);
}

/// A run of elements taken from a sequence is reassigned by it, unchanged.
pub proof fn lemma_window_reassigned(container: Span, first: nat, len: nat)
    requires
        first + len <= container.len,
    ensures
        container.reassign(container.window(first, len)) == Some(container.window(first, len)),
{
    lemma_window_contained(container, first, len);
}

/// Where `index_of` finds an index, `other` is the run of elements of the
/// container that begins there.
pub proof fn lemma_index_of_is_window(container: Span, other: Span)
    ensures
        container.index_of(other) matches Some(first) ==> container.has_window_at(other, first),
{
    if let Some(first) = container.index_of(other) {
        let w: nat = container.width;
        if w == 0 {
            assert(container.len * w == 0) by (nonlinear_arith)
                requires
                    w == 0,
            ;
            assert(first * w == 0) by (nonlinear_arith)
                requires
                    w == 0,
            ;
        } else {
            let d: int = other.start - container.start;
            assert(first * w == d) by (nonlinear_arith)
                requires
                    w > 0,
                    d >= 0,
                    d % (w as int) == 0,
                    first == d / (w as int),
            ;
            assert(first + other.len <= container.len) by (nonlinear_arith)
                requires
                    w > 0,
                    first * w + other.len * w <= container.len * w,
            ;
        }
    }
}

/// `index_of` finds a run of elements taken from a sequence: at the index
/// where it was taken if the elements have a width, at the first index if
/// they have none.
pub proof fn lemma_window_index_of(container: Span, first: nat, len: nat)
    requires
        first + len <= container.len,
    ensures
        container.width != 0 ==> container.index_of(container.window(first, len)) == Some(first),
        container.width == 0 ==> container.index_of(container.window(first, len)) == Some(0nat),
{
    lemma_window_contained(container, first, len);
    let w: nat = container.width;
    if w > 0 {
        let d: nat = first * w;
        assert(d % w == 0 && d / w == first) by (nonlinear_arith)
            requires
                w > 0,
                d == first * w,
        ;
    }
}

/// The place of a sequence in memory: the address of its first element, the
/// number of its elements and the width of one element in bytes.
///
/// An `Extent` always ends inside the address space.
#[derive(Clone, Copy, Debug, PartialEq, Eq, Structural)]
pub struct Extent {
    start: usize,
    len: usize,
    width: usize,
}

impl View for Extent {
    type V = Span;

    closed spec fn view(&self) -> Span {
        Span { start: self.start as nat, len: self.len as nat, width: self.width as nat }
    }
}

/// Moves `addr` forward by `count` elements of `width` bytes.
///
/// A count beyond the largest offset that a signed pointer offset can express
/// is not taken in one step: the move is then made in two, that largest
/// offset first and the rest after it. Neither step can overflow, as each
/// ends at or before the address that the caller has shown to exist.
fn offset(addr: usize, count: usize, width: usize) -> (moved: usize)
    requires
        addr + count * width <= usize::MAX,
    ensures
        moved == addr + count * width,
{
    let step: usize = isize::MAX as usize;
    match count.checked_sub(step) {
        Some(rest) => {
            assert(step * width + rest * width == count * width) by (nonlinear_arith)
                requires
                    step + rest == count,
            ;
            assert(0 <= step * width && 0 <= rest * width) by (nonlinear_arith);
            let mid: usize = addr + step * width;
            mid + rest * width
        },
        None => addr + count * width,
    }
}

impl Extent {
    #[verifier::type_invariant]
    spec fn inv(&self) -> bool {
        self@.fits()
    }

    /// The extent of `len` elements of `width` bytes at `start`, unless it
    /// would end beyond the address space.
    pub fn new(start: usize, len: usize, width: usize) -> (made: Option<Extent>)
        ensures
            made is Some <==> (Span {
                start: start as nat,
                len: len as nat,
                width: width as nat,
            }).fits(),
            made matches Some(extent) ==> extent@ == (Span {
                start: start as nat,
                len: len as nat,
                width: width as nat,
            }),
    {
        match len.checked_mul(width) {
            Some(bytes) => match start.checked_add(bytes) {
                Some(_) => Some(Extent { start, len, width }),
                None => None,
            },
            None => None,
        }
    }

    /// The address of the first element.
    pub fn start(&self) -> (start: usize)
        ensures
            start == self@.start,
    {
        self.start
    }

    /// The number of elements.
    pub fn len(&self) -> (len: usize)
        ensures
            len == self@.len,
    {
        self.len
    }

    /// The width of one element in bytes.
    pub fn width(&self) -> (width: usize)
        ensures
            width == self@.width,
    {
        self.width
    }

    /// The address one past the last element.
    pub fn end(&self) -> (end: usize)
        ensures
            end == self@.end(),
    {
        proof {
            use_type_invariant(self);
        }
        offset(self.start, self.len, self.width)
    }

    /// The extent of the `len` elements that begin with the element at index
    /// `first`, where `self` has that many.
    pub fn window(&self, first: usize, len: usize) -> (made: Option<Extent>)
        ensures
            made is Some <==> first + len <= self@.len,
            made matches Some(extent) ==> extent@ == self@.window(first as nat, len as nat),
    {
        if first <= self.len && len <= self.len - first {
            proof {
                use_type_invariant(self);
                lemma_window_contained(self@, first as nat, len as nat);
            }
            let start: usize = offset(self.start, first, self.width);
            Some(Extent { start, len, width: self.width })
        } else {
            None
        }
    }

    /// The index in `self` of the first element of `value`, where `value` is
    /// made of elements of `self`.
    pub fn index_of(&self, value: &Extent) -> (index: Option<usize>)
        ensures
            index matches Some(first) ==> self@.index_of(value@) == Some(first as nat),
            index is None ==> self@.index_of(value@) is None,
    {
        if !self.holds(value) || value.width != self.width || value.len > self.len {
            None
        } else if self.width == 0 {
            Some(0)
        } else {
            let distance: usize = value.start - self.start;
            if distance % self.width != 0 {
                None
            } else {
                Some(distance / self.width)
            }
        }
    }

    /// `value`, vouched for by `self`, where `self` holds it.
    pub fn reassign(&self, value: &Extent) -> (reassigned: Option<Extent>)
        ensures
            reassigned matches Some(extent) ==> extent == *value && self@.reassign(value@) == Some(
                value@,
            ),
            reassigned is None ==> self@.reassign(value@) is None,
    {
        if self.holds(value) {
            Some(*value)
        } else {
            None
        }
    }
}

impl Holds<Extent> for Extent {
    open spec fn holds_ensures(&self, value: &Extent, held: bool) -> bool {
        held == self@.contains(value@)
    }

    fn holds<'a, 'b>(&'a self, value: &'b Extent) -> (held: bool) {
        let start: usize = self.start();
        let end: usize = self.end();
        let val_start: usize = value.start();
        let val_end: usize = value.end();
        start <= val_start && val_start <= end && val_end <= end
    }
}

} // verus!
