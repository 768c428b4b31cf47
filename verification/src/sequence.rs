//! [`Holds`] and [`Reassign`] for slices and `str`.
//!
//! A slice holds another slice whose storage lies inside its own. Where a
//! slice lies is not part of its value: slices with the same elements may lie
//! anywhere. So the answers here depend on addresses that only the running
//! program knows. The addresses are read into an [`Extent`] for each slice,
//! and every decision is made on extents, where the numbers fix it. What can
//! be said of the slices themselves is said of every answer: a slice that is
//! held is no larger than its container, and a reference that is reassigned
//! is a run of elements of the container with the content of the reference
//! that was given.
//!
//! A reference is reassigned as a run of the container's own elements. A
//! slice that the container holds and that is no such run is not reassigned:
//! one that starts between two elements, or one of more elements without
//! width than the container has.

use crate::extent::{lemma_index_of_is_window, Extent};
use crate::{Holds, Reassign};
use vstd::layout::size_of;
use vstd::prelude::*;
use vstd::slice::slice_subrange;
use vstd::string::StringSliceAdditionalSpecFns;
use vstd::utf8::{encode_utf8_decode_utf8, encode_utf8_valid_utf8, valid_utf8};

verus! {

/// The address of the first element of `slice`, from `<[T]>::as_ptr`.
///
/// Nothing is claimed of the address.
#[verifier::external_body]
fn start_address<T>(slice: &[T]) -> (address: usize) {
    slice.as_ptr() as usize
}

/// Whether `left` and `right` are the same storage, from `core::ptr::eq`.
///
/// `core::ptr::eq` compares two slice references by the address of the first
/// element and the number of elements. Two shared slices of one type that
/// agree in both are the same memory and so have the same elements: that is
/// what the contract claims of a `true` answer. It claims nothing of `false`,
/// and nothing of elements without width, which take no memory and may share
/// an address without being the same.
#[verifier::external_body]
fn same_storage<T>(left: &[T], right: &[T]) -> (same: bool)
    ensures
        same && size_of::<T>() != 0 ==> left@ == right@,
{
    core::ptr::eq(left, right)
}

/// `core::slice::from_ref` gives the slice of length one whose element is
/// the referent.
pub assume_specification<T>[ core::slice::from_ref::<T> ](s: &T) -> (slice: &[T])
    ensures
        slice@ == seq![*s],
;

/// The text that `bytes` encode, from `core::str::from_utf8`.
///
/// `core::str::from_utf8` succeeds exactly on well-formed UTF-8 and then
/// gives the same bytes as a `str`.
#[verifier::external_body]
fn text_of<'a>(bytes: &'a [u8]) -> (text: Option<&'a str>)
    ensures
        text is Some <==> valid_utf8(bytes@),
        text matches Some(s) ==> s.spec_bytes() == bytes@,
{
    match core::str::from_utf8(bytes) {
        Ok(text) => Some(text),
        Err(_) => None,
    }
}

/// The `len` elements of `container` that begin at index `first`.
pub open spec fn run_at<T>(container: Seq<T>, first: int, len: nat) -> Seq<T> {
    container.subrange(first, first + len)
}

/// Whether `run` is a run of consecutive elements of `container`.
pub open spec fn is_run_of<T>(run: Seq<T>, container: Seq<T>) -> bool {
    exists|first: int|
        0 <= first && first + run.len() <= container.len() && #[trigger] run_at(
            container,
            first,
            run.len(),
        ) == run
}

/// What is true of every answer to whether a slice with the elements
/// `container` holds a slice with the elements `value`: a slice that is held
/// takes no more bytes than its container, and a container that holds
/// anything takes no more bytes than there are addresses.
pub open spec fn slice_holds_ensures<T>(container: Seq<T>, value: Seq<T>, held: bool) -> bool {
    held ==> value.len() * size_of::<T>() <= container.len() * size_of::<T>() <= usize::MAX
}

/// What is true of every result of reassigning a slice with the elements
/// `reference` to a slice with the elements `container`: a reassigned slice
/// is a run of elements of the container, as long as the reference. Where
/// the elements have a width, it has the elements of the reference. Elements
/// without width lie nowhere, so none of them can be told from another by
/// its place: the run is then the first elements of the container.
pub open spec fn slice_reassign_ensures<T>(
    container: Seq<T>,
    reference: Seq<T>,
    reassigned: Option<Seq<T>>,
) -> bool {
    reassigned matches Some(run) ==> {
        &&& is_run_of(run, container)
        &&& run.len() == reference.len()
        &&& size_of::<T>() != 0 ==> run == reference
        &&& size_of::<T>() == 0 ==> run == run_at(container, 0, reference.len())
    }
}

/// The place of `slice` in memory: as many elements as `slice` has, each as
/// wide as a `T`, at the address where `slice` starts.
///
/// There is no extent of a slice that would end beyond the address space.
/// A slice that takes no bytes ends where it starts, so it has an extent
/// wherever it lies.
fn extent_of<T>(slice: &[T]) -> (extent: Option<Extent>)
    ensures
        extent matches Some(e) ==> e@.len == slice@.len() && e@.width == size_of::<T>()
            && e@.fits(),
        slice@.len() * size_of::<T>() == 0 ==> extent is Some,
{
    Extent::new(start_address(slice), slice.len(), core::mem::size_of::<T>())
}

/// The run of elements of `container` that lies where `reference` lies.
fn run_of<'a, T>(container: &'a [T], reference: &[T]) -> (run: Option<&'a [T]>)
    ensures
        run matches Some(r) ==> slice_reassign_ensures(container@, reference@, Some(r@)),
{
    match (extent_of(container), extent_of(reference)) {
        (Some(whole), Some(part)) => match whole.index_of(&part) {
            Some(first) => {
                proof {
                    lemma_index_of_is_window(whole@, part@);
                    assert(container@.len() == container.len());
                }
                let run = slice_subrange(container, first, first + reference.len());
                if same_storage(run, reference) {
                    assert(run_at(container@, first as int, run@.len()) == run@);
                    Some(run)
                } else {
                    None
                }
            },
            None => None,
        },
        _ => None,
    }
}

/// A slice holds a slice whose storage starts and ends inside its own.
impl<'c, T> Holds<&'c [T]> for [T] {
    open spec fn holds_ensures(&self, value: &&'c [T], held: bool) -> bool {
        slice_holds_ensures(self@, value@, held)
    }

    #[inline]
    fn holds<'a, 'b>(&'a self, value: &'b &'c [T]) -> (held: bool) {
        match (extent_of(self), extent_of(*value)) {
            (Some(whole), Some(part)) => whole.holds(&part),
            _ => false,
        }
    }
}

/// A slice holds an element whose storage lies inside its own.
impl<'c, T> Holds<&'c T> for [T] {
    open spec fn holds_ensures(&self, value: &&'c T, held: bool) -> bool {
        slice_holds_ensures(self@, seq![**value], held)
    }

    #[inline]
    fn holds<'a, 'b>(&'a self, value: &'b &'c T) -> (held: bool) {
        self.holds(&core::slice::from_ref(*value))
    }
}

/// A `str` holds a `str` whose bytes its own bytes hold.
impl<'c> Holds<&'c str> for str {
    open spec fn holds_ensures(&self, value: &&'c str, held: bool) -> bool {
        slice_holds_ensures(self.spec_bytes(), value.spec_bytes(), held)
    }

    #[inline]
    fn holds<'a, 'b>(&'a self, value: &'b &'c str) -> (held: bool) {
        self.as_bytes().holds(&value.as_bytes())
    }
}

/// A slice reassigns a slice it holds as a run of its own elements.
impl<T> Reassign<[T]> for [T] {
    open spec fn reassign_ensures(&self, reference: &[T], reassigned: Option<&[T]>) -> bool {
        slice_reassign_ensures(
            self@,
            reference@,
            match reassigned {
                Some(run) => Some(run@),
                None => None,
            },
        )
    }

    #[inline]
    fn reassign<'a, 'b>(&'a self, reference: &'b [T]) -> (reassigned: Option<&'a [T]>) {
        if self.holds(&reference) {
            run_of(self, reference)
        } else {
            None
        }
    }
}

/// A slice reassigns an element it holds as one of its own elements.
impl<T> Reassign<T> for [T] {
    open spec fn reassign_ensures(&self, reference: &T, reassigned: Option<&T>) -> bool {
        reassigned matches Some(element) ==> {
            &&& self@.contains(*element)
            &&& size_of::<T>() != 0 ==> *element == *reference
            &&& size_of::<T>() == 0 ==> self@.len() > 0 && *element == self@[0]
        }
    }

    #[inline]
    fn reassign<'a, 'b>(&'a self, reference: &'b T) -> (reassigned: Option<&'a T>) {
        match self.reassign(core::slice::from_ref(reference)) {
            Some(run) => Some(&run[0]),
            None => None,
        }
    }
}

/// A `str` reassigns a `str` whose bytes its own bytes reassign.
impl Reassign<str> for str {
    open spec fn reassign_ensures(&self, reference: &str, reassigned: Option<&str>) -> bool {
        &&& slice_reassign_ensures(
            self.spec_bytes(),
            reference.spec_bytes(),
            match reassigned {
                Some(text) => Some(text.spec_bytes()),
                None => None,
            },
        )
        &&& reassigned matches Some(text) ==> text@ == reference@
    }

    #[inline]
    fn reassign<'a, 'b>(&'a self, reference: &'b str) -> (reassigned: Option<&'a str>) {
        match self.as_bytes().reassign(reference.as_bytes()) {
            Some(bytes) => {
                proof {
                    encode_utf8_valid_utf8(reference@);
                }
                let text = text_of(bytes);
                proof {
                    encode_utf8_decode_utf8(reference@);
                    encode_utf8_decode_utf8(text.unwrap()@);
                }
                text
            },
            None => None,
        }
    }
}

} // verus!
