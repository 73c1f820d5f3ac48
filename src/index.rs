use vstd::prelude::*;

use core::ops::{Range, RangeFrom, RangeFull, RangeInclusive, RangeTo, RangeToInclusive};

use crate::os_string::{OsStrItems, OsString, OsStringFromIter, PlatformSpecificType};
use crate::sealed::Sealed;

verus! {

/// `RangeFrom` is read through its public field `start`.
#[verifier::external_type_specification]
#[verifier::reject_recursive_types(Idx)]
pub struct ExRangeFrom<Idx>(RangeFrom<Idx>);

/// `RangeTo` is read through its public field `end`.
#[verifier::external_type_specification]
#[verifier::reject_recursive_types(Idx)]
pub struct ExRangeTo<Idx>(RangeTo<Idx>);

/// `RangeToInclusive` is read through its public field `end`.
#[verifier::external_type_specification]
#[verifier::reject_recursive_types(Idx)]
pub struct ExRangeToInclusive<Idx>(RangeToInclusive<Idx>);

/// `RangeFull` carries no data.
#[verifier::external_type_specification]
pub struct ExRangeFull(RangeFull);

/// Relies on `RangeInclusive::start`: it returns the lower bound the range holds.
pub assume_specification<Idx>[ RangeInclusive::<Idx>::start ](r: &RangeInclusive<Idx>) -> (s: &Idx)
    ensures
        *s == r@.start,
;

/// Relies on `RangeInclusive::end`: it returns the upper bound the range holds.
pub assume_specification<Idx>[ RangeInclusive::<Idx>::end ](r: &RangeInclusive<Idx>) -> (e: &Idx)
    ensures
        *e == r@.end,
;

/// Why a checked index was refused.
#[derive(Clone, Copy, PartialEq, Eq, Debug, Structural)]
pub enum OsStrIndexError {
    /// A bound lies beyond the string's end.
    OutOfBounds,
    /// The lower bound lies above the upper bound.
    InvalidRange,
}

/// A position or a range of unit offsets that selects part of a native string.
///
/// All bounds count units, not characters.
pub trait OsStrIndex: Sealed + Sized {
    /// A single unit for a position, a new string for a range.
    type Output: View;

    /// Whether the index fits a string of `len` units.
    spec fn fits(&self, len: nat) -> bool;

    /// The error reported for a string of `len` units that the index does not fit.
    spec fn refusal(&self, len: nat) -> OsStrIndexError;

    /// What the index selects of the units `s`, where it fits them.
    spec fn selection(&self, s: Seq<PlatformSpecificType>) -> <Self::Output as View>::V;

    /// Selects part of `source`, or says why the index does not fit it.
    fn index_of(self, source: &OsString) -> (r: Result<Self::Output, OsStrIndexError>)
        ensures
            self.fits(source@.len()) ==> (r matches Ok(o) && o@ == self.selection(source@)),
            !self.fits(source@.len()) ==> r == Err::<Self::Output, OsStrIndexError>(
                self.refusal(source@.len()),
            ),
    ;

    /// Selects part of `source`, which the index must fit.
    fn index_of_unchecked(self, source: &OsString) -> (r: Self::Output)
        requires
            self.fits(source@.len()),
        ensures
            r@ == self.selection(source@),
    ;
}

impl Sealed for usize {}

impl OsStrIndex for usize {
    type Output = PlatformSpecificType;

    open spec fn fits(&self, len: nat) -> bool {
        *self < len
    }

    open spec fn refusal(&self, len: nat) -> OsStrIndexError {
        OsStrIndexError::OutOfBounds
    }

    open spec fn selection(&self, s: Seq<PlatformSpecificType>) -> PlatformSpecificType {
        s[*self as int]
    }

    fn index_of(self, source: &OsString) -> (r: Result<PlatformSpecificType, OsStrIndexError>) {
        if self < source.len() {
            Ok(self.index_of_unchecked(source))
        } else {
            Err(OsStrIndexError::OutOfBounds)
        }
    }

    fn index_of_unchecked(self, source: &OsString) -> (r: PlatformSpecificType) {
        source.unit(self)
    }
}

impl Sealed for Range<usize> {}

impl OsStrIndex for Range<usize> {
    type Output = OsString;

    open spec fn fits(&self, len: nat) -> bool {
        self.start <= self.end <= len
    }

    open spec fn refusal(&self, len: nat) -> OsStrIndexError {
        if self.start > self.end {
            OsStrIndexError::InvalidRange
        } else {
            OsStrIndexError::OutOfBounds
        }
    }

    open spec fn selection(&self, s: Seq<PlatformSpecificType>) -> Seq<PlatformSpecificType> {
        s.subrange(self.start as int, self.end as int)
    }

    fn index_of(self, source: &OsString) -> (r: Result<OsString, OsStrIndexError>) {
        if self.start > self.end {
            Err(OsStrIndexError::InvalidRange)
        } else if self.end > source.len() {
            Err(OsStrIndexError::OutOfBounds)
        } else {
            Ok(self.index_of_unchecked(source))
        }
    }

    fn index_of_unchecked(self, source: &OsString) -> (r: OsString) {
        let r = OsStrItems::of(source).skip(self.start).take(self.end - self.start).to_os_string();
        assert(r@ =~= self.selection(source@));
        r
    }
}

impl Sealed for RangeFrom<usize> {}

impl OsStrIndex for RangeFrom<usize> {
    type Output = OsString;

    open spec fn fits(&self, len: nat) -> bool {
        self.start <= len
    }

    open spec fn refusal(&self, len: nat) -> OsStrIndexError {
        OsStrIndexError::OutOfBounds
    }

    open spec fn selection(&self, s: Seq<PlatformSpecificType>) -> Seq<PlatformSpecificType> {
        s.subrange(self.start as int, s.len() as int)
    }

    fn index_of(self, source: &OsString) -> (r: Result<OsString, OsStrIndexError>) {
        if self.start > source.len() {
            Err(OsStrIndexError::OutOfBounds)
        } else {
            Ok(self.index_of_unchecked(source))
        }
    }

    fn index_of_unchecked(self, source: &OsString) -> (r: OsString) {
        assert(self.fits(source@.len()));
        let r = OsStrItems::of(source).skip(self.start).to_os_string();
        assert(r@ =~= self.selection(source@));
        r
    }
}

impl Sealed for RangeFull {}

impl OsStrIndex for RangeFull {
    type Output = OsString;

    open spec fn fits(&self, len: nat) -> bool {
        true
    }

    open spec fn refusal(&self, len: nat) -> OsStrIndexError {
        OsStrIndexError::OutOfBounds
    }

    open spec fn selection(&self, s: Seq<PlatformSpecificType>) -> Seq<PlatformSpecificType> {
        s
    }

    fn index_of(self, source: &OsString) -> (r: Result<OsString, OsStrIndexError>) {
        Ok(self.index_of_unchecked(source))
    }

    fn index_of_unchecked(self, source: &OsString) -> (r: OsString) {
        OsStrItems::of(source).to_os_string()
    }
}

impl Sealed for RangeInclusive<usize> {}

impl OsStrIndex for RangeInclusive<usize> {
    type Output = OsString;

    open spec fn fits(&self, len: nat) -> bool {
        self@.start <= self@.end + 1 && self@.end < len
    }

    open spec fn refusal(&self, len: nat) -> OsStrIndexError {
        if self@.start > self@.end + 1 {
            OsStrIndexError::InvalidRange
        } else {
            OsStrIndexError::OutOfBounds
        }
    }

    open spec fn selection(&self, s: Seq<PlatformSpecificType>) -> Seq<PlatformSpecificType> {
        s.subrange(self@.start as int, self@.end + 1)
    }

    fn index_of(self, source: &OsString) -> (r: Result<OsString, OsStrIndexError>) {
        let start = *self.start();
        let end = *self.end();
        if start > end && start - end > 1 {
            Err(OsStrIndexError::InvalidRange)
        } else if end >= source.len() {
            Err(OsStrIndexError::OutOfBounds)
        } else {
            Ok(self.index_of_unchecked(source))
        }
    }

    fn index_of_unchecked(self, source: &OsString) -> (r: OsString) {
        let start = *self.start();
        let end = *self.end();
        proof {
            source.lemma_len_fits();
        }
        let r = OsStrItems::of(source).skip(start).take(end + 1 - start).to_os_string();
        assert(r@ =~= self.selection(source@));
        r
    }
}

impl Sealed for RangeTo<usize> {}

impl OsStrIndex for RangeTo<usize> {
    type Output = OsString;

    open spec fn fits(&self, len: nat) -> bool {
        self.end <= len
    }

    open spec fn refusal(&self, len: nat) -> OsStrIndexError {
        OsStrIndexError::OutOfBounds
    }

    open spec fn selection(&self, s: Seq<PlatformSpecificType>) -> Seq<PlatformSpecificType> {
        s.subrange(0, self.end as int)
    }

    fn index_of(self, source: &OsString) -> (r: Result<OsString, OsStrIndexError>) {
        if self.end > source.len() {
            Err(OsStrIndexError::OutOfBounds)
        } else {
            Ok(self.index_of_unchecked(source))
        }
    }

    fn index_of_unchecked(self, source: &OsString) -> (r: OsString) {
        assert(self.fits(source@.len()));
        let r = OsStrItems::of(source).take(self.end).to_os_string();
        assert(r@ =~= self.selection(source@));
        r
    }
}

impl Sealed for RangeToInclusive<usize> {}

impl OsStrIndex for RangeToInclusive<usize> {
    type Output = OsString;

    open spec fn fits(&self, len: nat) -> bool {
        self.end < len
    }

    open spec fn refusal(&self, len: nat) -> OsStrIndexError {
        OsStrIndexError::OutOfBounds
    }

    open spec fn selection(&self, s: Seq<PlatformSpecificType>) -> Seq<PlatformSpecificType> {
        s.subrange(0, self.end + 1)
    }

    fn index_of(self, source: &OsString) -> (r: Result<OsString, OsStrIndexError>) {
        if self.end >= source.len() {
            Err(OsStrIndexError::OutOfBounds)
        } else {
            Ok(self.index_of_unchecked(source))
        }
    }

    fn index_of_unchecked(self, source: &OsString) -> (r: OsString) {
        proof {
            source.lemma_len_fits();
        }
        let r = OsStrItems::of(source).take(self.end + 1).to_os_string();
        assert(r@ =~= self.selection(source@));
        r
    }
}

/// For an offset `i` inside `s`, the inclusive range `i..=i`, the range `i..i + 1`
/// and the unit at `i` all fit `s`, and the two ranges select just that unit.
pub proof fn lemma_single_unit_ranges_agree(
    s: Seq<PlatformSpecificType>,
    i: usize,
    inclusive: RangeInclusive<usize>,
    half_open: Range<usize>,
)
    requires
        i < s.len(),
        inclusive@.start == i,
        inclusive@.end == i,
        half_open.start == i,
        half_open.end == i + 1,
    ensures
        inclusive.fits(s.len()),
        half_open.fits(s.len()),
        i.fits(s.len()),
        inclusive.selection(s) == half_open.selection(s),
        half_open.selection(s) == seq![i.selection(s)],
{
    assert(half_open.selection(s) =~= seq![i.selection(s)]);
}

/// The full range fits every string and selects all of it.
pub proof fn lemma_full_range_identity(s: Seq<PlatformSpecificType>, full: RangeFull)
    ensures
        full.fits(s.len()),
        full.selection(s) == s,
{
}

} // verus!
