use vstd::prelude::*;

use core::ops::{Range, RangeFrom, RangeInclusive, RangeTo, RangeToInclusive};

use crate::index::{OsStrIndex, OsStrIndexError};
use crate::item_search::lemma_item_found_iff_held;
use crate::os_string::{OsStrItems, OsString, PlatformSpecificType};
use crate::sealed::Sealed;
use crate::search::{
    leading_match_end, match_ending_at, split_at_match, stripped_prefix, stripped_suffix, units_of,
    OsStrPattern,
};

verus! {

/// Searching and slicing operations on native strings.
pub trait OsStrManip: View<V = Seq<PlatformSpecificType>> + Sealed {
    /// A traversal of the string's units, in order.
    fn items(&self) -> (r: OsStrItems<'_>)
        ensures
            r@ == self@,
    ;

    /// The unit at a position, or a new string of the units in a range; the error
    /// says why the index does not fit the string.
    fn index<T: OsStrIndex>(&self, idx: T) -> (r: Result<T::Output, OsStrIndexError>)
        ensures
            idx.fits(self@.len()) ==> (r matches Ok(o) && o@ == idx.selection(self@)),
            !idx.fits(self@.len()) ==> r == Err::<T::Output, OsStrIndexError>(
                idx.refusal(self@.len()),
            ),
    ;

    /// Like [`index`](OsStrManip::index), for an index that is known to fit.
    fn index_unchecked<T: OsStrIndex>(&self, idx: T) -> (r: T::Output)
        requires
            idx.fits(self@.len()),
        ensures
            r@ == idx.selection(self@),
    ;

    /// Whether the string starts with the pattern.
    fn starts_with<'a, P: OsStrPattern<'a>>(&'a self, pat: P) -> (r: bool)
        requires
            pat.wf(),
        ensures
            r == leading_match_end(pat.spec_steps(self@)) is Some,
    ;

    /// Whether the string ends with the pattern.
    fn ends_with<'a, P: OsStrPattern<'a>>(&'a self, pat: P) -> (r: bool)
        requires
            pat.wf(),
        ensures
            r == match_ending_at(pat.spec_steps(self@), self@.len()) is Some,
    ;

    /// Whether the string contains the pattern.
    fn contains<'a, P: OsStrPattern<'a>>(&'a self, pat: P) -> (r: bool)
        requires
            pat.wf(),
        ensures
            r == split_at_match(pat.spec_steps(self@)).0 is Some,
    ;

    /// The string without the prefix that matches the pattern, if it has one.
    fn strip_prefix<'a, P: OsStrPattern<'a>>(&'a self, pat: P) -> (r: Option<OsString>)
        requires
            pat.wf(),
        ensures
            units_of(r) == stripped_prefix(pat.spec_steps(self@), self@),
    ;

    /// The string without the suffix that matches the pattern, if it has one.
    fn strip_suffix<'a, P: OsStrPattern<'a>>(&'a self, pat: P) -> (r: Option<OsString>)
        requires
            pat.wf(),
        ensures
            units_of(r) == stripped_suffix(pat.spec_steps(self@), self@),
    ;
}

impl OsStrManip for OsString {
    fn items(&self) -> (r: OsStrItems<'_>) {
        OsStrItems::of(self)
    }

    fn index<T: OsStrIndex>(&self, idx: T) -> (r: Result<T::Output, OsStrIndexError>) {
        idx.index_of(self)
    }

    fn index_unchecked<T: OsStrIndex>(&self, idx: T) -> (r: T::Output) {
        idx.index_of_unchecked(self)
    }

    fn starts_with<'a, P: OsStrPattern<'a>>(&'a self, pat: P) -> (r: bool) {
        pat.is_prefix_of(self)
    }

    fn ends_with<'a, P: OsStrPattern<'a>>(&'a self, pat: P) -> (r: bool) {
        pat.is_suffix_of(self)
    }

    fn contains<'a, P: OsStrPattern<'a>>(&'a self, pat: P) -> (r: bool) {
        pat.is_contained_in(self)
    }

    fn strip_prefix<'a, P: OsStrPattern<'a>>(&'a self, pat: P) -> (r: Option<OsString>) {
        pat.strip_prefix_of(self)
    }

    fn strip_suffix<'a, P: OsStrPattern<'a>>(&'a self, pat: P) -> (r: Option<OsString>) {
        pat.strip_suffix_of(self)
    }
}

/// Every unit of a string is contained in it: a search for that unit reports a match.
pub proof fn lemma_units_are_contained(s: Seq<PlatformSpecificType>)
    ensures
        forall|k: int|
            0 <= k < s.len() ==> (split_at_match((#[trigger] s[k]).spec_steps(s)).0 is Some),
{
    assert forall|k: int| 0 <= k < s.len() implies (split_at_match(
        (#[trigger] s[k]).spec_steps(s),
    ).0 is Some) by {
        lemma_item_found_iff_held(s, s[k]);
    }
}

/// What a range of offsets `a..b` within `s` selects has `b - a` units, the unit at
/// each offset `k` is the unit of `s` at `a + k`, and each is contained in `s`.
pub open spec fn selects_run(
    s: Seq<PlatformSpecificType>,
    r: Seq<PlatformSpecificType>,
    a: int,
    b: int,
) -> bool {
    &&& r.len() == b - a
    &&& forall|k: int| 0 <= k < r.len() ==> #[trigger] r[k] == s[a + k]
    &&& forall|k: int| 0 <= k < r.len() ==> split_at_match((#[trigger] r[k]).spec_steps(s)).0 is Some
}

/// Proves [`selects_run`] of a run that the sequence operations cut out of `s`.
proof fn lemma_run(s: Seq<PlatformSpecificType>, r: Seq<PlatformSpecificType>, a: int, b: int)
    requires
        0 <= a <= b <= s.len() <= usize::MAX,
        r == s.subrange(a, b),
    ensures
        selects_run(s, r, a, b),
{
    lemma_units_are_contained(s);
    assert forall|k: int| 0 <= k < r.len() implies split_at_match(
        (#[trigger] r[k]).spec_steps(s),
    ).0 is Some by {
        assert(r[k] == s[a + k]);
    }
}

/// A range `a..b` that fits `s` selects `b - a` units, each the unit of `s` at the
/// same offset from `a`, and each contained in `s`.
pub proof fn lemma_range_selection(s: Seq<PlatformSpecificType>, range: Range<usize>)
    requires
        s.len() <= usize::MAX,
        range.fits(s.len()),
    ensures
        selects_run(s, range.selection(s), range.start as int, range.end as int),
{
    lemma_run(s, range.selection(s), range.start as int, range.end as int);
}

/// A range `a..` that fits `s` selects `len - a` units, each the unit of `s` at the
/// same offset from `a`, and each contained in `s`.
pub proof fn lemma_range_from_selection(s: Seq<PlatformSpecificType>, range: RangeFrom<usize>)
    requires
        s.len() <= usize::MAX,
        range.fits(s.len()),
    ensures
        selects_run(s, range.selection(s), range.start as int, s.len() as int),
{
    lemma_run(s, range.selection(s), range.start as int, s.len() as int);
}

/// A range `a..=b` that fits `s` selects `b + 1 - a` units, each the unit of `s` at
/// the same offset from `a`, and each contained in `s`.
pub proof fn lemma_range_inclusive_selection(
    s: Seq<PlatformSpecificType>,
    range: RangeInclusive<usize>,
)
    requires
        s.len() <= usize::MAX,
        range.fits(s.len()),
    ensures
        selects_run(s, range.selection(s), range@.start as int, range@.end + 1),
{
    lemma_run(s, range.selection(s), range@.start as int, range@.end + 1);
}

/// A range `..b` that fits `s` selects `b` units, each the unit of `s` at the same
/// offset, and each contained in `s`.
pub proof fn lemma_range_to_selection(s: Seq<PlatformSpecificType>, range: RangeTo<usize>)
    requires
        s.len() <= usize::MAX,
        range.fits(s.len()),
    ensures
        selects_run(s, range.selection(s), 0, range.end as int),
{
    lemma_run(s, range.selection(s), 0, range.end as int);
}

/// A range `..=b` that fits `s` selects `b + 1` units, each the unit of `s` at the
/// same offset, and each contained in `s`.
pub proof fn lemma_range_to_inclusive_selection(
    s: Seq<PlatformSpecificType>,
    range: RangeToInclusive<usize>,
)
    requires
        s.len() <= usize::MAX,
        range.fits(s.len()),
    ensures
        selects_run(s, range.selection(s), 0, range.end + 1),
{
    lemma_run(s, range.selection(s), 0, range.end + 1);
}

} // verus!
