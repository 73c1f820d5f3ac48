use vstd::prelude::*;

use crate::index::OsStrIndex;
use crate::os_string::{OsString, PlatformSpecificType};
use crate::sealed::Sealed;

verus! {

/// A step reported by [`OsStrSearcher::next`].
///
/// Ranges are half-open unit offsets `start..end` into the searched string.
#[derive(Clone, Copy, PartialEq, Eq, Debug, Structural)]
pub enum OsStrSearchStep {
    /// The range was judged to be a match.
    Match(usize, usize),
    /// The range was ruled out as part of any match.
    Reject(usize, usize),
    /// The searched string is exhausted.
    Done,
}

/// Whether `step` judges a range `start..end` with `start <= end <= len`.
pub open spec fn step_in_bounds(step: OsStrSearchStep, len: nat) -> bool {
    match step {
        OsStrSearchStep::Match(start, end) => start <= end <= len,
        OsStrSearchStep::Reject(start, end) => start <= end <= len,
        OsStrSearchStep::Done => false,
    }
}

/// Whether each of `steps` judges a range within a string of `len` units.
pub open spec fn steps_in_bounds(steps: Seq<OsStrSearchStep>, len: nat) -> bool {
    forall|i: int| 0 <= i < steps.len() ==> step_in_bounds(#[trigger] steps[i], len)
}

/// Whether `steps` tile the offsets `from..len`: the first begins at `from`, each
/// next one where the one before it ended, the last ends at `len`, and none is empty.
pub open spec fn tiles(steps: Seq<OsStrSearchStep>, from: nat, len: nat) -> bool
    decreases steps.len(),
{
    if steps.len() == 0 {
        from == len
    } else {
        match steps[0] {
            OsStrSearchStep::Match(start, end) => start == from && start < end && tiles(
                steps.drop_first(),
                end as nat,
                len,
            ),
            OsStrSearchStep::Reject(start, end) => start == from && start < end && tiles(
                steps.drop_first(),
                end as nat,
                len,
            ),
            OsStrSearchStep::Done => false,
        }
    }
}

/// Pulling steps up to the first match: that match, if there is one, and the
/// steps left after it.
pub open spec fn split_at_match(steps: Seq<OsStrSearchStep>) -> (
    Option<(usize, usize)>,
    Seq<OsStrSearchStep>,
)
    decreases steps.len(),
{
    if steps.len() == 0 {
        (None, steps)
    } else {
        match steps[0] {
            OsStrSearchStep::Match(start, end) => (Some((start, end)), steps.drop_first()),
            _ => split_at_match(steps.drop_first()),
        }
    }
}

/// A search that reports a match at some step finds one when pulled to its first match.
pub proof fn lemma_split_at_match_finds(steps: Seq<OsStrSearchStep>, i: int)
    requires
        0 <= i < steps.len(),
        steps[i] is Match,
    ensures
        split_at_match(steps).0 is Some,
    decreases i,
{
    if !(steps[0] is Match) {
        lemma_split_at_match_finds(steps.drop_first(), i - 1);
    }
}

/// A search whose first match is found holds a match at some step.
pub proof fn lemma_split_at_match_found(steps: Seq<OsStrSearchStep>)
    requires
        split_at_match(steps).0 is Some,
    ensures
        exists|i: int| 0 <= i < steps.len() && #[trigger] steps[i] is Match,
    decreases steps.len(),
{
    if !(steps[0] is Match) {
        lemma_split_at_match_found(steps.drop_first());
        let i = choose|i: int| 0 <= i < steps.drop_first().len() && #[trigger] steps.drop_first()[i] is Match;
        assert(steps[i + 1] is Match);
    }
}

/// The end of the first step, where that step is a match that begins at offset 0.
pub open spec fn leading_match_end(steps: Seq<OsStrSearchStep>) -> Option<usize> {
    if steps.len() == 0 {
        None
    } else {
        match steps[0] {
            OsStrSearchStep::Match(start, end) => if start == 0 {
                Some(end)
            } else {
                None
            },
            _ => None,
        }
    }
}

/// The first match among `steps` that ends at offset `len`.
pub open spec fn match_ending_at(steps: Seq<OsStrSearchStep>, len: nat) -> Option<(usize, usize)>
    decreases steps.len(),
{
    if steps.len() == 0 {
        None
    } else {
        match steps[0] {
            OsStrSearchStep::Match(start, end) => if end == len {
                Some((start, end))
            } else {
                match_ending_at(steps.drop_first(), len)
            },
            _ => match_ending_at(steps.drop_first(), len),
        }
    }
}

/// What is left of `haystack` once a leading match is cut off, if `steps` open with one.
pub open spec fn stripped_prefix(
    steps: Seq<OsStrSearchStep>,
    haystack: Seq<PlatformSpecificType>,
) -> Option<Seq<PlatformSpecificType>> {
    match leading_match_end(steps) {
        Some(end) => Some(haystack.subrange(end as int, haystack.len() as int)),
        None => None,
    }
}

/// What is left of `haystack` once the first match that reaches its end is cut off.
pub open spec fn stripped_suffix(
    steps: Seq<OsStrSearchStep>,
    haystack: Seq<PlatformSpecificType>,
) -> Option<Seq<PlatformSpecificType>> {
    match match_ending_at(steps, haystack.len()) {
        Some((start, _)) => Some(haystack.subrange(0, start as int)),
        None => None,
    }
}

/// The units of an optional string.
pub open spec fn units_of(s: Option<OsString>) -> Option<Seq<PlatformSpecificType>> {
    match s {
        Some(s) => Some(s@),
        None => None,
    }
}

/// The state of a search for a pattern in a string.
///
/// Calling [`next`](OsStrSearcher::next) repeatedly reports the steps of
/// [`pending`](OsStrSearcher::pending) in order, then `Done` for good.
pub trait OsStrSearcher: Sealed + Sized {
    /// Whether the searcher's state is coherent.
    spec fn inv(&self) -> bool;

    /// The steps still to be reported, in order, without the final `Done`.
    spec fn pending(&self) -> Seq<OsStrSearchStep>;

    /// Reports the next step of the search.
    fn next(&mut self) -> (step: OsStrSearchStep)
        requires
            old(self).inv(),
        ensures
            final(self).inv(),
            step is Done <==> old(self).pending().len() == 0,
            old(self).pending().len() == 0 ==> final(self).pending().len() == 0,
            old(self).pending().len() > 0 ==> step == old(self).pending()[0]
                && final(self).pending() == old(self).pending().drop_first(),
    ;

    /// Pulls steps up to the next match and reports its range; `None` once the
    /// search is over.
    fn next_match(&mut self) -> (r: Option<(usize, usize)>)
        requires
            old(self).inv(),
        ensures
            final(self).inv(),
            (r, final(self).pending()) == split_at_match(old(self).pending()),
    {
        loop
            invariant
                self.inv(),
                split_at_match(self.pending()) == split_at_match(old(self).pending()),
            decreases self.pending().len(),
        {
            let ghost before = self.pending();
            match self.next() {
                OsStrSearchStep::Match(start, end) => {
                    return Some((start, end));
                },
                OsStrSearchStep::Done => {
                    return None;
                },
                OsStrSearchStep::Reject(_, _) => {
                    assert(split_at_match(before) == split_at_match(self.pending()));
                },
            }
        }
    }

    /// Behaves exactly as [`next_match`](OsStrSearcher::next_match): despite its
    /// name, it pulls steps up to the next *match* and reports that range.
    fn next_reject(&mut self) -> (r: Option<(usize, usize)>)
        requires
            old(self).inv(),
        ensures
            final(self).inv(),
            (r, final(self).pending()) == split_at_match(old(self).pending()),
    {
        loop
            invariant
                self.inv(),
                split_at_match(self.pending()) == split_at_match(old(self).pending()),
            decreases self.pending().len(),
        {
            let ghost before = self.pending();
            match self.next() {
                OsStrSearchStep::Match(start, end) => {
                    return Some((start, end));
                },
                OsStrSearchStep::Done => {
                    return None;
                },
                OsStrSearchStep::Reject(_, _) => {
                    assert(split_at_match(before) == split_at_match(self.pending()));
                },
            }
        }
    }
}

/// Something to search for in a native string.
///
/// A pattern is lowered to a [`Searcher`](OsStrPattern::Searcher) bound to the
/// string searched, and the derived operations drive that searcher. The steps a
/// pattern reports over a string are [`spec_steps`](OsStrPattern::spec_steps).
pub trait OsStrPattern<'a>: Sealed + Sized {
    /// The searcher this pattern is lowered to.
    type Searcher: OsStrSearcher;

    /// Whether the pattern judges every unit, and always in the same way.
    spec fn wf(&self) -> bool;

    /// Every step a search for this pattern in `haystack` reports, in order,
    /// without the final `Done`.
    spec fn spec_steps(&self, haystack: Seq<PlatformSpecificType>) -> Seq<OsStrSearchStep>;

    /// Starts a search for this pattern in `haystack`.
    fn into_searcher(self, haystack: &'a OsString) -> (r: Self::Searcher)
        requires
            self.wf(),
        ensures
            r.inv(),
            r.pending() == self.spec_steps(haystack@),
            steps_in_bounds(r.pending(), haystack@.len()),
    ;

    /// Whether the search reports any match.
    fn is_contained_in(self, haystack: &'a OsString) -> (r: bool)
        requires
            self.wf(),
        ensures
            r == split_at_match(self.spec_steps(haystack@)).0 is Some,
    {
        let mut searcher = self.into_searcher(haystack);
        searcher.next_match().is_some()
    }

    /// Whether the first step of the search is a match that begins at offset 0.
    fn is_prefix_of(self, haystack: &'a OsString) -> (r: bool)
        requires
            self.wf(),
        ensures
            r == leading_match_end(self.spec_steps(haystack@)) is Some,
    {
        let mut searcher = self.into_searcher(haystack);
        match searcher.next() {
            OsStrSearchStep::Match(start, _) => start == 0,
            _ => false,
        }
    }

    /// Whether the search reports a match that reaches the end of `haystack`.
    fn is_suffix_of(self, haystack: &'a OsString) -> (r: bool)
        requires
            self.wf(),
        ensures
            r == match_ending_at(self.spec_steps(haystack@), haystack@.len()) is Some,
    {
        let ghost steps = self.spec_steps(haystack@);
        let len = haystack.len();
        let mut searcher = self.into_searcher(haystack);
        loop
            invariant
                searcher.inv(),
                steps == self.spec_steps(haystack@),
                len == haystack@.len(),
                match_ending_at(searcher.pending(), haystack@.len()) == match_ending_at(
                    steps,
                    haystack@.len(),
                ),
            decreases searcher.pending().len(),
        {
            let ghost before = searcher.pending();
            match searcher.next() {
                OsStrSearchStep::Done => {
                    return false;
                },
                OsStrSearchStep::Match(_, end) => {
                    if end == len {
                        return true;
                    }
                    assert(match_ending_at(before, len as nat) == match_ending_at(
                        searcher.pending(),
                        len as nat,
                    ));
                },
                OsStrSearchStep::Reject(_, _) => {
                    assert(match_ending_at(before, len as nat) == match_ending_at(
                        searcher.pending(),
                        len as nat,
                    ));
                },
            }
        }
    }

    /// `haystack` without the leading match, where the search opens with one.
    fn strip_prefix_of(self, haystack: &'a OsString) -> (r: Option<OsString>)
        requires
            self.wf(),
        ensures
            units_of(r) == stripped_prefix(self.spec_steps(haystack@), haystack@),
    {
        let mut searcher = self.into_searcher(haystack);
        match searcher.next() {
            OsStrSearchStep::Match(start, end) => {
                if start == 0 {
                    Some((end..).index_of_unchecked(haystack))
                } else {
                    None
                }
            },
            _ => None,
        }
    }

    /// `haystack` without the first match that reaches its end, if the search
    /// reports one.
    fn strip_suffix_of(self, haystack: &'a OsString) -> (r: Option<OsString>)
        requires
            self.wf(),
        ensures
            units_of(r) == stripped_suffix(self.spec_steps(haystack@), haystack@),
    {
        let ghost steps = self.spec_steps(haystack@);
        let len = haystack.len();
        let mut searcher = self.into_searcher(haystack);
        loop
            invariant
                searcher.inv(),
                steps == self.spec_steps(haystack@),
                len == haystack@.len(),
                steps_in_bounds(searcher.pending(), len as nat),
                match_ending_at(searcher.pending(), haystack@.len()) == match_ending_at(
                    steps,
                    haystack@.len(),
                ),
            decreases searcher.pending().len(),
        {
            let ghost before = searcher.pending();
            match searcher.next() {
                OsStrSearchStep::Done => {
                    return None;
                },
                OsStrSearchStep::Match(start, end) => {
                    if end == len {
                        assert(step_in_bounds(before[0], len as nat));
                        return Some((..start).index_of_unchecked(haystack));
                    }
                    assert(match_ending_at(before, len as nat) == match_ending_at(
                        searcher.pending(),
                        len as nat,
                    ));
                },
                OsStrSearchStep::Reject(_, _) => {
                    assert(match_ending_at(before, len as nat) == match_ending_at(
                        searcher.pending(),
                        len as nat,
                    ));
                },
            }
            assert forall|i: int| 0 <= i < searcher.pending().len() implies step_in_bounds(
                #[trigger] searcher.pending()[i],
                len as nat,
            ) by {
                assert(searcher.pending()[i] == before[i + 1]);
            }
        }
    }
}

} // verus!
