use vstd::prelude::*;

use crate::os_string::{OsString, PlatformSpecificType};
use crate::sealed::Sealed;
use crate::search::{
    leading_match_end,
    step_in_bounds,
    steps_in_bounds,
    tiles,
    OsStrPattern,
    OsStrSearchStep,
    OsStrSearcher,
};

verus! {

/// The offset, counted from `k`, of the first unit at which `needle` differs from
/// `haystack` read from offset `from`; `needle.len()` where none differs.
pub open spec fn first_mismatch(
    haystack: Seq<PlatformSpecificType>,
    needle: Seq<PlatformSpecificType>,
    from: nat,
    k: nat,
) -> nat
    decreases needle.len() - k,
{
    if k >= needle.len() {
        needle.len()
    } else if haystack[(from + k) as int] != needle[k as int] {
        k
    } else {
        first_mismatch(haystack, needle, from, k + 1)
    }
}

/// The steps of a search for a non-empty `needle` in `haystack`, from offset `from`.
///
/// Where fewer units are left than `needle` holds, the rest is rejected at once.
/// Otherwise `needle` is compared unit by unit: a mismatch at relative offset `k`
/// rejects `from..from + k + 1` and the search goes on after it; a full match is
/// reported and the search goes on after the match.
pub open spec fn substring_steps(
    haystack: Seq<PlatformSpecificType>,
    needle: Seq<PlatformSpecificType>,
    from: nat,
) -> Seq<OsStrSearchStep>
    decreases haystack.len() - from,
{
    if from >= haystack.len() || needle.len() == 0 {
        seq![]
    } else if haystack.len() - from < needle.len() {
        seq![OsStrSearchStep::Reject(from as usize, haystack.len() as usize)]
    } else {
        let k = first_mismatch(haystack, needle, from, 0);
        if k < needle.len() {
            seq![OsStrSearchStep::Reject(from as usize, (from + k + 1) as usize)]
                + substring_steps(haystack, needle, from + k + 1)
        } else {
            seq![OsStrSearchStep::Match(from as usize, (from + needle.len()) as usize)]
                + substring_steps(haystack, needle, from + needle.len())
        }
    }
}

/// The steps of a search for the empty needle in a string of `len` units, from
/// offset `from`: an empty match at every offset up to `len` included.
pub open spec fn empty_needle_steps(len: nat, from: nat) -> Seq<OsStrSearchStep> {
    Seq::new(
        (len + 1 - from) as nat,
        |k: int| OsStrSearchStep::Match((from + k) as usize, (from + k) as usize),
    )
}

/// A mismatch found by reading `needle` from `k` on is the first one, where the
/// units before `k` all agree.
proof fn lemma_first_mismatch_bound(
    haystack: Seq<PlatformSpecificType>,
    needle: Seq<PlatformSpecificType>,
    from: nat,
    k: nat,
)
    ensures
        first_mismatch(haystack, needle, from, k) <= needle.len(),
        k <= needle.len() ==> k <= first_mismatch(haystack, needle, from, k),
    decreases needle.len() - k,
{
    if k < needle.len() && haystack[(from + k) as int] == needle[k as int] {
        lemma_first_mismatch_bound(haystack, needle, from, k + 1);
    }
}

/// Each step of a search for a non-empty needle judges a range within the haystack.
proof fn lemma_substring_steps_in_bounds(
    haystack: Seq<PlatformSpecificType>,
    needle: Seq<PlatformSpecificType>,
    from: nat,
)
    requires
        haystack.len() <= usize::MAX,
    ensures
        steps_in_bounds(substring_steps(haystack, needle, from), haystack.len()),
    decreases haystack.len() - from,
{
    let steps = substring_steps(haystack, needle, from);
    if from >= haystack.len() || needle.len() == 0 {
    } else if haystack.len() - from < needle.len() {
        assert(step_in_bounds(steps[0], haystack.len()));
    } else {
        let k = first_mismatch(haystack, needle, from, 0);
        lemma_first_mismatch_bound(haystack, needle, from, 0);
        let next = if k < needle.len() {
            from + k + 1
        } else {
            from + needle.len()
        };
        lemma_substring_steps_in_bounds(haystack, needle, next);
        let rest = substring_steps(haystack, needle, next);
        assert(steps == seq![steps[0]] + rest);
        assert forall|i: int| 0 <= i < steps.len() implies step_in_bounds(
            #[trigger] steps[i],
            haystack.len(),
        ) by {
            if i > 0 {
                assert(steps[i] == rest[i - 1]);
            }
        }
    }
}

/// What a search for a needle in a haystack has still to do.
enum OsStrSubstringSearcherImpl<'b> {
    /// The needle has units; they are compared at each candidate offset.
    NonEmptyNeedle { needle: &'b OsString },
    /// The needle is empty: every offset holds a match.
    EmptyNeedle { finished: bool },
}

/// The state of a search for a native string `needle` inside `haystack`.
pub struct OsStrSubstringSearcher<'a, 'b> {
    haystack: &'a OsString,
    finger: usize,
    details: OsStrSubstringSearcherImpl<'b>,
}

impl<'a, 'b> OsStrSubstringSearcher<'a, 'b> {
    /// Starts a search for `needle` in `haystack`.
    fn new(haystack: &'a OsString, needle: &'b OsString) -> (r: OsStrSubstringSearcher<'a, 'b>)
        ensures
            r.inv(),
            r.pending() == (&needle).spec_steps(haystack@),
    {
        OsStrSubstringSearcher {
            haystack,
            finger: 0,
            details: if needle.is_empty() {
                OsStrSubstringSearcherImpl::EmptyNeedle { finished: false }
            } else {
                OsStrSubstringSearcherImpl::NonEmptyNeedle { needle }
            },
        }
    }
}

impl Sealed for OsStrSubstringSearcher<'_, '_> {}

impl OsStrSearcher for OsStrSubstringSearcher<'_, '_> {
    closed spec fn inv(&self) -> bool {
        &&& self.finger <= self.haystack@.len()
        &&& match self.details {
            OsStrSubstringSearcherImpl::NonEmptyNeedle { needle } => needle@.len() > 0,
            OsStrSubstringSearcherImpl::EmptyNeedle { .. } => true,
        }
    }

    closed spec fn pending(&self) -> Seq<OsStrSearchStep> {
        match self.details {
            OsStrSubstringSearcherImpl::NonEmptyNeedle { needle } => substring_steps(
                self.haystack@,
                needle@,
                self.finger as nat,
            ),
            OsStrSubstringSearcherImpl::EmptyNeedle { finished } => if finished {
                seq![]
            } else {
                empty_needle_steps(self.haystack@.len(), self.finger as nat)
            },
        }
    }

    fn next(&mut self) -> (step: OsStrSearchStep) {
        proof {
            self.haystack.lemma_len_fits();
        }
        match self.details {
            OsStrSubstringSearcherImpl::EmptyNeedle { finished } => {
                if finished {
                    OsStrSearchStep::Done
                } else {
                    let start = self.finger;
                    if self.finger == self.haystack.len() {
                        self.details = OsStrSubstringSearcherImpl::EmptyNeedle { finished: true };
                    } else {
                        self.finger = self.finger + 1;
                    }
                    assert(self.pending() =~= old(self).pending().drop_first());
                    OsStrSearchStep::Match(start, start)
                }
            },
            OsStrSubstringSearcherImpl::NonEmptyNeedle { needle } => {
                let len = self.haystack.len();
                let n = needle.len();
                let start = self.finger;
                if start == len {
                    OsStrSearchStep::Done
                } else if len - start < n {
                    self.finger = len;
                    OsStrSearchStep::Reject(start, len)
                } else {
                    let ghost h = self.haystack@;
                    let mut k: usize = 0;
                    while k < n
                        invariant
                            self.haystack@ == h,
                            self.details == (OsStrSubstringSearcherImpl::NonEmptyNeedle { needle }),
                            old(self).details == self.details,
                            self.haystack == old(self).haystack,
                            start == old(self).finger,
                            n == needle@.len(),
                            0 < n,
                            start < len,
                            start + n <= len == h.len(),
                            k <= n,
                            self.finger == start + k,
                            first_mismatch(h, needle@, start as nat, 0) == first_mismatch(
                                h,
                                needle@,
                                start as nat,
                                k as nat,
                            ),
                        decreases n - k,
                    {
                        self.finger = self.finger + 1;
                        if self.haystack.unit(start + k) != needle.unit(k) {
                            assert(self.pending() =~= old(self).pending().drop_first());
                            return OsStrSearchStep::Reject(start, self.finger);
                        }
                        k = k + 1;
                    }
                    assert(self.pending() =~= old(self).pending().drop_first());
                    OsStrSearchStep::Match(start, self.finger)
                }
            },
        }
    }
}

impl Sealed for &OsString {}

impl<'a, 'b> OsStrPattern<'a> for &'b OsString {
    type Searcher = OsStrSubstringSearcher<'a, 'b>;

    open spec fn wf(&self) -> bool {
        true
    }

    open spec fn spec_steps(&self, haystack: Seq<PlatformSpecificType>) -> Seq<OsStrSearchStep> {
        if self@.len() == 0 {
            empty_needle_steps(haystack.len(), 0)
        } else {
            substring_steps(haystack, self@, 0)
        }
    }

    fn into_searcher(self, haystack: &'a OsString) -> (r: OsStrSubstringSearcher<'a, 'b>) {
        proof {
            haystack.lemma_len_fits();
            lemma_substring_steps_in_bounds(haystack@, self@, 0);
        }
        let r = OsStrSubstringSearcher::new(haystack, self);
        assert(steps_in_bounds(r.pending(), haystack@.len()));
        r
    }
}

/// `needle` agrees with `haystack` read from offset `from` at every offset from `k`
/// on exactly where no mismatch is found from `k` on.
proof fn lemma_first_mismatch_none(
    haystack: Seq<PlatformSpecificType>,
    needle: Seq<PlatformSpecificType>,
    from: nat,
    k: nat,
)
    requires
        k <= needle.len(),
        from + needle.len() <= haystack.len(),
    ensures
        first_mismatch(haystack, needle, from, k) == needle.len() <==> forall|j: int|
            k <= j < needle.len() ==> haystack[from + j] == #[trigger] needle[j],
    decreases needle.len() - k,
{
    if k < needle.len() {
        lemma_first_mismatch_none(haystack, needle, from, k + 1);
        if haystack[(from + k) as int] != needle[k as int] {
            lemma_first_mismatch_bound(haystack, needle, from, k);
        }
    }
}

/// Each match that a search for a non-empty `needle` reports from offset `from` is
/// an occurrence of `needle` in `haystack`.
proof fn lemma_substring_matches_occur(
    haystack: Seq<PlatformSpecificType>,
    needle: Seq<PlatformSpecificType>,
    from: nat,
)
    requires
        haystack.len() <= usize::MAX,
    ensures
        forall|i: int|
            0 <= i < substring_steps(haystack, needle, from).len() ==> (#[trigger] substring_steps(
                haystack,
                needle,
                from,
            )[i] matches OsStrSearchStep::Match(a, b) ==> b == a + needle.len()
                && haystack.subrange(a as int, b as int) == needle),
    decreases haystack.len() - from,
{
    let steps = substring_steps(haystack, needle, from);
    if from >= haystack.len() || needle.len() == 0 {
    } else if haystack.len() - from < needle.len() {
    } else {
        let k = first_mismatch(haystack, needle, from, 0);
        lemma_first_mismatch_bound(haystack, needle, from, 0);
        lemma_first_mismatch_none(haystack, needle, from, 0);
        let next = if k < needle.len() {
            from + k + 1
        } else {
            from + needle.len()
        };
        lemma_substring_matches_occur(haystack, needle, next);
        let rest = substring_steps(haystack, needle, next);
        assert(steps == seq![steps[0]] + rest);
        if k == needle.len() {
            assert(haystack.subrange(from as int, (from + needle.len()) as int) =~= needle);
        }
        assert forall|i: int| 0 <= i < steps.len() implies (#[trigger] steps[i] matches OsStrSearchStep::Match(a, b)
            ==> b == a + needle.len() && haystack.subrange(a as int, b as int) == needle) by {
            if i > 0 {
                assert(steps[i] == rest[i - 1]);
            }
        }
    }
}

/// Every match that a search for the string `needle` reports in `haystack` is an
/// occurrence of `needle` there.
pub proof fn lemma_substring_matches_are_occurrences(
    needle: &OsString,
    haystack: Seq<PlatformSpecificType>,
)
    requires
        haystack.len() <= usize::MAX,
    ensures
        forall|i: int|
            0 <= i < needle.spec_steps(haystack).len() ==> (#[trigger] needle.spec_steps(
                haystack,
            )[i] matches OsStrSearchStep::Match(a, b) ==> b == a + needle@.len()
                && haystack.subrange(a as int, b as int) == needle@),
{
    if needle@.len() == 0 {
        let steps = needle.spec_steps(haystack);
        assert forall|i: int| 0 <= i < steps.len() implies (#[trigger] steps[i] matches OsStrSearchStep::Match(a, b)
            ==> b == a + needle@.len() && haystack.subrange(a as int, b as int) == needle@) by {
            assert(haystack.subrange(i, i) =~= needle@);
        }
    } else {
        lemma_substring_matches_occur(haystack, needle@, 0);
    }
}

/// A string starts with the string `needle` exactly where its first
/// `needle.len()` units are those of `needle`.
pub proof fn lemma_substring_prefix(needle: &OsString, haystack: Seq<PlatformSpecificType>)
    requires
        haystack.len() <= usize::MAX,
    ensures
        leading_match_end(needle.spec_steps(haystack)) is Some <==> needle@.len() <= haystack.len()
            && haystack.subrange(0, needle@.len() as int) == needle@,
{
    let n = needle@;
    if n.len() == 0 {
        assert(haystack.subrange(0, 0) =~= n);
    } else if haystack.len() == 0 {
    } else if haystack.len() < n.len() {
    } else {
        lemma_first_mismatch_none(haystack, n, 0, 0);
        lemma_first_mismatch_bound(haystack, n, 0, 0);
        if haystack.subrange(0, n.len() as int) == n {
            assert forall|j: int| 0 <= j < n.len() implies haystack[0 + j] == #[trigger] n[j] by {
                assert(haystack.subrange(0, n.len() as int)[j] == n[j]);
            }
        }
        if first_mismatch(haystack, n, 0, 0) == n.len() {
            assert(haystack.subrange(0, n.len() as int) =~= n);
        }
    }
}

/// The steps of a search for a non-empty needle, from an offset `from` within
/// `haystack`, tile `from..haystack.len()`.
proof fn lemma_substring_steps_tile_from(
    haystack: Seq<PlatformSpecificType>,
    needle: Seq<PlatformSpecificType>,
    from: nat,
)
    requires
        haystack.len() <= usize::MAX,
        needle.len() > 0,
        from <= haystack.len(),
    ensures
        tiles(substring_steps(haystack, needle, from), from, haystack.len()),
    decreases haystack.len() - from,
{
    let steps = substring_steps(haystack, needle, from);
    if from < haystack.len() && haystack.len() - from >= needle.len() {
        lemma_first_mismatch_bound(haystack, needle, from, 0);
        let k = first_mismatch(haystack, needle, from, 0);
        let next = if k < needle.len() {
            from + k + 1
        } else {
            from + needle.len()
        };
        lemma_substring_steps_tile_from(haystack, needle, next);
        assert(steps.drop_first() == substring_steps(haystack, needle, next));
    } else if from < haystack.len() {
        assert(steps.drop_first() =~= Seq::<OsStrSearchStep>::empty());
        assert(tiles(steps.drop_first(), haystack.len(), haystack.len()));
    }
}

/// The steps of a search for a non-empty string `needle` tile the whole of `haystack`.
pub proof fn lemma_substring_steps_tile(needle: &OsString, haystack: Seq<PlatformSpecificType>)
    requires
        haystack.len() <= usize::MAX,
        needle@.len() > 0,
    ensures
        tiles(needle.spec_steps(haystack), 0, haystack.len()),
{
    lemma_substring_steps_tile_from(haystack, needle@, 0);
}

} // verus!
