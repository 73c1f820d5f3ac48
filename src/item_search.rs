use vstd::prelude::*;

use crate::os_string::{OsStrItems, OsString, PlatformSpecificType};
use crate::sealed::Sealed;
use crate::search::{
    leading_match_end,
    lemma_split_at_match_finds,
    lemma_split_at_match_found,
    match_ending_at,
    split_at_match,
    step_in_bounds,
    steps_in_bounds,
    tiles,
    OsStrPattern,
    OsStrSearchStep,
    OsStrSearcher,
};

verus! {

/// The step that judges the single unit at offset `at`.
pub open spec fn unit_step(accepted: bool, at: int) -> OsStrSearchStep {
    if accepted {
        OsStrSearchStep::Match(at as usize, (at + 1) as usize)
    } else {
        OsStrSearchStep::Reject(at as usize, (at + 1) as usize)
    }
}

/// The steps of a search for the unit `needle` in `units`, the first of which sits at
/// offset `from`: one step per unit, a match where it equals `needle`.
pub open spec fn item_steps(
    units: Seq<PlatformSpecificType>,
    from: nat,
    needle: PlatformSpecificType,
) -> Seq<OsStrSearchStep> {
    Seq::new(units.len(), |k: int| unit_step(units[k] == needle, from + k))
}

/// The steps of a search for any unit that `class` accepts in `units`, the first of
/// which sits at offset `from`: one step per unit, a match where `class` accepts it.
pub open spec fn class_steps<C: OsStrMultiItemEq>(
    units: Seq<PlatformSpecificType>,
    from: nat,
    class: C,
) -> Seq<OsStrSearchStep> {
    Seq::new(units.len(), |k: int| unit_step(class.spec_matches(units[k]), from + k))
}

/// Steps that judge `len` units one by one from offset 0 stay within `len` units.
proof fn lemma_unit_steps_in_bounds(steps: Seq<OsStrSearchStep>, len: nat, accepted: spec_fn(int) -> bool)
    requires
        steps.len() == len,
        forall|k: int| 0 <= k < len ==> #[trigger] steps[k] == unit_step(accepted(k), k),
        len <= usize::MAX,
    ensures
        steps_in_bounds(steps, len),
{
    assert forall|k: int| 0 <= k < steps.len() implies step_in_bounds(#[trigger] steps[k], len) by {
        assert(steps[k] == unit_step(accepted(k), k));
    }
}

/// Steps that judge `len` units one by one from offset `from` tile `from..from + len`.
proof fn lemma_unit_steps_tile(
    steps: Seq<OsStrSearchStep>,
    from: nat,
    len: nat,
    accepted: spec_fn(int) -> bool,
)
    requires
        steps.len() == len,
        forall|k: int| 0 <= k < len ==> #[trigger] steps[k] == unit_step(accepted(k), from + k),
        from + len <= usize::MAX,
    ensures
        tiles(steps, from, from + len),
    decreases len,
{
    if len > 0 {
        let rest = steps.drop_first();
        let next = |k: int| accepted(k + 1);
        assert forall|k: int| 0 <= k < len - 1 implies #[trigger] rest[k] == unit_step(
            next(k),
            (from + 1) + k,
        ) by {
            assert(rest[k] == steps[k + 1]);
        }
        lemma_unit_steps_tile(rest, from + 1, (len - 1) as nat, next);
        assert(steps[0] == unit_step(accepted(0), from as int));
    }
}

/// The steps of a search for the unit `u` tile the whole of `haystack`, one unit each.
pub proof fn lemma_item_steps_tile(haystack: Seq<PlatformSpecificType>, u: PlatformSpecificType)
    requires
        haystack.len() <= usize::MAX,
    ensures
        tiles(u.spec_steps(haystack), 0, haystack.len()),
{
    lemma_unit_steps_tile(u.spec_steps(haystack), 0, haystack.len(), |k: int| haystack[k] == u);
}

/// The steps of a search for the units that `class` accepts tile the whole of
/// `haystack`, one unit each.
pub proof fn lemma_class_steps_tile<C: OsStrMultiItemEq>(
    haystack: Seq<PlatformSpecificType>,
    class: C,
)
    requires
        haystack.len() <= usize::MAX,
    ensures
        tiles(class_steps(haystack, 0, class), 0, haystack.len()),
{
    lemma_unit_steps_tile(
        class_steps(haystack, 0, class),
        0,
        haystack.len(),
        |k: int| class.spec_matches(haystack[k]),
    );
}

/// The state of a search for a single unit.
pub struct OsStrItemSearcher<'a> {
    haystack: OsStrItems<'a>,
    finger: usize,
    needle: PlatformSpecificType,
}

impl Sealed for OsStrItemSearcher<'_> {}

impl OsStrSearcher for OsStrItemSearcher<'_> {
    closed spec fn inv(&self) -> bool {
        self.finger + self.haystack@.len() <= usize::MAX
    }

    closed spec fn pending(&self) -> Seq<OsStrSearchStep> {
        item_steps(self.haystack@, self.finger as nat, self.needle)
    }

    fn next(&mut self) -> (step: OsStrSearchStep) {
        let result = match self.haystack.next() {
            Some(item) => {
                self.finger = self.finger + 1;
                if item == self.needle {
                    OsStrSearchStep::Match(self.finger - 1, self.finger)
                } else {
                    OsStrSearchStep::Reject(self.finger - 1, self.finger)
                }
            },
            None => OsStrSearchStep::Done,
        };
        assert(old(self).pending().len() > 0 ==> self.pending() =~= old(self).pending().drop_first());
        result
    }
}

impl<'a> OsStrPattern<'a> for PlatformSpecificType {
    type Searcher = OsStrItemSearcher<'a>;

    open spec fn wf(&self) -> bool {
        true
    }

    open spec fn spec_steps(&self, haystack: Seq<PlatformSpecificType>) -> Seq<OsStrSearchStep> {
        item_steps(haystack, 0, *self)
    }

    fn into_searcher(self, haystack: &'a OsString) -> (r: OsStrItemSearcher<'a>) {
        proof {
            haystack.lemma_len_fits();
            let steps = item_steps(haystack@, 0, self);
            lemma_unit_steps_in_bounds(steps, haystack@.len(), |k: int| haystack@[k] == self);
        }
        OsStrItemSearcher { haystack: OsStrItems::of(haystack), finger: 0, needle: self }
    }
}

/// A search for the unit `u` in `haystack` finds it exactly where `haystack` holds it.
pub proof fn lemma_item_found_iff_held(haystack: Seq<PlatformSpecificType>, u: PlatformSpecificType)
    ensures
        split_at_match(u.spec_steps(haystack)).0 is Some <==> haystack.contains(u),
{
    let steps = u.spec_steps(haystack);
    if haystack.contains(u) {
        let k = choose|k: int| 0 <= k < haystack.len() && haystack[k] == u;
        assert(steps[k] is Match);
        lemma_split_at_match_finds(steps, k);
    }
    if split_at_match(steps).0 is Some {
        lemma_split_at_match_found(steps);
        let k = choose|k: int| 0 <= k < steps.len() && #[trigger] steps[k] is Match;
        assert(haystack[k] == u);
    }
}

/// Among the steps of a search for `u` in `units`, placed from offset `from`, the
/// first match that ends at `from + units.len()` judges the last unit, if that is `u`.
proof fn lemma_item_match_at_end(
    units: Seq<PlatformSpecificType>,
    from: nat,
    u: PlatformSpecificType,
)
    requires
        from + units.len() <= usize::MAX,
    ensures
        match_ending_at(item_steps(units, from, u), from + units.len()) == if units.len() > 0
            && units.last() == u {
            Some(((from + units.len() - 1) as usize, (from + units.len()) as usize))
        } else {
            None::<(usize, usize)>
        },
    decreases units.len(),
{
    let steps = item_steps(units, from, u);
    if units.len() > 0 {
        lemma_item_match_at_end(units.drop_first(), from + 1, u);
        assert(steps.drop_first() =~= item_steps(units.drop_first(), from + 1, u));
    }
}

/// A string starts with the unit `u` exactly where its first unit is `u`, and ends
/// with `u` exactly where its last unit is `u`; a match cut off either end is that
/// one unit.
pub proof fn lemma_item_prefix_suffix(haystack: Seq<PlatformSpecificType>, u: PlatformSpecificType)
    requires
        haystack.len() <= usize::MAX,
    ensures
        leading_match_end(u.spec_steps(haystack)) == if haystack.len() > 0 && haystack[0] == u {
            Some(1usize)
        } else {
            None::<usize>
        },
        match_ending_at(u.spec_steps(haystack), haystack.len()) == if haystack.len() > 0
            && haystack.last() == u {
            Some(((haystack.len() - 1) as usize, haystack.len() as usize))
        } else {
            None::<(usize, usize)>
        },
{
    lemma_item_match_at_end(haystack, 0, u);
}

/// A judgement of single units: a fixed set of units, or a predicate on units.
pub trait OsStrMultiItemEq: Sealed + Sized {
    /// Whether every unit can be judged, and always in the same way.
    spec fn wf(&self) -> bool;

    /// Whether `item` is accepted.
    spec fn spec_matches(&self, item: PlatformSpecificType) -> bool;

    /// Judges `item`.
    fn matches(&self, item: PlatformSpecificType) -> (r: bool)
        requires
            self.wf(),
        ensures
            r == self.spec_matches(item),
    ;
}

/// Whether `units` holds `item`.
fn units_contain(units: &[PlatformSpecificType], item: PlatformSpecificType) -> (r: bool)
    ensures
        r == units@.contains(item),
{
    let mut i: usize = 0;
    while i < units.len()
        invariant
            i <= units@.len(),
            forall|j: int| 0 <= j < i ==> units@[j] != item,
        decreases units@.len() - i,
    {
        if units[i] == item {
            return true;
        }
        i = i + 1;
    }
    false
}

impl<F: Fn(PlatformSpecificType) -> bool> Sealed for F {}

impl<F: Fn(PlatformSpecificType) -> bool> OsStrMultiItemEq for F {
    /// The predicate accepts every unit and gives a single answer for each.
    open spec fn wf(&self) -> bool {
        &&& forall|u: PlatformSpecificType| call_requires(*self, (u,))
        &&& forall|u: PlatformSpecificType|
            !(call_ensures(*self, (u,), true) && call_ensures(*self, (u,), false))
    }

    open spec fn spec_matches(&self, item: PlatformSpecificType) -> bool {
        call_ensures(*self, (item,), true)
    }

    fn matches(&self, item: PlatformSpecificType) -> (r: bool) {
        (self)(item)
    }
}

/// A predicate that accepts every unit and gives a single answer for each can be
/// searched for, and accepts exactly the units for which it may answer `true`.
pub proof fn lemma_predicate_is_pattern<'a, F: Fn(PlatformSpecificType) -> bool>(f: F)
    requires
        forall|u: PlatformSpecificType| call_requires(f, (u,)),
        forall|u: PlatformSpecificType| !(call_ensures(f, (u,), true) && call_ensures(f, (u,), false)),
    ensures
        OsStrPattern::<'a>::wf(&f),
        forall|u: PlatformSpecificType| #[trigger] f.spec_matches(u) == call_ensures(f, (u,), true),
{
}

impl<const N: usize> Sealed for [PlatformSpecificType; N] {}

impl<const N: usize> OsStrMultiItemEq for [PlatformSpecificType; N] {
    open spec fn wf(&self) -> bool {
        true
    }

    open spec fn spec_matches(&self, item: PlatformSpecificType) -> bool {
        self@.contains(item)
    }

    fn matches(&self, item: PlatformSpecificType) -> (r: bool) {
        units_contain(self.as_slice(), item)
    }
}

impl<const N: usize> Sealed for &[PlatformSpecificType; N] {}

impl<const N: usize> OsStrMultiItemEq for &[PlatformSpecificType; N] {
    open spec fn wf(&self) -> bool {
        true
    }

    open spec fn spec_matches(&self, item: PlatformSpecificType) -> bool {
        (*self)@.contains(item)
    }

    fn matches(&self, item: PlatformSpecificType) -> (r: bool) {
        units_contain(self.as_slice(), item)
    }
}

impl Sealed for &[PlatformSpecificType] {}

impl OsStrMultiItemEq for &[PlatformSpecificType] {
    open spec fn wf(&self) -> bool {
        true
    }

    open spec fn spec_matches(&self, item: PlatformSpecificType) -> bool {
        (*self)@.contains(item)
    }

    fn matches(&self, item: PlatformSpecificType) -> (r: bool) {
        units_contain(self, item)
    }
}

/// The state of a search for any unit that a [`OsStrMultiItemEq`] accepts.
pub struct OsStrMultiItemEqSearcher<'a, C: OsStrMultiItemEq> {
    haystack: OsStrItems<'a>,
    finger: usize,
    needle: C,
}

impl<'a, C: OsStrMultiItemEq> OsStrMultiItemEqSearcher<'a, C> {
    /// Starts a search over the units of `haystack`.
    fn new(haystack: OsStrItems<'a>, needle: C) -> (r: OsStrMultiItemEqSearcher<'a, C>)
        requires
            needle.wf(),
            haystack@.len() <= usize::MAX,
        ensures
            r.inv(),
            r.pending() == class_steps(haystack@, 0, needle),
    {
        OsStrMultiItemEqSearcher { haystack, finger: 0, needle }
    }
}

impl<C: OsStrMultiItemEq> Sealed for OsStrMultiItemEqSearcher<'_, C> {}

impl<C: OsStrMultiItemEq> OsStrSearcher for OsStrMultiItemEqSearcher<'_, C> {
    closed spec fn inv(&self) -> bool {
        &&& self.needle.wf()
        &&& self.finger + self.haystack@.len() <= usize::MAX
    }

    closed spec fn pending(&self) -> Seq<OsStrSearchStep> {
        class_steps(self.haystack@, self.finger as nat, self.needle)
    }

    fn next(&mut self) -> (step: OsStrSearchStep) {
        let result = match self.haystack.next() {
            Some(item) => {
                self.finger = self.finger + 1;
                if self.needle.matches(item) {
                    OsStrSearchStep::Match(self.finger - 1, self.finger)
                } else {
                    OsStrSearchStep::Reject(self.finger - 1, self.finger)
                }
            },
            None => OsStrSearchStep::Done,
        };
        assert(old(self).pending().len() > 0 ==> self.pending() =~= old(self).pending().drop_first());
        result
    }
}

impl<'a, C: OsStrMultiItemEq> OsStrPattern<'a> for C {
    type Searcher = OsStrMultiItemEqSearcher<'a, C>;

    open spec fn wf(&self) -> bool {
        OsStrMultiItemEq::wf(self)
    }

    open spec fn spec_steps(&self, haystack: Seq<PlatformSpecificType>) -> Seq<OsStrSearchStep> {
        class_steps(haystack, 0, *self)
    }

    fn into_searcher(self, haystack: &'a OsString) -> (r: OsStrMultiItemEqSearcher<'a, C>) {
        proof {
            haystack.lemma_len_fits();
            let steps = class_steps(haystack@, 0, self);
            lemma_unit_steps_in_bounds(
                steps,
                haystack@.len(),
                |k: int| self.spec_matches(haystack@[k]),
            );
        }
        OsStrMultiItemEqSearcher::new(OsStrItems::of(haystack), self)
    }
}

} // verus!
