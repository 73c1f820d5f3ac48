use vstd::prelude::*;

use crate::sealed::Sealed;

verus! {

/// One unit of a native string's platform representation (a byte here).
pub type PlatformSpecificType = u8;

/// A native operating-system string, held as the sequence of its platform units.
#[derive(Clone, PartialEq, Eq, Debug)]
pub struct OsString {
    units: Vec<PlatformSpecificType>,
}

impl View for OsString {
    type V = Seq<PlatformSpecificType>;

    closed spec fn view(&self) -> Seq<PlatformSpecificType> {
        self.units@
    }
}

impl Sealed for OsString {}

impl OsString {
    /// Makes a string of the given units, in their order.
    pub fn from_units(units: Vec<PlatformSpecificType>) -> (r: OsString)
        ensures
            r@ == units@,
    {
        OsString { units }
    }

    /// The units of the string, in order.
    pub fn as_units(&self) -> (r: &[PlatformSpecificType])
        ensures
            r@ == self@,
    {
        self.units.as_slice()
    }

    /// The number of units in the string.
    pub fn len(&self) -> (r: usize)
        ensures
            r == self@.len(),
    {
        self.units.len()
    }

    /// Whether the string has no units.
    pub fn is_empty(&self) -> (r: bool)
        ensures
            r == (self@.len() == 0),
    {
        self.units.len() == 0
    }

    /// A string's length fits a `usize`.
    pub proof fn lemma_len_fits(&self)
        ensures
            self@.len() <= usize::MAX,
    {
        assert(self.units@.len() == self.units.len());
    }

    /// The unit at offset `i`.
    pub(crate) fn unit(&self, i: usize) -> (r: PlatformSpecificType)
        requires
            i < self@.len(),
        ensures
            r == self@[i as int],
    {
        self.units[i]
    }
}

/// A forward-only traversal of a string's units, in the string's order.
///
/// It borrows the string and walks the offsets from `pos` up to `end`; what it
/// has consumed cannot be replayed, but a fresh traversal of the same string
/// yields the same units again.
pub struct OsStrItems<'a> {
    source: &'a OsString,
    pos: usize,
    end: usize,
}

impl<'a> OsStrItems<'a> {
    #[verifier::type_invariant]
    spec fn bounds_hold(&self) -> bool {
        self.pos <= self.end <= self.source@.len()
    }

    /// A traversal of all the units of `source`.
    pub(crate) fn of(source: &'a OsString) -> (r: OsStrItems<'a>)
        ensures
            r@ == source@,
    {
        let r = OsStrItems { source, pos: 0, end: source.len() };
        assert(r@ =~= source@);
        r
    }

    /// Takes the next unit, or `None` once every unit has been taken.
    pub fn next(&mut self) -> (r: Option<PlatformSpecificType>)
        ensures
            old(self)@.len() == 0 ==> r is None && final(self)@ == old(self)@,
            old(self)@.len() > 0 ==> r == Some(old(self)@[0]) && final(self)@ == old(self)@.drop_first(),
    {
        proof {
            use_type_invariant(&*self);
        }
        if self.pos < self.end {
            let u = self.source.unit(self.pos);
            self.pos = self.pos + 1;
            assert(self@ =~= old(self)@.drop_first());
            Some(u)
        } else {
            None
        }
    }

    /// The exact number of units left, as a lower and an upper bound.
    pub fn size_hint(&self) -> (r: (usize, Option<usize>))
        ensures
            r == (self@.len() as usize, Some(self@.len() as usize)),
    {
        proof {
            use_type_invariant(self);
        }
        (self.end - self.pos, Some(self.end - self.pos))
    }

    /// Passes over `n` units and takes the one after them; `None`, with every
    /// unit consumed, where fewer than `n + 1` are left.
    pub fn nth(&mut self, n: usize) -> (r: Option<PlatformSpecificType>)
        ensures
            n < old(self)@.len() ==> r == Some(old(self)@[n as int]) && final(self)@ == old(
                self,
            )@.subrange(n + 1, old(self)@.len() as int),
            n >= old(self)@.len() ==> r is None && final(self)@.len() == 0,
    {
        proof {
            use_type_invariant(&*self);
        }
        if n < self.end - self.pos {
            let u = self.source.unit(self.pos + n);
            self.pos = self.pos + n + 1;
            assert(self@ =~= old(self)@.subrange(n + 1, old(self)@.len() as int));
            Some(u)
        } else {
            self.pos = self.end;
            None
        }
    }

    /// The traversal without its first `n` units (without any, where fewer are left).
    pub fn skip(self, n: usize) -> (r: OsStrItems<'a>)
        ensures
            n <= self@.len() ==> r@ == self@.subrange(n as int, self@.len() as int),
            n > self@.len() ==> r@.len() == 0,
    {
        proof {
            use_type_invariant(&self);
        }
        let pos = if n < self.end - self.pos {
            self.pos + n
        } else {
            self.end
        };
        let r = OsStrItems { source: self.source, pos, end: self.end };
        assert(n <= self@.len() ==> r@ =~= self@.subrange(n as int, self@.len() as int));
        r
    }

    /// The traversal cut after its first `n` units (left whole, where fewer are left).
    pub fn take(self, n: usize) -> (r: OsStrItems<'a>)
        ensures
            n <= self@.len() ==> r@ == self@.subrange(0, n as int),
            n > self@.len() ==> r@ == self@,
    {
        proof {
            use_type_invariant(&self);
        }
        let end = if n < self.end - self.pos {
            self.pos + n
        } else {
            self.end
        };
        let r = OsStrItems { source: self.source, pos: self.pos, end };
        assert(n <= self@.len() ==> r@ =~= self@.subrange(0, n as int));
        r
    }

    /// The number of units left.
    pub fn count(self) -> (r: usize)
        ensures
            r == self@.len(),
    {
        proof {
            use_type_invariant(&self);
        }
        self.end - self.pos
    }

    /// The last unit left, or `None` where none is.
    pub fn last(self) -> (r: Option<PlatformSpecificType>)
        ensures
            self@.len() == 0 ==> r is None,
            self@.len() > 0 ==> r == Some(self@.last()),
    {
        proof {
            use_type_invariant(&self);
        }
        if self.pos < self.end {
            Some(self.source.unit(self.end - 1))
        } else {
            None
        }
    }
}

impl View for OsStrItems<'_> {
    type V = Seq<PlatformSpecificType>;

    closed spec fn view(&self) -> Seq<PlatformSpecificType> {
        self.source@.subrange(self.pos as int, self.end as int)
    }
}

impl Sealed for OsStrItems<'_> {}

impl Sealed for PlatformSpecificType {}

impl Sealed for Vec<PlatformSpecificType> {}

/// Makes a native string of a single unit.
pub trait OsStringFromItem: View<V = PlatformSpecificType> + Sealed + Sized {
    /// The one-unit string holding `self`.
    fn to_os_string(self) -> (r: OsString)
        ensures
            r@ == seq![self@],
    ;
}

impl OsStringFromItem for PlatformSpecificType {
    fn to_os_string(self) -> (r: OsString) {
        let mut units: Vec<PlatformSpecificType> = Vec::new();
        units.push(self);
        assert(units@ =~= seq![self]);
        OsString::from_units(units)
    }
}

/// Collects a sequence of units into a new native string.
pub trait OsStringFromIter: View<V = Seq<PlatformSpecificType>> + Sealed + Sized {
    /// The string made of the units of `self`, in order.
    fn to_os_string(self) -> (r: OsString)
        ensures
            r@ == self@,
    ;
}

impl OsStringFromIter for Vec<PlatformSpecificType> {
    fn to_os_string(self) -> (r: OsString) {
        OsString::from_units(self)
    }
}

impl OsStringFromIter for OsStrItems<'_> {
    fn to_os_string(self) -> (r: OsString) {
        let ghost all = self@;
        let mut rest = self;
        let mut units: Vec<PlatformSpecificType> = Vec::new();
        loop
            invariant
                all == units@ + rest@,
            ensures
                all == units@,
            decreases rest@.len(),
        {
            match rest.next() {
                Some(u) => {
                    units.push(u);
                    assert(all =~= units@ + rest@);
                },
                None => {
                    assert(all =~= units@);
                    break;
                },
            }
        }
        OsString::from_units(units)
    }
}

/// Collecting the one-unit sequence `[u]` into a string gives the units of the
/// one-unit string of `u`.
pub proof fn lemma_single_unit_build(u: PlatformSpecificType, units: Vec<PlatformSpecificType>)
    requires
        units@ == seq![u],
    ensures
        units@ == seq![u@],
{
}

} // verus!
