//! Totals of works, pages and words, and their elementwise sum.

use vstd::prelude::*;

verus! {

/// Mathematical value of a [`Stats`] record.
pub struct Tally {
    pub works: nat,
    pub pages: nat,
    pub words: nat,
}

impl Tally {
    /// The additive identity.
    pub open spec fn zero() -> Tally {
        Tally { works: 0, pages: 0, words: 0 }
    }

    /// Elementwise sum.
    pub open spec fn plus(self, other: Tally) -> Tally {
        Tally {
            works: self.works + other.works,
            pages: self.pages + other.pages,
            words: self.words + other.words,
        }
    }

    /// The tally can be held by a [`Stats`] record.
    pub open spec fn fits(self) -> bool {
        &&& self.works <= u32::MAX
        &&& self.pages <= u32::MAX
        &&& self.words <= u64::MAX
    }

    /// Every component is at most the matching component of `other`.
    pub open spec fn le(self, other: Tally) -> bool {
        &&& self.works <= other.works
        &&& self.pages <= other.pages
        &&& self.words <= other.words
    }
}

/// Number of works, summed page count and summed word count of a bucket.
#[derive(Clone, Copy, Debug, PartialEq, Eq, Structural)]
pub struct Stats {
    pub works: u32,
    pub pages: u32,
    pub words: u64,
}

impl View for Stats {
    type V = Tally;

    open spec fn view(&self) -> Tally {
        Tally { works: self.works as nat, pages: self.pages as nat, words: self.words as nat }
    }
}

impl Stats {
    /// The empty total.
    pub fn zero() -> (r: Stats)
        ensures
            r@ == Tally::zero(),
    {
        Stats { works: 0, pages: 0, words: 0 }
    }

    /// Elementwise sum of two totals.
    pub fn add(self, other: Stats) -> (r: Stats)
        requires
            self@.plus(other@).fits(),
        ensures
            r@ == self@.plus(other@),
    {
        Stats {
            works: self.works + other.works,
            pages: self.pages + other.pages,
            words: self.words + other.words,
        }
    }

    /// Elementwise sum, or `None` where a component would not fit.
    pub fn checked_add(self, other: Stats) -> (r: Option<Stats>)
        ensures
            r is Some <==> self@.plus(other@).fits(),
            r is Some ==> r->0@ == self@.plus(other@),
    {
        if self.works > u32::MAX - other.works || self.pages > u32::MAX - other.pages
            || self.words > u64::MAX - other.words {
            None
        } else {
            Some(self.add(other))
        }
    }
}

impl Default for Stats {
    fn default() -> (r: Stats)
        ensures
            r@ == Tally::zero(),
    {
        Stats::zero()
    }
}

/// Adding totals is commutative, and the empty total is its identity.
pub proof fn lemma_add_commutative_with_identity(a: Stats, b: Stats)
    ensures
        a@.plus(b@) == b@.plus(a@),
        a@.plus(Tally::zero()) == a@,
        Tally::zero().plus(a@) == a@,
{
}

} // verus!
