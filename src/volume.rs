//! The running total of what has been sold.
use vstd::prelude::*;
use crate::word::{at_least, checked_add, word_bound, U256};

verus! {

/// The sum of a sequence of amounts.
pub open spec fn sum(s: Seq<nat>) -> nat
    decreases s.len(),
{
    if s.len() == 0 {
        0
    } else {
        sum(s.drop_last()) + s.last()
    }
}

pub proof fn lemma_sum_append(a: Seq<nat>, b: Seq<nat>)
    ensures
        sum(a + b) == sum(a) + sum(b),
    decreases b.len(),
{
    if b.len() > 0 {
        assert((a + b).drop_last() =~= a + b.drop_last());
        lemma_sum_append(a, b.drop_last());
    }
}

/// Why an amount was not added.
#[derive(Clone, Copy, Debug, PartialEq, Eq, Structural)]
pub enum VolumeError {
    /// The total would not fit in 256 bits.
    Overflow,
}

/// The total sold so far and the target it is measured against. Updates take
/// `&mut self`, so concurrent callers go through one lock and each sees the
/// total that the previous update left.
pub struct VolumeTracker {
    pub total: U256,
    pub target: U256,
    /// Each amount added, in order.
    pub sold: Ghost<Seq<nat>>,
}

impl VolumeTracker {
    /// The total is the sum of the amounts added.
    pub open spec fn wf(&self) -> bool {
        self.total@ == sum(self.sold@)
    }

    /// A tracker at zero.
    pub fn new(target: U256) -> (r: VolumeTracker)
        ensures
            r.wf(),
            r.total@ == 0,
            r.sold@ == Seq::<nat>::empty(),
            r.target@ == target@,
    {
        VolumeTracker { total: U256::zero(), target, sold: Ghost(Seq::empty()) }
    }

    /// Adds a sold amount and reports the new total and whether it has reached
    /// the target. An amount that would take the total past 256 bits is
    /// refused and changes nothing.
    pub fn add_and_check(&mut self, amount: U256) -> (r: Result<(U256, bool), VolumeError>)
        requires
            old(self).wf(),
        ensures
            final(self).wf(),
            final(self).target@ == old(self).target@,
            match r {
                Ok((t, reached)) => {
                    &&& old(self).total@ + amount@ < word_bound()
                    &&& final(self).total@ == old(self).total@ + amount@
                    &&& final(self).sold@ == old(self).sold@.push(amount@)
                    &&& t@ == final(self).total@
                    &&& reached == (t@ >= old(self).target@)
                },
                Err(e) => {
                    &&& e == VolumeError::Overflow
                    &&& old(self).total@ + amount@ >= word_bound()
                    &&& final(self).total@ == old(self).total@
                    &&& final(self).sold@ == old(self).sold@
                },
            },
    {
        match checked_add(self.total, amount) {
            Some(t) => {
                proof {
                    let s = self.sold@.push(amount@);
                    assert(s.drop_last() =~= self.sold@);
                }
                self.total = t;
                self.sold = Ghost(self.sold@.push(amount@));
                let reached = at_least(t, self.target);
                Ok((t, reached))
            },
            None => Err(VolumeError::Overflow),
        }
    }

    /// The total sold so far.
    pub fn total(&self) -> (r: U256)
        ensures
            r@ == self.total@,
    {
        self.total
    }
}

/// The total never goes down, and what it has gained between two states is
/// exactly the sum of the amounts added in between, whatever order the
/// updates came in.
pub proof fn lemma_total_accumulates(before: VolumeTracker, after: VolumeTracker)
    requires
        before.wf(),
        after.wf(),
        before.sold@.is_prefix_of(after.sold@),
    ensures
        after.total@ >= before.total@,
        after.total@ == before.total@ + sum(after.sold@.skip(before.sold@.len() as int)),
{
    let a = before.sold@;
    let b = after.sold@.skip(a.len() as int);
    assert(after.sold@ =~= a + b);
    lemma_sum_append(a, b);
}

} // verus!
