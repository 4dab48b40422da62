//! Which instances of a peripheral are taken. Each has one owner at a time.

use vstd::prelude::*;

verus! {

/// A flag per instance.
pub struct Claims {
    pub taken: Vec<bool>,
}

impl View for Claims {
    type V = Seq<bool>;

    open spec fn view(&self) -> Seq<bool> {
        self.taken@
    }
}

/// Whether a claim wins, and the flags after it.
pub open spec fn claimed(before: Seq<bool>, index: int) -> (bool, Seq<bool>) {
    (!before[index], before.update(index, true))
}

/// The flags after a release.
pub open spec fn released(before: Seq<bool>, index: int) -> Seq<bool> {
    before.update(index, false)
}

impl Claims {
    /// `count` instances, none of them taken.
    pub fn new(count: usize) -> (c: Self)
        ensures
            c@ == Seq::new(count as nat, |i: int| false),
    {
        let mut taken: Vec<bool> = Vec::new();
        for i in 0..count
            invariant
                taken@ == Seq::new(i as nat, |k: int| false),
        {
            taken.push(false);
            assert(taken@ =~= Seq::new((i + 1) as nat, |k: int| false));
        }
        Claims { taken }
    }

    /// Takes an instance that is free; `false`, and nothing changes, where it is
    /// taken already.
    pub fn claim(&mut self, index: usize) -> (won: bool)
        requires
            index < old(self)@.len(),
        ensures
            (won, final(self)@) == claimed(old(self)@, index as int),
    {
        let won: bool = !self.taken[index];
        self.taken[index] = true;
        won
    }

    /// Frees an instance.
    pub fn release(&mut self, index: usize)
        requires
            index < old(self)@.len(),
        ensures
            final(self)@ == released(old(self)@, index as int),
    {
        self.taken[index] = false;
    }
}

/// Of two claims on one instance, with no release between, only the first can
/// win; a release makes the instance claimable again, and neither touches another.
pub proof fn law_one_owner_at_a_time(before: Seq<bool>, index: int, other: int)
    requires
        0 <= index < before.len(),
        0 <= other < before.len(),
        index != other,
    ensures
        ({
            let after = claimed(before, index).1;
            &&& !claimed(after, index).0
            &&& claimed(after, index).1 == after
            &&& claimed(released(after, index), index).0
            &&& claimed(after, other).0 == claimed(before, other).0
            &&& claimed(released(before, index), other).0 == claimed(before, other).0
        }),
{
    let after = claimed(before, index).1;
    assert(claimed(after, index).1 =~= after);
}

} // verus!
