//! The record of the particles that a frame has evaluated, which keeps a
//! particle from being evaluated again after it has moved into a slot that
//! the scan has yet to reach.

use std::collections::HashSet;
use vstd::prelude::*;

verus! {

broadcast use vstd::std_specs::hash::group_hash_axioms;

/// The ids evaluated so far in a frame, in the order of their evaluation,
/// with a set beside them for the membership test.
pub struct Evaluated {
    order: Vec<u32>,
    members: HashSet<u32>,
}

impl View for Evaluated {
    type V = Seq<u32>;

    /// The ids in the order of their evaluation.
    closed spec fn view(&self) -> Seq<u32> {
        self.order@
    }
}

impl Evaluated {
    /// The record's invariant: the set holds exactly the recorded ids.
    pub closed spec fn wf(&self) -> bool {
        forall|id: u32| self.members@.contains(id) <==> self.order@.contains(id)
    }

    /// A record without ids.
    pub fn new() -> (record: Evaluated)
        ensures
            record.wf(),
            record@ == Seq::<u32>::empty(),
    {
        Evaluated { order: Vec::new(), members: HashSet::new() }
    }

    /// Tells whether `id` has been recorded.
    pub fn contains(&self, id: u32) -> (recorded: bool)
        requires
            self.wf(),
        ensures
            recorded == self@.contains(id),
    {
        self.members.contains(&id)
    }

    /// Records `id` as evaluated.
    pub fn record(&mut self, id: u32)
        requires
            old(self).wf(),
        ensures
            final(self).wf(),
            final(self)@ == old(self)@.push(id),
    {
        self.order.push(id);
        self.members.insert(id);
        proof {
            let before = old(self).order@;
            let after = self.order@;
            assert forall|other: u32| self.members@.contains(other) <==> after.contains(
                other,
            ) by {
                if other == id {
                    assert(after[before.len() as int] == id);
                } else if before.contains(other) {
                    let i = choose|i: int| 0 <= i < before.len() && before[i] == other;
                    assert(after[i] == other);
                } else if after.contains(other) {
                    let i = choose|i: int| 0 <= i < after.len() && after[i] == other;
                    assert(before[i] == other);
                }
            }
        }
    }

    /// Gives up the record for the ids in the order of their evaluation.
    pub fn into_ids(self) -> (ids: Vec<u32>)
        ensures
            ids@ == self@,
    {
        self.order
    }
}

} // verus!
