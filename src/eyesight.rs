//! What one organism sees of a group: the others within a fixed distance.

use crate::geometry::{dist_sq, distance_sq};
use crate::organism::Organism;
use vstd::prelude::*;

verus! {

/// How far an organism sees, in thousandths of a unit.
pub const SIGHT: u64 = 10_000;

/// An organism among a group of others.
pub struct OrganismEyesight {
    pub host: Box<Organism>,
    pub organisms: Vec<Organism>,
}

impl OrganismEyesight {
    /// `o` is seen by the host: another organism within sight.
    pub open spec fn sees(&self, o: Organism) -> bool {
        o.id != self.host.id && dist_sq(self.host.shared_state.position, o.shared_state.position)
            <= SIGHT * SIGHT
    }

    /// The organisms of the group, other than the host, within sight of the
    /// host, in their order in the group.
    pub fn see_organisms(&self) -> (r: Vec<&Organism>)
        requires
            self.host.shared_state.position.in_world(),
            forall|i: int|
                0 <= i < self.organisms@.len() ==> (#[trigger] self.organisms@[i]).shared_state.position.in_world(),
        ensures
            r@.len() == self.organisms@.filter(|o: Organism| self.sees(o)).len(),
            forall|k: int|
                0 <= k < r@.len() ==> *(#[trigger] r@[k]) == self.organisms@.filter(
                    |o: Organism| self.sees(o),
                )[k],
    {
        let mut vec: Vec<&Organism> = Vec::new();
        let mut i: usize = 0;
        while i < self.organisms.len()
            invariant
                i <= self.organisms@.len(),
                self.host.shared_state.position.in_world(),
                forall|k: int|
                    0 <= k < self.organisms@.len() ==> (#[trigger] self.organisms@[k]).shared_state.position.in_world(),
                vec@.len() == self.organisms@.subrange(0, i as int).filter(|o: Organism| self.sees(o)).len(),
                forall|k: int|
                    0 <= k < vec@.len() ==> *(#[trigger] vec@[k]) == self.organisms@.subrange(
                        0,
                        i as int,
                    ).filter(|o: Organism| self.sees(o))[k],
            decreases self.organisms@.len() - i,
        {
            assert(SIGHT * SIGHT == 100_000_000);
            let organism = &self.organisms[i];
            proof {
                let s1 = self.organisms@.subrange(0, i as int + 1);
                assert(s1.drop_last() =~= self.organisms@.subrange(0, i as int));
                assert(s1.last() == *organism);
                reveal(Seq::filter);
            }
            if organism.id() != self.host.id() && distance_sq(
                self.host.position(),
                organism.position(),
            ) <= (SIGHT as u128) * (SIGHT as u128) {
                vec.push(organism);
            }
            i = i + 1;
        }
        proof {
            assert(self.organisms@.subrange(0, self.organisms@.len() as int) =~= self.organisms@);
        }
        vec
    }
}

} // verus!
