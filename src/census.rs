//! The census: how many living organisms each species has.

use crate::organism::Organism;
use vstd::prelude::*;

verus! {

/// The number of organisms of one species.
#[derive(Clone, Debug)]
pub struct SpeciesCount {
    pub name: String,
    pub count: u64,
}

/// The species name of an organism.
pub open spec fn name_of(o: Organism) -> Seq<char> {
    o.shared_state.species.name@
}

/// How many organisms of `pop` belong to the species named `name`.
pub open spec fn count_named(pop: Seq<Organism>, name: Seq<char>) -> nat
    decreases pop.len(),
{
    if pop.len() == 0 {
        0
    } else {
        count_named(pop.drop_last(), name) + if name_of(pop.last()) == name {
            1nat
        } else {
            0nat
        }
    }
}

/// The census counts `pop` exactly: one entry per name, each with the
/// number of organisms of that name, and an entry for every organism.
pub open spec fn census_ok(c: Seq<SpeciesCount>, pop: Seq<Organism>) -> bool {
    &&& forall|k: int| 0 <= k < c.len() ==> (#[trigger] c[k]).count == count_named(pop, c[k].name@)
    &&& forall|k1: int, k2: int|
        0 <= k1 < c.len() && 0 <= k2 < c.len() && k1 != k2 ==> (#[trigger] c[k1]).name@
            != (#[trigger] c[k2]).name@
    &&& forall|j: int| 0 <= j < pop.len() ==> covered(c, name_of(#[trigger] pop[j]))
}

/// The census has an entry for `name`.
pub open spec fn covered(c: Seq<SpeciesCount>, name: Seq<char>) -> bool {
    exists|k: int| 0 <= k < c.len() && (#[trigger] c[k]).name@ == name
}

/// Counting distributes over concatenation.
pub proof fn lemma_count_concat(a: Seq<Organism>, b: Seq<Organism>, name: Seq<char>)
    ensures
        count_named(a + b, name) == count_named(a, name) + count_named(b, name),
    decreases b.len(),
{
    if b.len() == 0 {
        assert(a + b =~= a);
    } else {
        assert((a + b).drop_last() =~= a + b.drop_last());
        lemma_count_concat(a, b.drop_last(), name);
    }
}

/// A name that no organism carries is counted zero times.
pub proof fn lemma_count_absent(pop: Seq<Organism>, name: Seq<char>)
    requires
        forall|j: int| 0 <= j < pop.len() ==> name_of(#[trigger] pop[j]) != name,
    ensures
        count_named(pop, name) == 0,
    decreases pop.len(),
{
    if pop.len() > 0 {
        lemma_count_absent(pop.drop_last(), name);
    }
}

/// No species counts more organisms than there are.
pub proof fn lemma_count_bound(pop: Seq<Organism>, name: Seq<char>)
    ensures
        count_named(pop, name) <= pop.len(),
    decreases pop.len(),
{
    if pop.len() > 0 {
        lemma_count_bound(pop.drop_last(), name);
    }
}

/// Two populations whose organisms carry the same names, place by place,
/// have the same census.
pub proof fn lemma_count_same_names(a: Seq<Organism>, b: Seq<Organism>, name: Seq<char>)
    requires
        a.len() == b.len(),
        forall|j: int| 0 <= j < a.len() ==> name_of(#[trigger] a[j]) == name_of(b[j]),
    ensures
        count_named(a, name) == count_named(b, name),
    decreases a.len(),
{
    if a.len() > 0 {
        lemma_count_same_names(a.drop_last(), b.drop_last(), name);
    }
}

/// Counts one more (`increase`) or one fewer organism of the species named
/// `name`; a name seen for the first time gets an entry of its own.
pub fn adjust_species_counter(name: &String, organism_counter: &mut Vec<SpeciesCount>, increase: bool)
    requires
        forall|k1: int, k2: int|
            0 <= k1 < old(organism_counter)@.len() && 0 <= k2 < old(organism_counter)@.len() && k1
                != k2 ==> (#[trigger] old(organism_counter)@[k1]).name@ != (#[trigger] old(
                organism_counter,
            )@[k2]).name@,
    ensures
        forall|k: int|
            0 <= k < old(organism_counter)@.len() ==> (#[trigger] final(organism_counter)@[k]).name@
                == old(organism_counter)@[k].name@,
        forall|k: int|
            0 <= k < old(organism_counter)@.len() && old(organism_counter)@[k].name@ != name@ ==> (
            #[trigger] final(organism_counter)@[k]).count == old(organism_counter)@[k].count,
        forall|k: int|
            0 <= k < old(organism_counter)@.len() && old(organism_counter)@[k].name@ == name@ ==> (
            #[trigger] final(organism_counter)@[k]).count == if increase {
                if old(organism_counter)@[k].count == u64::MAX {
                    u64::MAX as int
                } else {
                    old(organism_counter)@[k].count + 1
                }
            } else {
                if old(organism_counter)@[k].count == 0 {
                    0
                } else {
                    old(organism_counter)@[k].count - 1
                }
            },
        (exists|k: int|
            0 <= k < old(organism_counter)@.len() && (#[trigger] old(organism_counter)@[k]).name@
                == name@) || !increase ==> final(organism_counter)@.len() == old(
            organism_counter,
        )@.len(),
        !(exists|k: int|
            0 <= k < old(organism_counter)@.len() && (#[trigger] old(organism_counter)@[k]).name@
                == name@) && increase ==> {
            &&& final(organism_counter)@.len() == old(organism_counter)@.len() + 1
            &&& final(organism_counter)@.last().name@ == name@
            &&& final(organism_counter)@.last().count == 1
        },
{
    let mut k: usize = 0;
    while k < organism_counter.len()
        invariant
            k <= organism_counter@.len(),
            organism_counter@ == old(organism_counter)@,
            forall|k1: int, k2: int|
                0 <= k1 < old(organism_counter)@.len() && 0 <= k2 < old(organism_counter)@.len() && k1
                    != k2 ==> (#[trigger] old(organism_counter)@[k1]).name@ != (#[trigger] old(
                    organism_counter,
                )@[k2]).name@,
            forall|m: int| 0 <= m < k ==> (#[trigger] organism_counter@[m]).name@ != name@,
        decreases organism_counter@.len() - k,
    {
        if organism_counter[k].name == *name {
            let old_count = organism_counter[k].count;
            let count = if increase {
                if old_count == u64::MAX {
                    old_count
                } else {
                    old_count + 1
                }
            } else {
                if old_count == 0 {
                    0
                } else {
                    old_count - 1
                }
            };
            let entry_name = organism_counter[k].name.clone();
            proof {
                assert forall|m: int|
                    0 <= m < old(organism_counter)@.len() && m != k implies (#[trigger] old(
                        organism_counter,
                    )@[m]).name@ != name@ by {
                    assert(old(organism_counter)@[m].name@ != old(organism_counter)@[k as int].name@);
                }
            }
            organism_counter.set(k, SpeciesCount { name: entry_name, count });
            return;
        }
        k = k + 1;
    }
    if increase {
        organism_counter.push(SpeciesCount { name: name.clone(), count: 1 });
    }
}

/// Counts a new organism in: the census of `pop` becomes that of `pop`
/// with the organism appended.
pub(crate) fn count_in(
    organism: &Organism,
    organism_counter: &mut Vec<SpeciesCount>,
    Ghost(pop): Ghost<Seq<Organism>>,
)
    requires
        census_ok(old(organism_counter)@, pop),
        pop.len() < u64::MAX,
    ensures
        census_ok(final(organism_counter)@, pop.push(*organism)),
{
    let ghost old_c = organism_counter@;
    let ghost name = name_of(*organism);
    adjust_species_counter(&organism.shared_state.species.name, organism_counter, true);
    proof {
        let new_pop = pop.push(*organism);
        assert(new_pop.drop_last() =~= pop);
        let c = organism_counter@;
        assert forall|k: int| 0 <= k < c.len() implies (#[trigger] c[k]).count == count_named(
            new_pop,
            c[k].name@,
        ) by {
            if k < old_c.len() {
                lemma_count_bound(pop, old_c[k].name@);
            } else {
                assert forall|j: int| 0 <= j < pop.len() implies name_of(#[trigger] pop[j])
                    != name by {
                    let kk = choose|kk: int| 0 <= kk < old_c.len() && (#[trigger] old_c[kk]).name@ == name_of(pop[j]);
                    assert(old_c[kk].name@ == name_of(pop[j]));
                }
                lemma_count_absent(pop, name);
            }
        }
        assert forall|j: int| 0 <= j < new_pop.len() implies covered(c, name_of(#[trigger] new_pop[j])) by {
            if j < pop.len() {
                assert(new_pop[j] == pop[j]);
                let kk = choose|kk: int| 0 <= kk < old_c.len() && (#[trigger] old_c[kk]).name@ == name_of(pop[j]);
                assert(c[kk].name@ == name_of(new_pop[j]));
            } else if exists|k: int| 0 <= k < old_c.len() && (#[trigger] old_c[k]).name@ == name {
                let kk = choose|kk: int| 0 <= kk < old_c.len() && (#[trigger] old_c[kk]).name@ == name;
                assert(c[kk].name@ == name_of(new_pop[j]));
            } else {
                assert(c[c.len() - 1].name@ == name_of(new_pop[j]));
            }
        }
    }
}

/// Counts an organism out: the census of `a`, the organism and `b` becomes
/// that of `a` and `b`.
pub(crate) fn count_out(
    organism: &Organism,
    organism_counter: &mut Vec<SpeciesCount>,
    Ghost(a): Ghost<Seq<Organism>>,
    Ghost(b): Ghost<Seq<Organism>>,
)
    requires
        census_ok(old(organism_counter)@, a + seq![*organism] + b),
    ensures
        census_ok(final(organism_counter)@, a + b),
{
    let ghost old_c = organism_counter@;
    let ghost name = name_of(*organism);
    let ghost whole = a + seq![*organism] + b;
    proof {
        assert(whole[a.len() as int] == *organism);
    }
    adjust_species_counter(&organism.shared_state.species.name, organism_counter, false);
    proof {
        let c = organism_counter@;
        assert(c.len() == old_c.len());
        assert forall|k: int| 0 <= k < c.len() implies (#[trigger] c[k]).count == count_named(
            a + b,
            c[k].name@,
        ) by {
            let n = c[k].name@;
            lemma_count_concat(a + seq![*organism], b, n);
            lemma_count_concat(a, seq![*organism], n);
            lemma_count_concat(a, b, n);
            assert(seq![*organism].drop_last() =~= Seq::<Organism>::empty());
            assert(count_named(Seq::<Organism>::empty(), n) == 0);
            assert(count_named(seq![*organism], n) == if name == n {
                1nat
            } else {
                0nat
            });
            assert(count_named(whole, n) == count_named(a, n) + count_named(seq![*organism], n)
                + count_named(b, n));
            assert(old_c[k].count == count_named(whole, n));
        }
        assert forall|j: int| 0 <= j < (a + b).len() implies covered(c, name_of(#[trigger] (a + b)[j])) by {
            let jj = if j < a.len() {
                j
            } else {
                j + 1
            };
            assert(whole[jj] == (a + b)[j]);
            let kk = choose|kk: int| 0 <= kk < old_c.len() && (#[trigger] old_c[kk]).name@ == name_of(whole[jj]);
            assert(c[kk].name@ == name_of((a + b)[j]));
        }
    }
}

/// The census of a population is that of any population whose organisms
/// carry the same names, place by place.
pub proof fn lemma_census_same_names(c: Seq<SpeciesCount>, p: Seq<Organism>, q: Seq<Organism>)
    requires
        census_ok(c, p),
        p.len() == q.len(),
        forall|j: int| 0 <= j < p.len() ==> name_of(#[trigger] p[j]) == name_of(q[j]),
    ensures
        census_ok(c, q),
{
    assert forall|k: int| 0 <= k < c.len() implies (#[trigger] c[k]).count == count_named(
        q,
        c[k].name@,
    ) by {
        lemma_count_same_names(p, q, c[k].name@);
    }
    assert forall|j: int| 0 <= j < q.len() implies covered(c, name_of(#[trigger] q[j])) by {
        assert(name_of(p[j]) == name_of(q[j]));
        let kk = choose|kk: int| 0 <= kk < c.len() && (#[trigger] c[kk]).name@ == name_of(p[j]);
        assert(c[kk].name@ == name_of(q[j]));
    }
    assert forall|k1: int, k2: int|
        0 <= k1 < c.len() && 0 <= k2 < c.len() && k1 != k2 implies (#[trigger] c[k1]).name@
            != (#[trigger] c[k2]).name@ by {}
}

} // verus!
