//! The population manager: runs one tick over every organism and applies
//! the births, deaths and meals that the ticks ask for.

use std::collections::HashSet;

use crate::awareness::{square_around, EnvironmentAwareness, ForeignerInfo};
use crate::census::{
    census_ok, count_in, count_out, lemma_census_same_names, name_of, SpeciesCount,
};
use crate::geometry::{offset_spec, Point, HEADINGS, MAX_REACH};
use crate::organism::{corpse_species_spec, is_fresh_idle, organism_step, Organism};
use crate::random::random_between;
use crate::shared_state::saturating_sum;
use crate::species::{Species, MAX_DENSITY};
use crate::states::{OrganismResult, OrganismState, CHILDREN_MAX};
use vstd::prelude::*;

verus! {

broadcast use vstd::std_specs::hash::group_hash_axioms;

/// Half the side of the square in which the first organisms are scattered,
/// in thousandths of a unit.
pub const BOUNDARY_DISTANCE_FROM_CENTER: u64 = 100_000;

/// Area of that square, in square units.
pub const WORLD_SIZE: u64 = 40_000;

/// Side of a cell of the spatial index, in thousandths of a unit.
pub const CHUNK_SIZE: u64 = 32_000;

/// Most organisms the world holds; births and corpses beyond it are dropped.
pub const MAX_POPULATION: usize = 1_000_000_000;

/// Thousandths cubed: the scale between a density in thousandths per square
/// unit times a squared distance in thousandths, and a number of organisms.
pub const DENSITY_SCALE: u128 = 1_000_000_000;

/// One species of the first population and how densely it is scattered.
#[derive(Clone, Debug)]
pub struct SpeciesGenerationConfiguration {
    pub species: Species,
    /// Organisms per square unit, in thousandths.
    pub amount_per_meter: u64,
}

/// The species of the first population.
#[derive(Clone, Debug)]
pub struct GenerationConfiguration {
    pub species: Vec<SpeciesGenerationConfiguration>,
}

impl GenerationConfiguration {
    /// Every species is well formed and its density within limits.
    pub open spec fn wf(&self) -> bool {
        forall|i: int|
            0 <= i < self.species@.len() ==> (#[trigger] self.species@[i]).species.wf()
                && self.species@[i].amount_per_meter <= MAX_DENSITY
    }
}

impl GenerationConfiguration {
    /// Whether every species is well formed and every density within limits.
    pub fn is_valid(&self) -> (r: bool)
        ensures
            r == self.wf(),
    {
        let mut i: usize = 0;
        while i < self.species.len()
            invariant
                i <= self.species@.len(),
                forall|j: int|
                    0 <= j < i ==> (#[trigger] self.species@[j]).species.wf()
                        && self.species@[j].amount_per_meter <= MAX_DENSITY,
            decreases self.species@.len() - i,
        {
            let entry = &self.species[i];
            if !entry.species.is_valid() || entry.amount_per_meter > MAX_DENSITY {
                proof {
                    assert(!(self.species@[i as int].species.wf()
                        && self.species@[i as int].amount_per_meter <= MAX_DENSITY));
                }
                return false;
            }
            i = i + 1;
        }
        true
    }
}

/// What the presentation layer sees of one organism.
#[derive(Clone, Debug)]
pub struct OrganismInfo {
    pub id: u64,
    pub state: OrganismState,
    pub position: Point,
    pub age: u64,
    pub energy: u64,
    pub species: Species,
}

/// The view of an organism in a snapshot.
pub open spec fn organism_info_spec(o: Organism) -> OrganismInfo {
    OrganismInfo {
        id: o.id,
        state: o.state,
        position: o.shared_state.position,
        age: o.shared_state.age,
        energy: o.shared_state.energy,
        species: o.shared_state.species,
    }
}

/// The snapshot views of a population, in order.
pub open spec fn infos_match(infos: Seq<OrganismInfo>, organisms: Seq<Organism>) -> bool {
    &&& infos.len() == organisms.len()
    &&& forall|j: int| 0 <= j < organisms.len() ==> infos[j] == organism_info_spec(#[trigger] organisms[j])
}

impl OrganismInfo {
    /// An exact copy of the view.
    pub fn duplicate(&self) -> (r: OrganismInfo)
        ensures
            r == *self,
    {
        OrganismInfo {
            id: self.id,
            state: self.state,
            position: self.position,
            age: self.age,
            energy: self.energy,
            species: self.species.duplicate(),
        }
    }

    pub fn new(organism: &Organism) -> (r: OrganismInfo)
        ensures
            r == organism_info_spec(*organism),
    {
        OrganismInfo {
            id: organism.id,
            state: organism.state,
            position: organism.shared_state.position,
            age: organism.shared_state.age,
            energy: organism.shared_state.energy,
            species: organism.shared_state.species.duplicate(),
        }
    }

    /// The snapshot views of a population.
    pub fn from_organisms(organisms: &Vec<Organism>) -> (r: Vec<OrganismInfo>)
        ensures
            infos_match(r@, organisms@),
    {
        let mut vec: Vec<OrganismInfo> = Vec::new();
        Self::from_organisms_fill_vec(organisms, &mut vec);
        vec
    }

    /// Replaces the contents of `target` with the snapshot views of a
    /// population.
    pub fn from_organisms_fill_vec(organisms: &Vec<Organism>, target: &mut Vec<OrganismInfo>)
        ensures
            infos_match(final(target)@, organisms@),
    {
        target.clear();
        let mut i: usize = 0;
        while i < organisms.len()
            invariant
                i <= organisms@.len(),
                target@.len() == i,
                forall|j: int| 0 <= j < i ==> target@[j] == organism_info_spec(#[trigger] organisms@[j]),
            decreases organisms@.len() - i,
        {
            target.push(OrganismInfo::new(&organisms[i]));
            i = i + 1;
        }
    }
}

/// One tick's worth of simulation state handed to the presentation layer.
#[derive(Clone, Debug)]
pub struct SimulationData {
    pub organism_infos: Vec<OrganismInfo>,
    pub organism_counter: Vec<SpeciesCount>,
    /// Simulated time, in milliseconds.
    pub time: u64,
    pub step: u64,
}

impl SimulationData {
    /// An exact copy of the snapshot, to hand to another thread.
    pub fn duplicate(&self) -> (r: SimulationData)
        ensures
            r.organism_infos@ == self.organism_infos@,
            r.organism_counter@.len() == self.organism_counter@.len(),
            forall|k: int|
                0 <= k < self.organism_counter@.len() ==> (#[trigger] r.organism_counter@[k]).name
                    == self.organism_counter@[k].name && r.organism_counter@[k].count
                    == self.organism_counter@[k].count,
            r.time == self.time,
            r.step == self.step,
    {
        let mut organism_infos: Vec<OrganismInfo> = Vec::new();
        let mut i: usize = 0;
        while i < self.organism_infos.len()
            invariant
                i <= self.organism_infos@.len(),
                organism_infos@ == self.organism_infos@.subrange(0, i as int),
            decreases self.organism_infos@.len() - i,
        {
            organism_infos.push(self.organism_infos[i].duplicate());
            proof {
                assert(organism_infos@ =~= self.organism_infos@.subrange(0, i as int + 1));
            }
            i = i + 1;
        }
        let mut organism_counter: Vec<SpeciesCount> = Vec::new();
        let mut k: usize = 0;
        while k < self.organism_counter.len()
            invariant
                k <= self.organism_counter@.len(),
                organism_counter@.len() == k,
                forall|m: int|
                    0 <= m < k ==> (#[trigger] organism_counter@[m]).name
                        == self.organism_counter@[m].name && organism_counter@[m].count
                        == self.organism_counter@[m].count,
            decreases self.organism_counter@.len() - k,
        {
            let entry = &self.organism_counter[k];
            organism_counter.push(SpeciesCount { name: entry.name.clone(), count: entry.count });
            k = k + 1;
        }
        proof {
            assert(organism_infos@ =~= self.organism_infos@);
        }
        SimulationData { organism_infos, organism_counter, time: self.time, step: self.step }
    }
}

/// The change in population one organism's tick asks for.
#[derive(Debug)]
pub enum OrganismsChange {
    Add(Vec<Organism>),
    Remove(u64),
    AddRemove(Vec<Organism>, u64),
    Nothing,
}

impl OrganismsChange {
    /// The organisms to add.
    pub open spec fn added(&self) -> Seq<Organism> {
        match self {
            OrganismsChange::Add(v) => v@,
            OrganismsChange::AddRemove(v, _) => v@,
            _ => Seq::empty(),
        }
    }

    /// The id of the organism to remove, if any.
    pub open spec fn removed(&self) -> Option<u64> {
        match self {
            OrganismsChange::Remove(id) => Some(*id),
            OrganismsChange::AddRemove(_, id) => Some(*id),
            _ => None,
        }
    }
}

/// The organisms of `s` carry distinct ids.
pub open spec fn ids_unique(s: Seq<Organism>) -> bool {
    forall|a: int, b: int| 0 <= a < s.len() && 0 <= b < s.len() && a != b ==> (#[trigger] s[a]).id != (#[trigger] s[b]).id
}

/// `v` holds well-formed organisms whose ids count up from `first`.
pub open spec fn fresh_from(v: Seq<Organism>, first: int) -> bool {
    forall|m: int| 0 <= m < v.len() ==> (#[trigger] v[m]).wf() && v[m].id == first + m
}

/// A birth passes the density check when the species sets no limit, or
/// when fewer than `max_per_meter * birth_distance²` organisms of the
/// species are seen (both in thousandths, hence the scale).
pub open spec fn density_allows(n: int, s: Species) -> bool {
    let cap = s.max_per_meter * s.birth_distance * s.birth_distance;
    cap == 0 || n * DENSITY_SCALE < cap
}

/// `v` holds, each once when the index holds each record once, exactly the
/// records in the cells that `o`'s birth distance reaches.
pub open spec fn seen_for_birth(o: Organism, aw: EnvironmentAwareness, v: Seq<ForeignerInfo>) -> bool {
    &&& forall|e: ForeignerInfo|
        #![trigger v.contains(e)]
        v.contains(e) <==> (aw.has(e) && aw.in_rect_cells(
            square_around(o.shared_state.position, o.shared_state.species.birth_distance as int),
            e,
        ))
    &&& aw.records_distinct() ==> v.no_duplicates()
}

/// The density around `o` allows a birth: counted over the records its
/// birth distance reaches (itself included).
pub open spec fn density_ok(o: Organism, aw: EnvironmentAwareness) -> bool {
    exists|v: Seq<ForeignerInfo>|
        #[trigger] seen_for_birth(o, aw, v) && density_allows(
            count_same_species(v, o.shared_state.species.name@) as int,
            o.shared_state.species,
        )
}

/// The density around `o` forbids a birth.
pub open spec fn density_blocked(o: Organism, aw: EnvironmentAwareness) -> bool {
    exists|v: Seq<ForeignerInfo>|
        #[trigger] seen_for_birth(o, aw, v) && !density_allows(
            count_same_species(v, o.shared_state.species.name@) as int,
            o.shared_state.species,
        )
}

/// `v` are up to `amount` children of `parent` in a ring around it, with
/// ids counting up from `next_id`; fewer only when the ids run out.
pub open spec fn children_of(v: Seq<Organism>, parent: Organism, amount: int, next_id: int) -> bool {
    &&& v.len() <= amount
    &&& v.len() == amount || next_id + v.len() == u64::MAX
    &&& fresh_from(v, next_id)
    &&& exists|start: int|
        0 <= start < HEADINGS && #[trigger] ring_around(v, parent, HEADINGS as int / amount, start)
}

/// The population change `c` that tick result `res` of organism `o` (as it
/// is after its tick) asks for, with `room` organisms still fitting and
/// `next_id` the next id to hand out.
pub open spec fn change_matches(
    o: Organism,
    res: OrganismResult,
    aw: EnvironmentAwareness,
    next_id: int,
    room: int,
    c: OrganismsChange,
) -> bool {
    match res {
        OrganismResult::Nothing => c is Nothing,
        OrganismResult::AteOtherOrganism { other_organism_id } => c is Remove && c.removed()
            == Some(other_organism_id),
        OrganismResult::HadChildren { amount } => if amount <= room {
            ||| (c is Add && density_ok(o, aw) && children_of(c.added(), o, amount as int, next_id))
            ||| (c is Nothing && density_blocked(o, aw))
        } else {
            c is Nothing
        },
        OrganismResult::Died => if room >= 1 && next_id < u64::MAX {
            &&& c is AddRemove
            &&& c.removed() == Some(o.id)
            &&& c.added().len() == 1
            &&& c.added()[0].id == next_id
            &&& corpse_at(c.added()[0], o.shared_state.position)
        } else {
            c is Remove && c.removed() == Some(o.id)
        },
        OrganismResult::Disappeared => c is Remove && c.removed() == Some(o.id),
    }
}

/// One organism's part of a tick: its own tick from `o` to `o2` and the
/// population change `c` it asks for.
pub open spec fn tick_of(
    o: Organism,
    aw: EnvironmentAwareness,
    delta: int,
    o2: Organism,
    c: OrganismsChange,
    next_id: int,
    room: int,
) -> bool {
    exists|res: OrganismResult|
        #[trigger] organism_step(o, aw, delta, o2, res) && change_matches(o2, res, aw, next_id, room, c)
}

/// The organisms that the first `k` changes add, in order.
pub open spec fn all_added(cs: Seq<OrganismsChange>, k: int) -> Seq<Organism>
    decreases k,
{
    if k <= 0 {
        Seq::empty()
    } else {
        all_added(cs, k - 1) + cs[k - 1].added()
    }
}

/// One of the changes removes the organism with id `id`.
pub open spec fn removed_by(cs: Seq<OrganismsChange>, id: u64) -> bool {
    exists|j: int| 0 <= j < cs.len() && #[trigger] cs[j].removed() == Some(id)
}

/// The first `k` organisms of `p` that no change removes, in order.
pub open spec fn survivors(p: Seq<Organism>, cs: Seq<OrganismsChange>, k: int) -> Seq<Organism>
    decreases k,
{
    if k <= 0 {
        Seq::empty()
    } else {
        survivors(p, cs, k - 1) + if removed_by(cs, p[k - 1].id) {
            Seq::empty()
        } else {
            seq![p[k - 1]]
        }
    }
}

/// The organisms of `start` ticked, in order, into `ticked`, asking for
/// `changes`: each with the room and next id left by the changes before it.
pub open spec fn tick_record(
    start: Seq<Organism>,
    aw: EnvironmentAwareness,
    delta: int,
    first_id: int,
    ticked: Seq<Organism>,
    changes: Seq<OrganismsChange>,
) -> bool {
    &&& ticked.len() == start.len()
    &&& changes.len() == start.len()
    &&& forall|j: int|
        0 <= j < start.len() ==> tick_of(
            start[j],
            aw,
            delta,
            ticked[j],
            #[trigger] changes[j],
            first_id + all_added(changes, j).len(),
            MAX_POPULATION - start.len() - all_added(changes, j).len(),
        )
}

/// Appending a change leaves what the earlier changes add.
proof fn lemma_all_added_prefix(cs: Seq<OrganismsChange>, c: OrganismsChange, k: int)
    requires
        0 <= k <= cs.len(),
    ensures
        all_added(cs.push(c), k) == all_added(cs, k),
    decreases k,
{
    if k > 0 {
        lemma_all_added_prefix(cs, c, k - 1);
        assert(cs.push(c)[k - 1] == cs[k - 1]);
    }
}

/// How many records of `v` belong to the species named `name`.
pub open spec fn count_same_species(v: Seq<ForeignerInfo>, name: Seq<char>) -> nat
    decreases v.len(),
{
    if v.len() == 0 {
        0
    } else {
        count_same_species(v.drop_last(), name) + if v.last().species_name@ == name {
            1nat
        } else {
            0nat
        }
    }
}

/// `children` are newborns of the parent's species in a ring around it:
/// child `i` stands the birth distance away along heading
/// `start + i * spacing`.
pub open spec fn ring_around(children: Seq<Organism>, parent: Organism, spacing: int, start: int) -> bool {
    forall|i: int|
        0 <= i < children.len() ==> {
            &&& (#[trigger] children[i]).shared_state.species == parent.shared_state.species
            &&& children[i].shared_state.age == 0
            &&& is_fresh_idle(children[i].state)
            &&& children[i].shared_state.position == offset_spec(
                parent.shared_state.position,
                (start + i * spacing) % HEADINGS as int,
                parent.shared_state.species.birth_distance as int,
            )
        }
}

/// Hands out the next id; none is left once the counter is exhausted.
pub fn allocate_id(next_id: &mut u64) -> (r: Option<u64>)
    ensures
        *old(next_id) == u64::MAX ==> r is None && *final(next_id) == *old(next_id),
        *old(next_id) < u64::MAX ==> r == Some(*old(next_id)) && *final(next_id) == *old(next_id)
            + 1,
{
    if *next_id == u64::MAX {
        None
    } else {
        let id = *next_id;
        *next_id = id + 1;
        Some(id)
    }
}

/// `o` is a corpse lying at `p`.
pub open spec fn corpse_at(o: Organism, p: Point) -> bool {
    &&& corpse_species_spec(o.shared_state.species)
    &&& o.shared_state.position == p
    &&& o.state is Dead
}

/// Organisms of one species entry in the first population: its density
/// (thousandths per square unit) times the world's area.
pub open spec fn species_amount(c: SpeciesGenerationConfiguration) -> int {
    c.amount_per_meter * WORLD_SIZE / 1000
}

/// Organisms of the first `n` species entries in the first population.
#[verifier::opaque]
pub open spec fn total_amount(cs: Seq<SpeciesGenerationConfiguration>, n: int) -> int
    decreases n,
{
    if n <= 0 {
        0
    } else {
        total_amount(cs, n - 1) + species_amount(cs[n - 1])
    }
}

/// `o` stands in the square where the first organisms are scattered.
pub open spec fn within_boundary(o: Organism) -> bool {
    &&& -BOUNDARY_DISTANCE_FROM_CENTER <= o.shared_state.position.x <= BOUNDARY_DISTANCE_FROM_CENTER
    &&& -BOUNDARY_DISTANCE_FROM_CENTER <= o.shared_state.position.y <= BOUNDARY_DISTANCE_FROM_CENTER
}

/// `o` is a randomized organism of one of the configured species.
pub open spec fn generated_from(o: Organism, cs: Seq<SpeciesGenerationConfiguration>) -> bool {
    &&& exists|i: int| 0 <= i < cs.len() && (#[trigger] cs[i]).species == o.shared_state.species
    &&& o.shared_state.age <= o.shared_state.species.max_age
    &&& o.shared_state.health == o.shared_state.species.max_health
    &&& within_boundary(o)
    &&& is_fresh_idle(o.state)
}

/// `v` lists the organisms of the species entries in order: the organisms
/// at places `total_amount(cs, t)` up to `total_amount(cs, t + 1)` belong to
/// entry `t`, as far as `v` reaches.
pub open spec fn placed_in_order(v: Seq<Organism>, cs: Seq<SpeciesGenerationConfiguration>, upto: int) -> bool {
    forall|t: int, m: int|
        #![trigger v[m], cs[t]]
        0 <= t < upto && total_amount(cs, t) <= m < total_amount(cs, t + 1) && m < v.len()
            ==> v[m].shared_state.species == cs[t].species
}

/// Each entry adds its amount to the running total.
pub proof fn lemma_total_step(cs: Seq<SpeciesGenerationConfiguration>, s: int)
    requires
        0 <= s,
    ensures
        total_amount(cs, s + 1) == total_amount(cs, s) + species_amount(cs[s]),
        total_amount(cs, 0) == 0,
{
    reveal(total_amount);
}

/// Amounts are never negative, so the running totals grow.
proof fn lemma_total_monotonic(cs: Seq<SpeciesGenerationConfiguration>, a: int, b: int)
    requires
        0 <= a <= b,
    ensures
        total_amount(cs, a) <= total_amount(cs, b),
    decreases b - a,
{
    if a < b {
        lemma_total_monotonic(cs, a, b - 1);
        lemma_total_step(cs, b - 1);
        assert(species_amount(cs[b - 1]) >= 0);
    }
}

/// After the organisms of entry `s` are appended, the organisms still list
/// the entries in order.
#[verifier::rlimit(50)]
proof fn lemma_placement_order(
    prev: Seq<Organism>,
    now: Seq<Organism>,
    cs: Seq<SpeciesGenerationConfiguration>,
    s: int,
    complete: bool,
)
    requires
        0 <= s < cs.len(),
        placed_in_order(prev, cs, s),
        prev.len() <= total_amount(cs, s),
        complete ==> prev.len() == total_amount(cs, s),
        !complete ==> now.len() == prev.len(),
        prev.len() <= now.len() <= prev.len() + species_amount(cs[s]),
        forall|m: int| 0 <= m < prev.len() ==> (#[trigger] now[m]) == prev[m],
        forall|m: int|
            prev.len() <= m < now.len() ==> (#[trigger] now[m]).shared_state.species == cs[s].species,
    ensures
        placed_in_order(now, cs, s + 1),
        now.len() <= total_amount(cs, s + 1),
{
    let ts = total_amount(cs, s);
    lemma_total_step(cs, s);
    assert forall|t: int, m: int|
        #![trigger now[m], cs[t]]
        0 <= t < s + 1 && total_amount(cs, t) <= m < total_amount(cs, t + 1) && m < now.len()
            implies now[m].shared_state.species == cs[t].species by {
        lemma_total_step(cs, 0);
        lemma_total_monotonic(cs, 0, t);
        if t < s {
            lemma_total_monotonic(cs, t + 1, s);
            assert(m < prev.len());
            assert(now[m] == prev[m]);
            assert(prev[m].shared_state.species == cs[t].species);
        } else {
            assert(t == s);
            assert(m >= prev.len());
        }
    }
}

/// After the organisms of entry `s` are appended, every organism is well
/// formed, carries its id and is a generated organism of the entries.
proof fn lemma_placement_kinds(
    prev: Seq<Organism>,
    now: Seq<Organism>,
    cs: Seq<SpeciesGenerationConfiguration>,
    s: int,
    first: int,
)
    requires
        0 <= s < cs.len(),
        fresh_from(prev, first),
        forall|m: int| 0 <= m < prev.len() ==> generated_from(#[trigger] prev[m], cs),
        prev.len() <= now.len(),
        forall|m: int| 0 <= m < prev.len() ==> (#[trigger] now[m]) == prev[m],
        forall|m: int|
            prev.len() <= m < now.len() ==> {
                &&& (#[trigger] now[m]).wf()
                &&& now[m].id == first + prev.len() + (m - prev.len())
                &&& now[m].shared_state.species == cs[s].species
                &&& now[m].shared_state.age <= cs[s].species.max_age
                &&& now[m].shared_state.health == cs[s].species.max_health
                &&& within_boundary(now[m])
                &&& is_fresh_idle(now[m].state)
            },
    ensures
        fresh_from(now, first),
        forall|m: int| 0 <= m < now.len() ==> generated_from(#[trigger] now[m], cs),
{
    assert forall|m: int| 0 <= m < now.len() implies generated_from(#[trigger] now[m], cs) by {
        if m < prev.len() {
            assert(now[m] == prev[m]);
        } else {
            assert(cs[s].species == now[m].shared_state.species);
        }
    }
    assert forall|m: int| 0 <= m < now.len() implies (#[trigger] now[m]).wf() && now[m].id == first + m by {
        if m < prev.len() {
            assert(now[m] == prev[m]);
        }
    }
}

/// A random coordinate within the boundary square.
fn random_coordinate() -> (r: i64)
    ensures
        -BOUNDARY_DISTANCE_FROM_CENTER <= r <= BOUNDARY_DISTANCE_FROM_CENTER,
{
    random_between(0, 2 * BOUNDARY_DISTANCE_FROM_CENTER) as i64 - BOUNDARY_DISTANCE_FROM_CENTER as i64
}

/// Energy clamp: in a well-formed simulation, which every tick keeps well
/// formed, each organism's energy lies between zero and its species'
/// maximum.
pub proof fn lemma_energy_clamped(sim: Simulation, j: int)
    requires
        sim.wf(),
        0 <= j < sim.organisms@.len(),
    ensures
        0 <= sim.organisms@[j].shared_state.energy <= sim.organisms@[j].shared_state.species.max_energy,
{
    assert(sim.organisms@[j].wf());
}

/// The population manager.
pub struct Simulation {
    pub organisms: Vec<Organism>,
    pub environment_awareness: EnvironmentAwareness,
    pub simulation_data: SimulationData,
    pub next_id: u64,
}

impl Simulation {
    /// Every organism is well formed and carries its own id below the next
    /// one to hand out; the census and the snapshot views match the
    /// population; the population is within its limit.
    pub open spec fn wf(&self) -> bool {
        &&& forall|j: int| 0 <= j < self.organisms@.len() ==> (#[trigger] self.organisms@[j]).wf()
        &&& forall|j: int| 0 <= j < self.organisms@.len() ==> (#[trigger] self.organisms@[j]).id < self.next_id
        &&& ids_unique(self.organisms@)
        &&& 0 < self.environment_awareness.chunk_size <= MAX_REACH
        &&& census_ok(self.simulation_data.organism_counter@, self.organisms@)
        &&& infos_match(self.simulation_data.organism_infos@, self.organisms@)
        &&& self.organisms@.len() <= MAX_POPULATION
    }

    /// Whether the density around the parent allows a birth: counts the
    /// records of the parent's species in the cells its birth distance
    /// reaches (the parent included).
    pub fn can_add_children(organism: &Organism, aw: &EnvironmentAwareness) -> (r: bool)
        requires
            organism.wf(),
            aw.wf(),
        ensures
            r ==> density_ok(*organism, *aw),
            !r ==> density_blocked(*organism, *aw),
    {
        let species = &organism.shared_state.species;
        let distance = species.birth_distance as u128;
        assert(species.max_per_meter * distance * distance <= MAX_DENSITY * MAX_REACH * MAX_REACH)
            by (nonlinear_arith)
            requires
                species.max_per_meter <= MAX_DENSITY,
                distance <= MAX_REACH,
        ;
        assert(species.max_per_meter * distance <= MAX_DENSITY * MAX_REACH) by (nonlinear_arith)
            requires
                species.max_per_meter <= MAX_DENSITY,
                distance <= MAX_REACH,
        ;
        let cap: u128 = species.max_per_meter as u128 * distance * distance;
        let others = aw.get_radius_around(organism.position(), species.birth_distance);
        if cap == 0 {
            proof {
                assert(density_allows(
                    count_same_species(others@, species.name@) as int,
                    *species,
                ));
                assert(seen_for_birth(*organism, *aw, others@));
            }
            return true;
        }
        let mut count: u64 = 0;
        let mut i: usize = 0;
        while i < others.len()
            invariant
                i <= others@.len(),
                count == count_same_species(others@.subrange(0, i as int), species.name@),
                count <= i,
            decreases others@.len() - i,
        {
            proof {
                assert(others@.subrange(0, i as int + 1).drop_last() =~= others@.subrange(0, i as int));
            }
            if others[i].species_name == species.name {
                count = count + 1;
            }
            i = i + 1;
        }
        proof {
            assert(others@.subrange(0, others@.len() as int) =~= others@);
        }
        let r = (count as u128) * DENSITY_SCALE < cap;
        proof {
            assert(r == density_allows(count_same_species(others@, species.name@) as int, *species));
            assert(seen_for_birth(*organism, *aw, others@));
        }
        r
    }

    /// Up to `amount` children in a ring around the parent: a random first
    /// heading, the others evenly spaced; each child stands the species'
    /// birth distance from the parent. Fewer when the ids run out.
    pub fn create_organism_children(amount: u64, organism: &Organism, next_id: &mut u64) -> (r:
        Vec<Organism>)
        requires
            organism.wf(),
            1 <= amount <= HEADINGS,
        ensures
            r@.len() <= amount,
            r@.len() == amount || *final(next_id) == u64::MAX,
            *final(next_id) == *old(next_id) + r@.len(),
            fresh_from(r@, *old(next_id) as int),
            exists|start: int|
                0 <= start < HEADINGS && #[trigger] ring_around(
                    r@,
                    *organism,
                    (HEADINGS / amount) as int,
                    start,
                ),
    {
        let mut vec: Vec<Organism> = Vec::new();
        let start = random_between(0, HEADINGS - 1);
        let spacing = HEADINGS / amount;
        let mut i: u64 = 0;
        let mut exhausted = false;
        while i < amount && !exhausted
            invariant
                organism.wf(),
                1 <= amount <= HEADINGS,
                spacing == HEADINGS / amount,
                start < HEADINGS,
                i <= amount,
                vec@.len() == i,
                exhausted ==> *next_id == u64::MAX,
                *next_id == *old(next_id) + i,
                fresh_from(vec@, *old(next_id) as int),
                ring_around(vec@, *organism, spacing as int, start as int),
            decreases amount - i + if exhausted {
                0int
            } else {
                1int
            },
        {
            match allocate_id(next_id) {
                Some(id) => {
                    assert(spacing * i <= HEADINGS) by (nonlinear_arith)
                        requires
                            spacing == HEADINGS / amount,
                            i < amount,
                            amount >= 1,
                    ;
                    let heading = (start + spacing * i) % HEADINGS;
                    vec.push(Organism::new_child_away(id, organism, heading));
                    i = i + 1;
                },
                None => {
                    exhausted = true;
                },
            }
        }
        proof {
            assert(ring_around(vec@, *organism, spacing as int, start as int));
        }
        vec
    }

    /// Runs one organism's tick and turns what it reports into a change of
    /// population: children that pass the density check and fit in the
    /// population (`room`) are added; a meal removes the prey; a death
    /// removes the organism and leaves its corpse; decomposition removes it.
    pub fn simulate_organism(
        organism: &mut Organism,
        delta: u64,
        aw: &EnvironmentAwareness,
        next_id: &mut u64,
        room: usize,
    ) -> (r: OrganismsChange)
        requires
            old(organism).wf(),
            aw.wf(),
        ensures
            final(organism).wf(),
            tick_of(
                *old(organism),
                *aw,
                delta as int,
                *final(organism),
                r,
                *old(next_id) as int,
                room as int,
            ),
            r.added().len() <= room,
            r.added().len() <= CHILDREN_MAX,
            *final(next_id) == *old(next_id) + r.added().len(),
            fresh_from(r.added(), *old(next_id) as int),
            old(organism).is_dead_spec() ==> r.removed() == Some(old(organism).id),
            !old(organism).is_dead_spec() ==> match r.removed() {
                Some(id) => exists|e: ForeignerInfo| aw.has(e) && e.organism_id == id,
                None => true,
            },
    {
        let result = organism.simulate(delta, aw);
        let ghost next_before = *next_id;
        let change = match result {
            OrganismResult::HadChildren { amount } => {
                if amount as usize <= room && Self::can_add_children(organism, aw) {
                    let children = Self::create_organism_children(amount, organism, next_id);
                    proof {
                        let start = choose|start: int|
                            0 <= start < HEADINGS && #[trigger] ring_around(
                                children@,
                                *organism,
                                (HEADINGS / amount) as int,
                                start,
                            );
                        assert(ring_around(children@, *organism, HEADINGS as int / amount as int, start));
                    }
                    OrganismsChange::Add(children)
                } else {
                    OrganismsChange::Nothing
                }
            },
            OrganismResult::AteOtherOrganism { other_organism_id } => {
                OrganismsChange::Remove(other_organism_id)
            },
            OrganismResult::Nothing => OrganismsChange::Nothing,
            OrganismResult::Died => {
                if room >= 1 {
                    match allocate_id(next_id) {
                        Some(id) => {
                            let corpse = Organism::new_corpse(id, organism);
                            OrganismsChange::AddRemove(vec![corpse], organism.id())
                        },
                        None => OrganismsChange::Remove(organism.id()),
                    }
                } else {
                    OrganismsChange::Remove(organism.id())
                }
            },
            OrganismResult::Disappeared => OrganismsChange::Remove(organism.id()),
        };
        proof {
            assert(change_matches(*organism, result, *aw, next_before as int, room as int, change));
            assert(organism_step(*old(organism), *aw, delta as int, *organism, result));
        }
        change
    }

    /// Runs every organism's tick in order and collects what the ticks ask
    /// for: the organisms to add (counted into the census as they come) and
    /// the ids to remove.
    #[verifier::rlimit(100)]
    #[verifier::spinoff_prover]
    fn tick_all(
        organisms: &mut Vec<Organism>,
        aw: &EnvironmentAwareness,
        delta: u64,
        next_id: &mut u64,
        counter: &mut Vec<SpeciesCount>,
    ) -> (r: (Vec<Organism>, HashSet<u64>, Ghost<Seq<OrganismsChange>>))
        requires
            aw.wf(),
            old(organisms)@.len() <= MAX_POPULATION,
            ids_unique(old(organisms)@),
            forall|j: int| 0 <= j < old(organisms)@.len() ==> (#[trigger] old(organisms)@[j]).wf(),
            forall|j: int|
                0 <= j < old(organisms)@.len() ==> (#[trigger] old(organisms)@[j]).id < *old(next_id),
            census_ok(old(counter)@, old(organisms)@),
        ensures
            final(organisms)@.len() == old(organisms)@.len(),
            forall|j: int|
                0 <= j < old(organisms)@.len() ==> (#[trigger] final(organisms)@[j]).wf(),
            forall|j: int|
                0 <= j < old(organisms)@.len() ==> (#[trigger] final(organisms)@[j]).id == old(
                organisms,
            )@[j].id,
            fresh_from(r.0@, *old(next_id) as int),
            *final(next_id) == *old(next_id) + r.0@.len(),
            old(organisms)@.len() + r.0@.len() <= MAX_POPULATION,
            census_ok(final(counter)@, final(organisms)@ + r.0@),
            forall|j: int|
                0 <= j < old(organisms)@.len() && (#[trigger] old(organisms)@[j]).is_dead_spec()
                    ==> r.1@.contains(old(organisms)@[j].id),
            r.0@.len() <= 3 * old(organisms)@.len(),
            r.2@.len() == old(organisms)@.len(),
            r.0@ == all_added(r.2@, old(organisms)@.len() as int),
            forall|id: u64| r.1@.contains(id) <==> removed_by(r.2@, id),
            forall|j: int|
                0 <= j < old(organisms)@.len() ==> tick_of(
                    old(organisms)@[j],
                    *aw,
                    delta as int,
                    final(organisms)@[j],
                    #[trigger] r.2@[j],
                    *old(next_id) + all_added(r.2@, j).len(),
                    MAX_POPULATION - old(organisms)@.len() - all_added(r.2@, j).len(),
                ),
    {
        let n = organisms.len();
        let ghost first_id = *next_id as int;
        let ghost start = organisms@;
        let mut to_add: Vec<Organism> = Vec::new();
        let mut to_remove: HashSet<u64> = HashSet::new();
        let ghost mut changes: Seq<OrganismsChange> = Seq::empty();
        proof {
            assert(organisms@ + to_add@ =~= organisms@);
        }
        let mut i: usize = 0;
        while i < n
            invariant
                aw.wf(),
                organisms@.len() == n,
                n <= MAX_POPULATION,
                ids_unique(start),
                start.len() == n,
                forall|j: int| 0 <= j < n ==> (#[trigger] start[j]).id < first_id,
                i <= n,
                forall|j: int| 0 <= j < n ==> (#[trigger] organisms@[j]).wf(),
                forall|j: int| 0 <= j < n ==> (#[trigger] organisms@[j]).id == start[j].id,
                forall|j: int| 0 <= j < n ==> name_of(#[trigger] organisms@[j]) == name_of(start[j]),
                forall|j: int| i <= j < n ==> (#[trigger] organisms@[j]) == start[j],
                fresh_from(to_add@, first_id),
                *next_id == first_id + to_add@.len(),
                n + to_add@.len() <= MAX_POPULATION,
                census_ok(counter@, organisms@ + to_add@),
                forall|j: int|
                    0 <= j < i && (#[trigger] start[j]).is_dead_spec() ==> to_remove@.contains(start[j].id),
                to_add@.len() <= 3 * i,
                changes.len() == i,
                to_add@ == all_added(changes, i as int),
                forall|id: u64| to_remove@.contains(id) <==> removed_by(changes, id),
                forall|j: int|
                    0 <= j < i ==> tick_of(
                        start[j],
                        *aw,
                        delta as int,
                        organisms@[j],
                        #[trigger] changes[j],
                        first_id + all_added(changes, j).len(),
                        MAX_POPULATION - n - all_added(changes, j).len(),
                    ),
            decreases n - i,
        {
            let room: usize = MAX_POPULATION - n - to_add.len();
            let ghost before = organisms@;
            let ghost next_before = *next_id;
            let change = Self::simulate_organism(&mut organisms[i], delta, aw, next_id, room);
            proof {
                lemma_census_same_names(counter@, before + to_add@, organisms@ + to_add@);
            }
            let ghost gc = change;
            let ghost old_changes = changes;
            let ghost old_remove = to_remove@;
            proof {
                changes = changes.push(gc);
                lemma_all_added_prefix(old_changes, gc, i as int);
                assert forall|j: int| 0 <= j < i implies all_added(changes, j) == all_added(
                    old_changes,
                    j,
                ) by {
                    lemma_all_added_prefix(old_changes, gc, j);
                }
                assert(all_added(changes, i as int + 1) == all_added(old_changes, i as int) + gc.added());
            }
            let mut added: Vec<Organism> = match change {
                OrganismsChange::Add(v) => v,
                OrganismsChange::AddRemove(v, id) => {
                    to_remove.insert(id);
                    v
                },
                OrganismsChange::Remove(id) => {
                    to_remove.insert(id);
                    Vec::new()
                },
                OrganismsChange::Nothing => Vec::new(),
            };
            assert(added@ == change.added());
            let mut m: usize = 0;
            while m < added.len()
                invariant
                    organisms@.len() == n,
                    m <= added@.len(),
                    n + to_add@.len() + added@.len() <= MAX_POPULATION,
                    census_ok(counter@, organisms@ + to_add@ + added@.subrange(0, m as int)),
                decreases added@.len() - m,
            {
                let ghost pop = organisms@ + to_add@ + added@.subrange(0, m as int);
                count_in(&added[m], counter, Ghost(pop));
                proof {
                    assert(pop.push(added@[m as int]) =~= organisms@ + to_add@ + added@.subrange(
                        0,
                        m as int + 1,
                    ));
                }
                m = m + 1;
            }
            proof {
                assert(added@.subrange(0, added@.len() as int) =~= added@);
            }
            let ghost prior = to_add@;
            to_add.append(&mut added);
            proof {
                assert(organisms@ + prior + change.added() =~= organisms@ + to_add@);
                assert(to_add@ == all_added(changes, i as int + 1));
                assert forall|id: u64| to_remove@.contains(id) <==> removed_by(changes, id) by {
                    if removed_by(changes, id) {
                        let j = choose|j: int| 0 <= j < changes.len() && #[trigger] changes[j].removed() == Some(id);
                        if j < i {
                            assert(old_changes[j] == changes[j]);
                            assert(removed_by(old_changes, id));
                        }
                    }
                    if removed_by(old_changes, id) {
                        let j = choose|j: int| 0 <= j < old_changes.len() && #[trigger] old_changes[j].removed() == Some(id);
                        assert(changes[j] == old_changes[j]);
                    }
                    if gc.removed() == Some(id) {
                        assert(changes[i as int] == gc);
                    }
                }
                assert forall|j: int| 0 <= j < i + 1 implies tick_of(
                    start[j],
                    *aw,
                    delta as int,
                    organisms@[j],
                    #[trigger] changes[j],
                    first_id + all_added(changes, j).len(),
                    MAX_POPULATION - n - all_added(changes, j).len(),
                ) by {
                    if j < i {
                        assert(changes[j] == old_changes[j]);
                        lemma_all_added_prefix(old_changes, gc, j);
                    } else {
                        assert(before[j] == start[j]);
                        assert(changes[j] == gc);
                    }
                }
                assert forall|mm: int| 0 <= mm < to_add@.len() implies (#[trigger] to_add@[mm]).wf()
                    && to_add@[mm].id == first_id + mm by {
                    if mm >= prior.len() {
                        assert(to_add@[mm] == change.added()[mm - prior.len()]);
                    }
                }
                assert forall|j: int|
                    0 <= j < i + 1 && (#[trigger] start[j]).is_dead_spec() implies to_remove@.contains(
                    start[j].id) by {
                    if j == i {
                        assert(before[j] == start[j]);
                    }
                }
            }
            i = i + 1;
        }
        proof {
            assert(start == old(organisms)@);
            assert(first_id == *old(next_id));
        }
        (to_add, to_remove, Ghost(changes))
    }

    /// Keeps, in order, the organisms whose ids are not to be removed,
    /// counting the others out of the census.
    fn retain_survivors(
        organisms: &Vec<Organism>,
        to_remove: &HashSet<u64>,
        counter: &mut Vec<SpeciesCount>,
        Ghost(to_add): Ghost<Seq<Organism>>,
        Ghost(changes): Ghost<Seq<OrganismsChange>>,
    ) -> (kept: Vec<Organism>)
        requires
            organisms@.len() <= MAX_POPULATION,
            ids_unique(organisms@),
            forall|j: int| 0 <= j < organisms@.len() ==> (#[trigger] organisms@[j]).wf(),
            census_ok(old(counter)@, organisms@ + to_add),
            forall|id: u64| to_remove@.contains(id) <==> removed_by(changes, id),
        ensures
            kept@ == survivors(organisms@, changes, organisms@.len() as int),
            census_ok(final(counter)@, kept@ + to_add),
            kept@.len() <= organisms@.len(),
            ids_unique(kept@),
            forall|m: int| 0 <= m < kept@.len() ==> (#[trigger] kept@[m]).wf(),
            forall|m: int|
                0 <= m < kept@.len() ==> exists|j: int|
                    0 <= j < organisms@.len() && (#[trigger] kept@[m]) == organisms@[j],
            forall|m: int| 0 <= m < kept@.len() ==> !to_remove@.contains((#[trigger] kept@[m]).id),
    {
        let n = organisms.len();
        let mut kept: Vec<Organism> = Vec::new();
        proof {
            assert(kept@ + organisms@.skip(0) + to_add =~= organisms@ + to_add);
        }
        let mut k: usize = 0;
        while k < n
            invariant
                organisms@.len() == n,
                n <= MAX_POPULATION,
                ids_unique(organisms@),
                forall|j: int| 0 <= j < n ==> (#[trigger] organisms@[j]).wf(),
                forall|id: u64| to_remove@.contains(id) <==> removed_by(changes, id),
                kept@ == survivors(organisms@, changes, k as int),
                k <= n,
                kept@.len() <= k,
                forall|m: int|
                    0 <= m < kept@.len() ==> exists|j: int|
                        0 <= j < k && (#[trigger] kept@[m]) == organisms@[j],
                forall|m: int| 0 <= m < kept@.len() ==> !to_remove@.contains((#[trigger] kept@[m]).id),
                forall|m: int| 0 <= m < kept@.len() ==> (#[trigger] kept@[m]).wf(),
                ids_unique(kept@),
                census_ok(counter@, kept@ + organisms@.skip(k as int) + to_add),
            decreases n - k,
        {
            let ghost rest = organisms@.skip(k as int + 1);
            proof {
                assert(organisms@.skip(k as int) =~= seq![organisms@[k as int]] + rest);
            }
            if to_remove.contains(&organisms[k].id) {
                proof {
                    assert(kept@ + organisms@.skip(k as int) + to_add =~= kept@ + seq![
                        organisms@[k as int],
                    ] + (rest + to_add));
                }
                count_out(&organisms[k], counter, Ghost(kept@), Ghost(rest + to_add));
                proof {
                    assert(kept@ + (rest + to_add) =~= kept@ + rest + to_add);
                }
            } else {
                let ghost kept_before = kept@;
                kept.push(organisms[k].duplicate());
                proof {
                    assert(kept_before + organisms@.skip(k as int) + to_add =~= kept@ + rest
                        + to_add);
                    assert forall|m: int| 0 <= m < kept@.len() implies exists|j: int|
                        0 <= j < k + 1 && (#[trigger] kept@[m]) == organisms@[j] by {
                        if m == kept@.len() - 1 {
                            assert(kept@[m] == organisms@[k as int]);
                        } else {
                            assert(kept@[m] == kept_before[m]);
                        }
                    }
                    assert forall|a: int, b: int|
                        0 <= a < kept@.len() && 0 <= b < kept@.len() && a != b implies (
                        #[trigger] kept@[a]).id != (#[trigger] kept@[b]).id by {
                        if a == kept@.len() - 1 || b == kept@.len() - 1 {
                            let other = if a == kept@.len() - 1 {
                                b
                            } else {
                                a
                            };
                            assert(kept@[other] == kept_before[other]);
                            assert(exists|j: int|
                                0 <= j < k && (#[trigger] kept_before[other]) == organisms@[j]);
                            let j = choose|j: int|
                                0 <= j < k && (#[trigger] kept_before[other]) == organisms@[j];
                            assert(organisms@[j].id != organisms@[k as int].id);
                        } else {
                            assert(kept@[a] == kept_before[a]);
                            assert(kept@[b] == kept_before[b]);
                        }
                    }
                }
            }
            k = k + 1;
        }
        proof {
            assert(organisms@.skip(n as int) =~= Seq::<Organism>::empty());
            assert(kept@ + organisms@.skip(n as int) + to_add =~= kept@ + to_add);
        }
        kept
    }

    /// One tick of `delta` milliseconds: refills the spatial index, runs
    /// every organism, removes the organisms that died, decomposed or were
    /// eaten, then adds the newborns and corpses; the census follows each
    /// addition and removal, the step and time advance and the snapshot
    /// views are rebuilt.
    #[verifier::rlimit(100)]
    #[verifier::spinoff_prover]
    pub fn run(&mut self, delta: u64)
        requires
            old(self).wf(),
        ensures
            final(self).wf(),
            final(self).simulation_data.step == saturating_sum(
                old(self).simulation_data.step as int,
                1,
            ),
            final(self).simulation_data.time == saturating_sum(
                old(self).simulation_data.time as int,
                delta as int,
            ),
            final(self).next_id >= old(self).next_id,
            final(self).environment_awareness.chunk_size == old(self).environment_awareness.chunk_size,
            final(self).environment_awareness.holds_exactly(old(self).organisms@),
            final(self).environment_awareness.records_distinct(),
            exists|ticked: Seq<Organism>, changes: Seq<OrganismsChange>|
                #[trigger] tick_record(
                    old(self).organisms@,
                    final(self).environment_awareness,
                    delta as int,
                    old(self).next_id as int,
                    ticked,
                    changes,
                ) && final(self).organisms@ == survivors(
                    ticked,
                    changes,
                    old(self).organisms@.len() as int,
                ) + all_added(changes, old(self).organisms@.len() as int),
            forall|k: int|
                0 <= k < final(self).organisms@.len() ==> (exists|j: int|
                    0 <= j < old(self).organisms@.len() && old(self).organisms@[j].id == (
                    #[trigger] final(self).organisms@[k]).id) || final(self).organisms@[k].id
                    >= old(self).next_id,
            forall|j: int, k: int|
                0 <= j < old(self).organisms@.len() && (#[trigger] old(self).organisms@[j]).is_dead_spec()
                    && 0 <= k < final(self).organisms@.len() ==> (#[trigger] final(self).organisms@[k]).id
                    != old(self).organisms@[j].id,
    {
        let mut organisms: Vec<Organism> = Vec::new();
        std::mem::swap(&mut organisms, &mut self.organisms);
        let mut counter: Vec<SpeciesCount> = Vec::new();
        std::mem::swap(&mut counter, &mut self.simulation_data.organism_counter);
        let mut next_id = self.next_id;
        self.environment_awareness.refill(&organisms);
        let aw = &self.environment_awareness;
        let n = organisms.len();
        let ghost first_id = next_id as int;
        let ghost start = organisms@;
        let (mut to_add, to_remove, gchanges) = Self::tick_all(
            &mut organisms,
            aw,
            delta,
            &mut next_id,
            &mut counter,
        );
        let ghost changes = gchanges@;
        proof {
            assert forall|a: int, b: int|
                0 <= a < n && 0 <= b < n && a != b implies (#[trigger] organisms@[a]).id
                    != (#[trigger] organisms@[b]).id by {
                assert(start[a].id != start[b].id);
            }
        }
        let mut kept = Self::retain_survivors(
            &organisms,
            &to_remove,
            &mut counter,
            Ghost(to_add@),
            Ghost(changes),
        );
        let ghost kept_final = kept@;
        let ghost added_final = to_add@;
        let ghost ticked = organisms@;
        kept.append(&mut to_add);
        proof {
            let fin = kept@;
            assert(fin =~= kept_final + added_final);
            assert forall|m: int| 0 <= m < fin.len() implies (#[trigger] fin[m]).wf() && fin[m].id
                < next_id && (fin[m].id >= first_id || exists|j: int|
                0 <= j < n && start[j].id == fin[m].id) && (forall|j: int|
                0 <= j < n && start[j].is_dead_spec() ==> start[j].id != fin[m].id) by {
                if m < kept_final.len() {
                    assert(fin[m] == kept_final[m]);
                    let j = choose|j: int| 0 <= j < n && (#[trigger] kept_final[m]) == ticked[j];
                    assert(start[j].id == fin[m].id);
                    assert forall|jj: int|
                        0 <= jj < n && start[jj].is_dead_spec() implies start[jj].id != fin[m].id by {
                        assert(to_remove@.contains(start[jj].id));
                    }
                } else {
                    assert(fin[m] == added_final[m - kept_final.len()]);
                }
            }
            assert forall|a: int, b: int|
                0 <= a < fin.len() && 0 <= b < fin.len() && a != b implies (#[trigger] fin[a]).id
                    != (#[trigger] fin[b]).id by {
                if a < kept_final.len() && b < kept_final.len() {
                    assert(fin[a] == kept_final[a]);
                    assert(fin[b] == kept_final[b]);
                } else if a >= kept_final.len() && b >= kept_final.len() {
                    assert(fin[a] == added_final[a - kept_final.len()]);
                    assert(fin[b] == added_final[b - kept_final.len()]);
                } else {
                    let (x, y) = if a < kept_final.len() {
                        (a, b)
                    } else {
                        (b, a)
                    };
                    assert(fin[x] == kept_final[x]);
                    let j = choose|j: int| 0 <= j < n && (#[trigger] kept_final[x]) == ticked[j];
                    assert(fin[x].id == start[j].id);
                    assert(fin[y] == added_final[y - kept_final.len()]);
                }
            }
        }
        proof {
            let fin = kept@;
            assert(tick_record(start, *aw, delta as int, first_id, ticked, changes));
            assert(fin == survivors(ticked, changes, n as int) + all_added(changes, n as int));
        }
        self.organisms = kept;
        self.simulation_data.organism_counter = counter;
        self.next_id = next_id;
        self.simulation_data.step = self.simulation_data.step.saturating_add(1);
        self.simulation_data.time = self.simulation_data.time.saturating_add(delta);
        OrganismInfo::from_organisms_fill_vec(&self.organisms, &mut self.simulation_data.organism_infos);
    }

    /// Appends up to `amount` randomized organisms of `species`, each at a
    /// random point of the boundary square, with ids counting up from the
    /// next one; fewer only when the population limit or the ids run out.
    /// Returns how many were placed.
    fn place_organisms(species: &Species, amount: u64, organisms: &mut Vec<Organism>, next_id: &mut u64) -> (placed: u64)
        requires
            species.wf(),
            old(organisms)@.len() <= MAX_POPULATION,
        ensures
            placed <= amount,
            final(organisms)@.len() == old(organisms)@.len() + placed,
            final(organisms)@.len() <= MAX_POPULATION,
            *final(next_id) == *old(next_id) + placed,
            placed < amount ==> final(organisms)@.len() >= MAX_POPULATION || *final(next_id)
                == u64::MAX,
            (old(organisms)@.len() >= MAX_POPULATION || *old(next_id) == u64::MAX) ==> placed == 0,
            forall|m: int|
                0 <= m < old(organisms)@.len() ==> (#[trigger] final(organisms)@[m]) == old(
                    organisms,
                )@[m],
            forall|m: int|
                old(organisms)@.len() <= m < final(organisms)@.len() ==> {
                    &&& (#[trigger] final(organisms)@[m]).wf()
                    &&& final(organisms)@[m].id == *old(next_id) + (m - old(organisms)@.len())
                    &&& final(organisms)@[m].shared_state.species == *species
                    &&& final(organisms)@[m].shared_state.age <= species.max_age
                    &&& final(organisms)@[m].shared_state.health == species.max_health
                    &&& within_boundary(final(organisms)@[m])
                    &&& is_fresh_idle(final(organisms)@[m].state)
                },
    {
        let mut placed: u64 = 0;
        while placed < amount && organisms.len() < MAX_POPULATION && *next_id < u64::MAX
            invariant
                species.wf(),
                placed <= amount,
                organisms@.len() == old(organisms)@.len() + placed,
                organisms@.len() <= MAX_POPULATION,
                *next_id == *old(next_id) + placed,
                forall|m: int|
                    0 <= m < old(organisms)@.len() ==> (#[trigger] organisms@[m]) == old(organisms)@[m],
                forall|m: int|
                    old(organisms)@.len() <= m < organisms@.len() ==> {
                        &&& (#[trigger] organisms@[m]).wf()
                        &&& organisms@[m].id == *old(next_id) + (m - old(organisms)@.len())
                        &&& organisms@[m].shared_state.species == *species
                        &&& organisms@[m].shared_state.age <= species.max_age
                        &&& organisms@[m].shared_state.health == species.max_health
                        &&& within_boundary(organisms@[m])
                        &&& is_fresh_idle(organisms@[m].state)
                    },
            decreases amount - placed,
        {
            let id = *next_id;
            *next_id = id + 1;
            let mut organism = Organism::new_randomized(id, species.duplicate());
            organism.set_position_x_y(random_coordinate(), random_coordinate());
            organisms.push(organism);
            placed = placed + 1;
        }
        placed
    }

    /// The first population: for each species entry, its density times the
    /// world's area in organisms, each with random age and energy at a
    /// random point of the boundary square. Generation stops early only
    /// when the population limit or the ids run out.
    #[verifier::rlimit(100)]
    pub fn generate_organisms(generation_configuration: &GenerationConfiguration, next_id: &mut u64) -> (r:
        Vec<Organism>)
        requires
            generation_configuration.wf(),
        ensures
            r@.len() <= MAX_POPULATION,
            *final(next_id) == *old(next_id) + r@.len(),
            fresh_from(r@, *old(next_id) as int),
            forall|m: int|
                0 <= m < r@.len() ==> generated_from(
                    #[trigger] r@[m],
                    generation_configuration.species@,
                ),
            placed_in_order(
                r@,
                generation_configuration.species@,
                generation_configuration.species@.len() as int,
            ),
            r@.len() <= total_amount(
                generation_configuration.species@,
                generation_configuration.species@.len() as int,
            ),
            total_amount(
                generation_configuration.species@,
                generation_configuration.species@.len() as int,
            ) <= MAX_POPULATION && *old(next_id) as int + MAX_POPULATION < u64::MAX ==> r@.len()
                == total_amount(
                generation_configuration.species@,
                generation_configuration.species@.len() as int,
            ),
    {
        let ghost cs = generation_configuration.species@;
        let mut organisms: Vec<Organism> = Vec::new();
        let mut s: usize = 0;
        let mut complete = true;
        proof {
            lemma_total_step(cs, 0);
        }
        while s < generation_configuration.species.len()
            invariant
                generation_configuration.wf(),
                cs == generation_configuration.species@,
                s <= cs.len(),
                organisms@.len() <= MAX_POPULATION,
                *next_id == *old(next_id) + organisms@.len(),
                fresh_from(organisms@, *old(next_id) as int),
                forall|m: int| 0 <= m < organisms@.len() ==> generated_from(#[trigger] organisms@[m], cs),
                complete ==> organisms@.len() == total_amount(cs, s as int),
                !complete ==> total_amount(cs, s as int) > MAX_POPULATION || *old(next_id) as int
                    + MAX_POPULATION >= u64::MAX,
                !complete ==> organisms@.len() >= MAX_POPULATION || *next_id == u64::MAX,
                organisms@.len() <= total_amount(cs, s as int),
                placed_in_order(organisms@, cs, s as int),
            decreases cs.len() - s,
        {
            let entry = &generation_configuration.species[s];
            assert(cs[s as int].species.wf());
            assert(entry.amount_per_meter * WORLD_SIZE <= MAX_DENSITY * WORLD_SIZE) by (nonlinear_arith)
                requires
                    entry.amount_per_meter <= MAX_DENSITY,
            ;
            let amount: u64 = entry.amount_per_meter * WORLD_SIZE / 1000;
            let ghost base = organisms@.len();
            let ghost prev = organisms@;
            let ghost next_before = *next_id;
            let placed = Self::place_organisms(&entry.species, amount, &mut organisms, next_id);
            proof {
                if !complete {
                    assert(placed == 0);
                }
                lemma_total_step(cs, s as int);
                lemma_placement_order(prev, organisms@, cs, s as int, complete);
                lemma_placement_kinds(prev, organisms@, cs, s as int, *old(next_id) as int);
            }
            if placed < amount {
                complete = false;
            }
            s = s + 1;
        }
        organisms
    }

    /// A new simulation of the configured first population, at step zero
    /// and time zero, with its census and snapshot views.
    pub fn new(generation_configuration: &GenerationConfiguration) -> (r: Self)
        requires
            generation_configuration.wf(),
        ensures
            r.wf(),
            r.simulation_data.step == 0,
            r.simulation_data.time == 0,
            r.environment_awareness.chunk_size == CHUNK_SIZE,
            forall|m: int|
                0 <= m < r.organisms@.len() ==> generated_from(
                    #[trigger] r.organisms@[m],
                    generation_configuration.species@,
                ),
            placed_in_order(
                r.organisms@,
                generation_configuration.species@,
                generation_configuration.species@.len() as int,
            ),
            total_amount(
                generation_configuration.species@,
                generation_configuration.species@.len() as int,
            ) <= MAX_POPULATION ==> r.organisms@.len() == total_amount(
                generation_configuration.species@,
                generation_configuration.species@.len() as int,
            ),
    {
        let mut next_id: u64 = 0;
        let organisms = Self::generate_organisms(generation_configuration, &mut next_id);
        let mut organism_counter: Vec<SpeciesCount> = Vec::new();
        let mut i: usize = 0;
        while i < organisms.len()
            invariant
                i <= organisms@.len(),
                organisms@.len() <= MAX_POPULATION,
                census_ok(organism_counter@, organisms@.subrange(0, i as int)),
            decreases organisms@.len() - i,
        {
            let ghost pop = organisms@.subrange(0, i as int);
            count_in(&organisms[i], &mut organism_counter, Ghost(pop));
            proof {
                assert(pop.push(organisms@[i as int]) =~= organisms@.subrange(0, i as int + 1));
            }
            i = i + 1;
        }
        proof {
            assert(organisms@.subrange(0, organisms@.len() as int) =~= organisms@);
            assert forall|a: int, b: int|
                0 <= a < organisms@.len() && 0 <= b < organisms@.len() && a != b implies (
                #[trigger] organisms@[a]).id != (#[trigger] organisms@[b]).id by {}
        }
        let organism_infos = OrganismInfo::from_organisms(&organisms);
        Simulation {
            organisms,
            environment_awareness: EnvironmentAwareness::new(CHUNK_SIZE),
            simulation_data: SimulationData { organism_infos, organism_counter, time: 0, step: 0 },
            next_id,
        }
    }
}

} // verus!
