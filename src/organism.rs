//! An organism: an id, its biology and its current behaviour.

use crate::geometry::{offset, offset_spec, Point, HEADINGS};
use crate::awareness::EnvironmentAwareness;
use crate::shared_state::{capped_energy, photosynthesis_gain, saturating_sum, SharedState};
use crate::species::{Color, HuntingBehavior, Nutrition, Species};
use crate::states::{
    next_state, state_result_allowed, state_step, DeadState, IdleState, OrganismResult,
    OrganismState, StateRunResult, StateTransition,
    IDLE_TIME_MAX, IDLE_TIME_MIN,
};
use vstd::prelude::*;

verus! {

/// Lifetime of a corpse, in milliseconds.
pub const CORPSE_MAX_AGE: u64 = 120_000;

/// One simulated organism.
#[derive(Clone, Debug)]
pub struct Organism {
    pub id: u64,
    pub state: OrganismState,
    pub shared_state: SharedState,
}

/// The species every corpse belongs to.
pub open spec fn corpse_species_spec(s: Species) -> bool {
    &&& s.max_energy == 0
    &&& s.max_health == 0
    &&& s.max_age == CORPSE_MAX_AGE
    &&& s.walk_speed_s == 0
    &&& s.photosynthesis_rate_s == 0
    &&& s.eats == Nutrition::Nothing
    &&& s.contained_nutrition == Nutrition::Corpse
    &&& s.wf()
}

/// What an organism past its lifespan reports: plants and corpses decompose
/// without a trace, others die and leave a corpse.
pub open spec fn death_result(n: Nutrition) -> OrganismResult {
    if n == Nutrition::Corpse || n == Nutrition::Plant {
        OrganismResult::Disappeared
    } else {
        OrganismResult::Died
    }
}

/// A fresh idle state.
pub open spec fn is_fresh_idle(s: OrganismState) -> bool {
    match s {
        OrganismState::Idle(i) => i.duration == 0 && IDLE_TIME_MIN <= i.target_duration
            <= IDLE_TIME_MAX,
        _ => false,
    }
}

impl Organism {
    /// Its biology and behaviour are well formed.
    pub open spec fn wf(&self) -> bool {
        self.shared_state.wf() && self.state.wf()
    }

    /// Older than its species lives.
    pub open spec fn is_dead_spec(&self) -> bool {
        self.shared_state.age > self.shared_state.species.max_age
    }

    /// An exact copy of the organism.
    pub fn duplicate(&self) -> (r: Organism)
        ensures
            r == *self,
    {
        Organism {
            id: self.id,
            state: self.state,
            shared_state: SharedState {
                position: self.shared_state.position,
                age: self.shared_state.age,
                energy: self.shared_state.energy,
                health: self.shared_state.health,
                species: self.shared_state.species.duplicate(),
            },
        }
    }

    pub fn id(&self) -> (r: u64)
        ensures
            r == self.id,
    {
        self.id
    }

    pub fn is_alive(&self) -> (r: bool)
        ensures
            r == !self.is_dead_spec(),
    {
        self.shared_state.age() <= self.shared_state.species.max_age
    }

    pub fn is_dead(&self) -> (r: bool)
        ensures
            r == self.is_dead_spec(),
    {
        self.shared_state.age() > self.shared_state.species.max_age
    }

    /// A newborn of `species` at the origin, idle, with no age or energy.
    pub fn new(id: u64, species: Species) -> (r: Organism)
        requires
            species.wf(),
        ensures
            r.wf(),
            r.id == id,
            r.shared_state.species == species,
            r.shared_state.position == (Point { x: 0, y: 0 }),
            r.shared_state.age == 0,
            r.shared_state.energy == 0,
            r.shared_state.health == species.max_health,
            is_fresh_idle(r.state),
    {
        Organism {
            id,
            shared_state: SharedState::new_default(species),
            state: OrganismState::Idle(IdleState::new()),
        }
    }

    /// An organism of `species` with random age and energy, for a world
    /// that should not look synchronised.
    pub fn new_randomized(id: u64, species: Species) -> (r: Organism)
        requires
            species.wf(),
        ensures
            r.wf(),
            r.id == id,
            r.shared_state.species == species,
            r.shared_state.position == (Point { x: 0, y: 0 }),
            r.shared_state.age <= species.max_age,
            r.shared_state.health == species.max_health,
            is_fresh_idle(r.state),
    {
        Organism {
            id,
            shared_state: SharedState::new_random(species),
            state: OrganismState::Idle(IdleState::new()),
        }
    }

    /// A newborn of the parent's species at the parent's position.
    pub fn new_child(id: u64, organism: &Organism) -> (r: Organism)
        requires
            organism.wf(),
        ensures
            r.wf(),
            r.id == id,
            r.shared_state.species == organism.shared_state.species,
            r.shared_state.position == organism.shared_state.position,
            r.shared_state.age == 0,
            is_fresh_idle(r.state),
    {
        let mut child = Organism::new(id, organism.shared_state.species.duplicate());
        child.set_position(organism.shared_state.position);
        child
    }

    /// A newborn of the parent's species, the species' birth distance away
    /// from the parent along `heading`.
    pub fn new_child_away(id: u64, organism: &Organism, heading: u64) -> (r: Organism)
        requires
            organism.wf(),
            heading < HEADINGS,
        ensures
            r.wf(),
            r.id == id,
            r.shared_state.species == organism.shared_state.species,
            r.shared_state.position == offset_spec(
                organism.shared_state.position,
                heading as int,
                organism.shared_state.species.birth_distance as int,
            ),
            r.shared_state.age == 0,
            r.shared_state.energy == 0,
            is_fresh_idle(r.state),
    {
        let position = offset(
            organism.shared_state.position,
            heading,
            organism.shared_state.species.birth_distance,
        );
        let mut child = Organism::new(id, organism.shared_state.species.duplicate());
        child.set_position(position);
        child
    }

    /// The corpse an organism leaves: a dead organism of the corpse species
    /// at the organism's position.
    pub fn new_corpse(id: u64, organism: &Organism) -> (r: Organism)
        requires
            organism.wf(),
        ensures
            r.wf(),
            r.id == id,
            corpse_species_spec(r.shared_state.species),
            r.shared_state.position == organism.shared_state.position,
            r.shared_state.age == 0,
            r.state is Dead,
    {
        let species = Species {
            name: "Corpse".to_owned(),
            max_energy: 0,
            max_health: 0,
            max_age: CORPSE_MAX_AGE,
            energy_cost_of_birth: 1000,
            health_cost_of_birth: 0,
            walk_speed_s: 0,
            photosynthesis_rate_s: 0,
            color: Color { r: 100, g: 100, b: 100 },
            eats: Nutrition::Nothing,
            contained_nutrition: Nutrition::Corpse,
            eyesight_distance: 0,
            birth_distance: 1000,
            birth_immunity: 0,
            eating_distance: 0,
            max_per_meter: 0,
            hunting_behavior: HuntingBehavior::Closest,
        };
        let mut s = Organism::new(id, species);
        s.shared_state.position = organism.shared_state.position;
        s.state = OrganismState::Dead(DeadState::new());
        s
    }

    pub fn position(&self) -> (r: Point)
        ensures
            r == self.shared_state.position,
    {
        self.shared_state.position
    }

    pub fn shared_state(&self) -> (r: &SharedState)
        ensures
            *r == self.shared_state,
    {
        &self.shared_state
    }

    /// Moves the organism to `position`, kept within the world.
    pub fn set_position(&mut self, position: Point)
        ensures
            position.in_world() ==> final(self).shared_state.position == position,
            final(self).shared_state.position.in_world(),
            final(self).id == old(self).id,
            final(self).state == old(self).state,
            final(self).shared_state.age == old(self).shared_state.age,
            final(self).shared_state.energy == old(self).shared_state.energy,
            final(self).shared_state.health == old(self).shared_state.health,
            final(self).shared_state.species == old(self).shared_state.species,
    {
        self.shared_state.position = Point {
            x: crate::geometry::clamp_to_world(position.x as i128),
            y: crate::geometry::clamp_to_world(position.y as i128),
        };
    }

    /// Moves the organism to `(x, y)`, kept within the world.
    pub fn set_position_x_y(&mut self, x: i64, y: i64)
        ensures
            (Point { x, y }).in_world() ==> final(self).shared_state.position == (Point { x, y }),
            final(self).shared_state.position.in_world(),
            final(self).id == old(self).id,
            final(self).state == old(self).state,
            final(self).shared_state.age == old(self).shared_state.age,
            final(self).shared_state.energy == old(self).shared_state.energy,
            final(self).shared_state.health == old(self).shared_state.health,
            final(self).shared_state.species == old(self).shared_state.species,
    {
        self.set_position(Point { x, y });
    }

    /// One tick of `delta` milliseconds. Every organism ages by `delta`.
    /// One past its lifespan (before this tick) only reports its death.
    /// Any other gains the energy of photosynthesis, runs one tick of its
    /// behaviour state and moves on to the state that asks for it.
    pub fn simulate(&mut self, delta: u64, aw: &EnvironmentAwareness) -> (r: OrganismResult)
        requires
            old(self).wf(),
            aw.wf(),
        ensures
            final(self).wf(),
            final(self).shared_state.energy <= final(self).shared_state.species.max_energy,
            organism_step(*old(self), *aw, delta as int, *final(self), r),
            !old(self).is_dead_spec() ==> state_result_allowed(*aw, r),
    {
        if self.is_dead() {
            let result = if self.shared_state.species.contained_nutrition == Nutrition::Corpse
                || self.shared_state.species.contained_nutrition == Nutrition::Plant {
                OrganismResult::Disappeared
            } else {
                OrganismResult::Died
            };
            self.shared_state.increase_age(delta);
            return result;
        }
        let ghost before = self.shared_state;
        self.shared_state.photosynthesize(delta);
        let ghost lit = self.shared_state;
        let ghost st = self.state;
        let result = self.state.run(&mut self.shared_state, delta, aw);
        let ghost st2 = self.state;
        let ghost s2 = self.shared_state;
        if let StateTransition::Next(next_state) = result.state_transition {
            self.state = next_state;
        }
        self.shared_state.increase_age(delta);
        proof {
            assert(lit == photosynthesized(before, delta as int));
            assert(state_step(st, lit, *aw, delta as int, st2, s2, result));
            assert(self.shared_state == aged(s2, delta as int));
        }
        result.organism_result
    }
}

/// `s` after the energy photosynthesis yields over `delta` milliseconds.
pub open spec fn photosynthesized(s: SharedState, delta: int) -> SharedState {
    SharedState {
        energy: capped_energy(
            s.energy as int,
            photosynthesis_gain(s.species.photosynthesis_rate_s as int, delta),
            s.species.max_energy as int,
        ) as u64,
        ..s
    }
}

/// `s` aged by `delta` milliseconds.
pub open spec fn aged(s: SharedState, delta: int) -> SharedState {
    SharedState { age: saturating_sum(s.age as int, delta) as u64, ..s }
}

/// One tick of organism `o`: `o2` is the organism after it and `r` what it
/// reports. The organism ages by `delta`; past its lifespan it reports its
/// death and is otherwise unchanged; else its result and next state are
/// those of one tick of its behaviour state after photosynthesis.
pub open spec fn organism_step(
    o: Organism,
    aw: EnvironmentAwareness,
    delta: int,
    o2: Organism,
    r: OrganismResult,
) -> bool {
    &&& o2.id == o.id
    &&& o2.shared_state.age == saturating_sum(o.shared_state.age as int, delta)
    &&& o2.shared_state.species == o.shared_state.species
    &&& if o.is_dead_spec() {
        &&& r == death_result(o.shared_state.species.contained_nutrition)
        &&& o2.shared_state == aged(o.shared_state, delta)
        &&& o2.state == o.state
    } else {
        exists|st2: OrganismState, s2: SharedState, rr: StateRunResult|
            #[trigger] state_step(o.state, photosynthesized(o.shared_state, delta), aw, delta, st2, s2, rr)
                && r == rr.organism_result && o2.state == next_state(st2, rr) && o2.shared_state
                == aged(s2, delta)
    }
}

} // verus!
