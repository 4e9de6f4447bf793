//! One organism's mutable biology: position, age, energy and health.

use crate::geometry::Point;
use crate::random::random_between;
use crate::species::{Nutrition, Species};
use vstd::prelude::*;

verus! {

/// Milliseconds in one second.
pub const MILLIS_PER_SECOND: u64 = 1000;

/// `a + b`, saturated at the largest `u64`.
pub open spec fn saturating_sum(a: int, b: int) -> int {
    if a + b > u64::MAX {
        u64::MAX as int
    } else {
        a + b
    }
}

/// `a - b`, saturated at zero.
pub open spec fn saturating_difference(a: int, b: int) -> int {
    if a < b {
        0
    } else {
        a - b
    }
}

/// Health after paying `cost` for a birth (bounded below by the smallest
/// representable health).
pub open spec fn health_after_birth(health: int, cost: int) -> int {
    if health - cost < i64::MIN {
        i64::MIN as int
    } else {
        health - cost
    }
}

/// Energy after gaining `amount`, capped at `max`.
pub open spec fn capped_energy(energy: int, amount: int, max: int) -> int {
    if energy + amount > max {
        max
    } else {
        energy + amount
    }
}

/// Energy (in thousandths) produced at `rate` per second over `delta`
/// milliseconds.
pub open spec fn photosynthesis_gain(rate: int, delta: int) -> int {
    rate * delta / MILLIS_PER_SECOND as int
}

/// The biological state of one organism.
#[derive(Clone, Debug)]
pub struct SharedState {
    pub position: Point,
    pub age: u64,
    pub energy: u64,
    /// Health, in thousandths; births can take it below zero.
    pub health: i64,
    pub species: Species,
}

impl SharedState {
    /// The species is well formed, energy does not exceed the species'
    /// maximum and the organism stands in the world.
    pub open spec fn wf(&self) -> bool {
        &&& self.species.wf()
        &&& self.energy <= self.species.max_energy
        &&& self.position.in_world()
    }

    pub open spec fn can_walk_spec(&self) -> bool {
        self.species.walk_speed_s > 0
    }

    pub open spec fn can_reproduce_spec(&self) -> bool {
        self.energy >= self.species.energy_cost_of_birth
    }

    pub open spec fn can_eat_spec(&self) -> bool {
        self.energy < self.species.max_energy
    }

    pub open spec fn can_hunt_spec(&self) -> bool {
        self.can_eat_spec() && self.species.eats != Nutrition::Nothing
    }

    /// A newborn at the origin: no age, no energy, full health.
    pub fn new_default(species: Species) -> (r: SharedState)
        requires
            species.wf(),
        ensures
            r.wf(),
            r.species == species,
            r.position == (Point { x: 0, y: 0 }),
            r.age == 0,
            r.energy == 0,
            r.health == species.max_health,
    {
        let health = species.max_health as i64;
        SharedState { position: Point { x: 0, y: 0 }, energy: 0, health, species, age: 0 }
    }

    /// A state at the origin with a random age up to the species' maximum
    /// and random energy up to its maximum, at full health.
    pub fn new_random(species: Species) -> (r: SharedState)
        requires
            species.wf(),
        ensures
            r.wf(),
            r.species == species,
            r.position == (Point { x: 0, y: 0 }),
            r.age <= species.max_age,
            r.energy <= species.max_energy,
            r.health == species.max_health,
    {
        let age = random_between(0, species.max_age);
        let energy = random_between(0, species.max_energy);
        let health = species.max_health as i64;
        SharedState { position: Point { x: 0, y: 0 }, energy, health, species, age }
    }

    /// A state from given values; energy above the species' maximum is cut
    /// down to it, and the position is kept within the world.
    pub fn new(position: Point, energy: u64, health: i64, species: Species, age: u64) -> (r:
        SharedState)
        requires
            species.wf(),
        ensures
            r.wf(),
            r.species == species,
            position.in_world() ==> r.position == position,
            r.energy == if energy > species.max_energy {
                species.max_energy
            } else {
                energy
            },
            r.health == health,
            r.age == age,
    {
        let energy = if energy > species.max_energy {
            species.max_energy
        } else {
            energy
        };
        let position = Point {
            x: crate::geometry::clamp_to_world(position.x as i128),
            y: crate::geometry::clamp_to_world(position.y as i128),
        };
        SharedState { position, energy, health, species, age }
    }

    /// The species moves at all.
    pub fn can_walk(&self) -> (r: bool)
        ensures
            r == self.can_walk_spec(),
    {
        self.species.walk_speed_s > 0
    }

    /// Enough energy to pay for a birth.
    pub fn can_reproduce(&self) -> (r: bool)
        ensures
            r == self.can_reproduce_spec(),
    {
        self.energy >= self.species.energy_cost_of_birth
    }

    /// Below the species' maximum energy.
    pub fn can_eat(&self) -> (r: bool)
        ensures
            r == self.can_eat_spec(),
    {
        self.energy < self.species.max_energy
    }

    /// Hungry and of a species that eats something.
    pub fn can_hunt(&self) -> (r: bool)
        ensures
            r == self.can_hunt_spec(),
    {
        self.can_eat() && self.species.eats != Nutrition::Nothing
    }

    pub fn energy(&self) -> (r: u64)
        ensures
            r == self.energy,
    {
        self.energy
    }

    /// Adds energy, never beyond the species' maximum.
    pub fn increase_energy(&mut self, amount: u64)
        requires
            old(self).energy <= old(self).species.max_energy,
        ensures
            final(self).energy == capped_energy(
                old(self).energy as int,
                amount as int,
                old(self).species.max_energy as int,
            ),
            final(self).energy <= final(self).species.max_energy,
            final(self).position == old(self).position,
            final(self).age == old(self).age,
            final(self).health == old(self).health,
            final(self).species == old(self).species,
    {
        if amount > self.species.max_energy - self.energy {
            self.energy = self.species.max_energy;
        } else {
            self.energy = self.energy + amount;
        }
    }

    /// Adds the energy that photosynthesis yields over `delta` milliseconds,
    /// never beyond the species' maximum.
    pub fn photosynthesize(&mut self, delta: u64)
        requires
            old(self).energy <= old(self).species.max_energy,
        ensures
            final(self).energy == capped_energy(
                old(self).energy as int,
                photosynthesis_gain(old(self).species.photosynthesis_rate_s as int, delta as int),
                old(self).species.max_energy as int,
            ),
            final(self).position == old(self).position,
            final(self).age == old(self).age,
            final(self).health == old(self).health,
            final(self).species == old(self).species,
    {
        let rate = self.species.photosynthesis_rate_s as u128;
        assert(rate * delta <= u64::MAX * u64::MAX) by (nonlinear_arith)
            requires
                rate <= u64::MAX,
                delta <= u64::MAX,
        ;
        let gain: u128 = rate * (delta as u128) / (MILLIS_PER_SECOND as u128);
        let room = self.species.max_energy - self.energy;
        if gain > room as u128 {
            self.energy = self.species.max_energy;
        } else {
            self.energy = self.energy + gain as u64;
        }
    }

    /// Ages the organism by `delta` milliseconds (saturating at the largest
    /// representable age).
    pub fn increase_age(&mut self, delta: u64)
        ensures
            final(self).age == saturating_sum(old(self).age as int, delta as int),
            final(self).position == old(self).position,
            final(self).energy == old(self).energy,
            final(self).health == old(self).health,
            final(self).species == old(self).species,
    {
        self.age = self.age.saturating_add(delta);
    }

    pub fn age(&self) -> (r: u64)
        ensures
            r == self.age,
    {
        self.age
    }

    /// Pays the energy and health cost of a birth: energy does not go below
    /// zero, health is reduced by the full cost.
    pub fn on_had_children(&mut self)
        ensures
            final(self).energy == saturating_difference(
                old(self).energy as int,
                old(self).species.energy_cost_of_birth as int,
            ),
            final(self).health == health_after_birth(
                old(self).health as int,
                old(self).species.health_cost_of_birth as int,
            ),
            final(self).position == old(self).position,
            final(self).age == old(self).age,
            final(self).species == old(self).species,
    {
        self.energy = self.energy.saturating_sub(self.species.energy_cost_of_birth);
        let health: i128 = self.health as i128 - self.species.health_cost_of_birth as i128;
        self.health = if health < i64::MIN as i128 {
            i64::MIN
        } else {
            health as i64
        };
    }
}

} // verus!
