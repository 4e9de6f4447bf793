//! The immutable trait table of an organism kind.

use crate::geometry::MAX_REACH;
use vstd::prelude::*;

verus! {

/// Largest energy or health a species may declare, in thousandths.
pub const MAX_AMOUNT: u64 = 1_000_000_000_000_000;

/// Largest population density a species may declare, in thousandths of an
/// organism per square world unit.
pub const MAX_DENSITY: u64 = 1_000_000_000_000;

/// What an organism's body is as food, or what it looks for to eat.
#[derive(Clone, Copy, Debug, PartialEq, Eq, Structural)]
pub enum Nutrition {
    Nothing,
    Plant,
    Meat,
    Corpse,
}

/// How a hunter picks among the prey it sees.
#[derive(Clone, Copy, Debug, PartialEq, Eq, Structural)]
pub enum HuntingBehavior {
    Closest,
    Random,
}

/// Display colour of a species.
#[derive(Clone, Copy, Debug, PartialEq, Eq, Structural)]
pub struct Color {
    pub r: u8,
    pub g: u8,
    pub b: u8,
}

/// Traits shared by every organism of one kind. Energy and health are in
/// thousandths, durations in milliseconds, lengths in thousandths of a world
/// unit, speeds and rates per second, and `max_per_meter` in thousandths of
/// an organism per square world unit.
#[derive(Clone, Debug)]
pub struct Species {
    pub name: String,
    pub max_energy: u64,
    pub max_health: u64,
    pub max_age: u64,
    pub energy_cost_of_birth: u64,
    pub health_cost_of_birth: u64,
    pub walk_speed_s: u64,
    pub photosynthesis_rate_s: u64,
    pub color: Color,
    pub eats: Nutrition,
    pub contained_nutrition: Nutrition,
    pub eyesight_distance: u64,
    pub birth_distance: u64,
    pub birth_immunity: u64,
    pub eating_distance: u64,
    pub max_per_meter: u64,
    pub hunting_behavior: HuntingBehavior,
}

impl Species {
    /// Every quantity lies within the limits the simulation computes with.
    pub open spec fn wf(&self) -> bool {
        &&& self.max_energy <= MAX_AMOUNT
        &&& self.max_health <= MAX_AMOUNT
        &&& self.walk_speed_s <= MAX_REACH
        &&& self.eyesight_distance <= MAX_REACH
        &&& self.birth_distance <= MAX_REACH
        &&& self.eating_distance <= MAX_REACH
        &&& self.max_per_meter <= MAX_DENSITY
    }

    /// Whether every quantity lies within the limits the simulation
    /// computes with.
    pub fn is_valid(&self) -> (r: bool)
        ensures
            r == self.wf(),
    {
        self.max_energy <= MAX_AMOUNT && self.max_health <= MAX_AMOUNT && self.walk_speed_s
            <= MAX_REACH && self.eyesight_distance <= MAX_REACH && self.birth_distance <= MAX_REACH
            && self.eating_distance <= MAX_REACH && self.max_per_meter <= MAX_DENSITY
    }

    /// An exact copy of the species.
    pub fn duplicate(&self) -> (r: Species)
        ensures
            r == *self,
    {
        Species {
            name: self.name.clone(),
            max_energy: self.max_energy,
            max_health: self.max_health,
            max_age: self.max_age,
            energy_cost_of_birth: self.energy_cost_of_birth,
            health_cost_of_birth: self.health_cost_of_birth,
            walk_speed_s: self.walk_speed_s,
            photosynthesis_rate_s: self.photosynthesis_rate_s,
            color: self.color,
            eats: self.eats,
            contained_nutrition: self.contained_nutrition,
            eyesight_distance: self.eyesight_distance,
            birth_distance: self.birth_distance,
            birth_immunity: self.birth_immunity,
            eating_distance: self.eating_distance,
            max_per_meter: self.max_per_meter,
            hunting_behavior: self.hunting_behavior,
        }
    }
}

} // verus!
