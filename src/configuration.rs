//! The built-in first population, used when no configuration is supplied.

use crate::simulation::{GenerationConfiguration, SpeciesGenerationConfiguration};
use crate::species::{Color, HuntingBehavior, Nutrition, Species};
use vstd::prelude::*;

verus! {

/// Entry `e` has the given values; none of the built-in species
/// photosynthesises, and all hunt at random.
pub open spec fn has_values(
    e: SpeciesGenerationConfiguration,
    max_energy: int,
    max_health: int,
    max_age: int,
    energy_cost_of_birth: int,
    health_cost_of_birth: int,
    walk_speed_s: int,
    color: Color,
    eats: Nutrition,
    contained_nutrition: Nutrition,
    eyesight_distance: int,
    birth_distance: int,
    birth_immunity: int,
    eating_distance: int,
    max_per_meter: int,
    amount_per_meter: int,
) -> bool {
    let s = e.species;
    &&& s.max_energy == max_energy && s.max_health == max_health && s.max_age == max_age
    &&& s.energy_cost_of_birth == energy_cost_of_birth
    &&& s.health_cost_of_birth == health_cost_of_birth
    &&& s.walk_speed_s == walk_speed_s && s.photosynthesis_rate_s == 0 && s.color == color
    &&& s.eats == eats && s.contained_nutrition == contained_nutrition
    &&& s.eyesight_distance == eyesight_distance && s.birth_distance == birth_distance
    &&& s.birth_immunity == birth_immunity && s.eating_distance == eating_distance
    &&& s.max_per_meter == max_per_meter && s.hunting_behavior == HuntingBehavior::Random
    &&& e.amount_per_meter == amount_per_meter
}

/// Four species: herbivores that eat plants, plants that feed on corpses,
/// carnivores that eat meat, and scavengers that eat corpses.
pub fn generate_default_generation_configuration() -> (r: GenerationConfiguration)
    ensures
        r.wf(),
        r.species@.len() == 4,
        r.species@[0].species.name@ == "Herbivore"@,
        has_values(r.species@[0], 256_000, 40_000, 60_000, 10_000, 20_000, 2_800,
            Color { r: 0, g: 91, b: 150 }, Nutrition::Plant, Nutrition::Meat, 25_000, 1_300, 0,
            200, 0, 200),
        r.species@[1].species.name@ == "Plant"@,
        has_values(r.species@[1], 150_000, 30_000, 30_000, 10_000, 30_000, 0,
            Color { r: 10, g: 70, b: 10 }, Nutrition::Corpse, Nutrition::Plant, 40_000, 40_000,
            5_000, 55_000, 2_000, 600),
        r.species@[2].species.name@ == "Carnivore"@,
        has_values(r.species@[2], 120_000, 70_000, 70_000, 20_000, 20_000, 12_900,
            Color { r: 200, g: 0, b: 0 }, Nutrition::Meat, Nutrition::Meat, 18_000, 100, 0, 200, 0,
            40),
        r.species@[3].species.name@ == "Scavenger"@,
        has_values(r.species@[3], 150_000, 30_000, 250_000, 60_000, 1_000, 18_200,
            Color { r: 100, g: 0, b: 150 }, Nutrition::Corpse, Nutrition::Nothing, 250_000, 4_700, 0,
            200, 0, 10),
{
    let herbivore = SpeciesGenerationConfiguration {
        species: Species {
            name: "Herbivore".to_owned(),
            max_energy: 256_000,
            max_health: 40_000,
            max_age: 60_000,
            energy_cost_of_birth: 10_000,
            walk_speed_s: 2_800,
            photosynthesis_rate_s: 0,
            color: Color { r: 0, g: 91, b: 150 },
            contained_nutrition: Nutrition::Meat,
            eats: Nutrition::Plant,
            eyesight_distance: 25_000,
            birth_distance: 1_300,
            birth_immunity: 0,
            health_cost_of_birth: 20_000,
            eating_distance: 200,
            max_per_meter: 0,
            hunting_behavior: HuntingBehavior::Random,
        },
        amount_per_meter: 200,
    };
    let plant = SpeciesGenerationConfiguration {
        species: Species {
            name: "Plant".to_owned(),
            max_energy: 150_000,
            max_health: 30_000,
            health_cost_of_birth: 30_000,
            max_age: 30_000,
            energy_cost_of_birth: 10_000,
            walk_speed_s: 0,
            photosynthesis_rate_s: 0,
            color: Color { r: 10, g: 70, b: 10 },
            contained_nutrition: Nutrition::Plant,
            eats: Nutrition::Corpse,
            eyesight_distance: 40_000,
            birth_distance: 40_000,
            birth_immunity: 5_000,
            eating_distance: 55_000,
            max_per_meter: 2_000,
            hunting_behavior: HuntingBehavior::Random,
        },
        amount_per_meter: 600,
    };
    let carnivore = SpeciesGenerationConfiguration {
        species: Species {
            name: "Carnivore".to_owned(),
            max_energy: 120_000,
            max_health: 70_000,
            health_cost_of_birth: 20_000,
            max_age: 70_000,
            energy_cost_of_birth: 20_000,
            walk_speed_s: 12_900,
            photosynthesis_rate_s: 0,
            color: Color { r: 200, g: 0, b: 0 },
            contained_nutrition: Nutrition::Meat,
            eats: Nutrition::Meat,
            eyesight_distance: 18_000,
            birth_distance: 100,
            birth_immunity: 0,
            eating_distance: 200,
            max_per_meter: 0,
            hunting_behavior: HuntingBehavior::Random,
        },
        amount_per_meter: 40,
    };
    let scavenger = SpeciesGenerationConfiguration {
        species: Species {
            name: "Scavenger".to_owned(),
            max_energy: 150_000,
            max_health: 30_000,
            health_cost_of_birth: 1_000,
            max_age: 250_000,
            energy_cost_of_birth: 60_000,
            walk_speed_s: 18_200,
            photosynthesis_rate_s: 0,
            color: Color { r: 100, g: 0, b: 150 },
            contained_nutrition: Nutrition::Nothing,
            eats: Nutrition::Corpse,
            eyesight_distance: 250_000,
            birth_distance: 4_700,
            birth_immunity: 0,
            eating_distance: 200,
            max_per_meter: 0,
            hunting_behavior: HuntingBehavior::Random,
        },
        amount_per_meter: 10,
    };
    let species = vec![herbivore, plant, carnivore, scavenger];
    GenerationConfiguration { species }
}

} // verus!
