use ecosystem::awareness::{EnvironmentAwareness, ForeignerInfo};
use ecosystem::census::{adjust_species_counter, SpeciesCount};
use ecosystem::geometry::Point;
use ecosystem::organism::Organism;
use ecosystem::simulation::{OrganismInfo, Simulation, SimulationData, CHUNK_SIZE};
use ecosystem::species::{Color, HuntingBehavior, Nutrition, Species};
use ecosystem::states::{
    HuntingState, IdleState, OrganismResult, OrganismState, ReproducingState, WalkingState,
};

fn species(name: &str) -> Species {
    Species {
        name: name.to_string(),
        max_energy: 100_000,
        max_health: 10_000,
        max_age: 60_000,
        energy_cost_of_birth: 10_000,
        health_cost_of_birth: 1_000,
        walk_speed_s: 1_000,
        photosynthesis_rate_s: 0,
        color: Color { r: 1, g: 2, b: 3 },
        eats: Nutrition::Nothing,
        contained_nutrition: Nutrition::Meat,
        eyesight_distance: 10_000,
        birth_distance: 1_000,
        birth_immunity: 0,
        eating_distance: 200,
        max_per_meter: 0,
        hunting_behavior: HuntingBehavior::Closest,
    }
}

fn placed(id: u64, s: &Species, x: i64, y: i64) -> Organism {
    let mut o = Organism::new(id, s.duplicate());
    o.set_position_x_y(x, y);
    o
}

fn simulation_of(organisms: Vec<Organism>, next_id: u64) -> Simulation {
    let mut counter: Vec<SpeciesCount> = Vec::new();
    for o in &organisms {
        adjust_species_counter(&o.shared_state.species.name, &mut counter, true);
    }
    let infos = OrganismInfo::from_organisms(&organisms);
    Simulation {
        organisms,
        environment_awareness: EnvironmentAwareness::new(CHUNK_SIZE),
        simulation_data: SimulationData {
            organism_infos: infos,
            organism_counter: counter,
            time: 0,
            step: 0,
        },
        next_id,
    }
}

fn long_idle() -> OrganismState {
    OrganismState::Idle(IdleState { duration: 0, target_duration: 1_000_000 })
}

#[test]
fn reproduction_is_dropped_above_density_cap() {
    let mut s = species("Clustered");
    s.max_per_meter = 2_000;
    s.birth_distance = 1_000;
    let offsets = [(0, 0), (300, 0), (-300, 0), (0, 300), (0, -300)];
    let mut organisms = Vec::new();
    for (i, (x, y)) in offsets.iter().enumerate() {
        let mut o = placed(i as u64, &s, *x, *y);
        o.state = long_idle();
        organisms.push(o);
    }
    organisms[0].state = OrganismState::Reproducing(ReproducingState { time_left: 0 });
    let mut aw = EnvironmentAwareness::new(CHUNK_SIZE);
    aw.refill(&organisms);
    assert!(!Simulation::can_add_children(&organisms[0], &aw));
    let mut sim = simulation_of(organisms, 5);
    sim.run(50);
    assert_eq!(sim.organisms.len(), 5);
    assert_eq!(sim.simulation_data.organism_counter[0].count, 5);
    assert!(matches!(sim.organisms[0].state, OrganismState::Idle(_)));
}

#[test]
fn reproduction_happens_below_density_cap() {
    let mut s = species("Sparse");
    s.max_per_meter = 2_000;
    s.birth_distance = 1_000;
    let mut parent = placed(0, &s, 0, 0);
    parent.state = OrganismState::Reproducing(ReproducingState { time_left: 0 });
    let mut sim = simulation_of(vec![parent], 1);
    sim.run(50);
    let n = sim.organisms.len();
    assert!((2..=4).contains(&n));
    assert_eq!(sim.simulation_data.organism_counter[0].count, n as u64);
    for child in &sim.organisms[1..] {
        assert!(child.id >= 1);
        let dx = child.shared_state.position.x;
        let dy = child.shared_state.position.y;
        let d2 = dx * dx + dy * dy;
        assert!((990 * 990..=1010 * 1010).contains(&d2));
    }
}

#[test]
fn predator_eats_prey_within_eating_distance() {
    let mut predator_species = species("Predator");
    predator_species.eats = Nutrition::Meat;
    predator_species.eyesight_distance = 10_000;
    predator_species.eating_distance = 200;
    let prey_species = species("Prey");
    let mut predator = placed(1, &predator_species, 0, 0);
    predator.state = OrganismState::Hunting(HuntingState::initialize());
    let mut prey = placed(2, &prey_species, 50, 0);
    prey.shared_state.age = 1_000;
    let organisms = vec![predator.duplicate(), prey];
    let mut aw = EnvironmentAwareness::new(CHUNK_SIZE);
    aw.refill(&organisms);
    let result = predator.simulate(50, &aw);
    assert_eq!(result, OrganismResult::AteOtherOrganism { other_organism_id: 2 });
    assert!(matches!(predator.state, OrganismState::Eating(_)));
}

#[test]
fn eaten_prey_leaves_the_population() {
    let mut predator_species = species("Predator");
    predator_species.eats = Nutrition::Meat;
    let prey_species = species("Prey");
    let mut predator = placed(1, &predator_species, 0, 0);
    predator.state = OrganismState::Hunting(HuntingState::initialize());
    let mut prey = placed(2, &prey_species, 50, 0);
    prey.shared_state.age = 1_000;
    prey.state = long_idle();
    let mut sim = simulation_of(vec![predator, prey], 3);
    sim.run(50);
    assert_eq!(sim.organisms.len(), 1);
    assert_eq!(sim.organisms[0].id, 1);
    let prey_count = sim
        .simulation_data
        .organism_counter
        .iter()
        .find(|c| c.name == "Prey")
        .unwrap()
        .count;
    assert_eq!(prey_count, 0);
}

#[test]
fn idle_with_only_walking_possible_starts_walking() {
    let mut s = species("Walker");
    s.energy_cost_of_birth = 1_000_000;
    s.eats = Nutrition::Nothing;
    let mut o = placed(1, &s, 0, 0);
    o.state = OrganismState::Idle(IdleState { duration: 0, target_duration: 1_000 });
    let aw = EnvironmentAwareness::new(CHUNK_SIZE);
    let result = o.simulate(1_000, &aw);
    assert_eq!(result, OrganismResult::Nothing);
    assert!(matches!(o.state, OrganismState::Walking(_)));
}

#[test]
fn idle_with_nothing_possible_stays_idle() {
    let mut s = species("Stone");
    s.walk_speed_s = 0;
    s.energy_cost_of_birth = 1_000_000;
    let shared = Organism::new(1, s).shared_state;
    let next = IdleState::pick_new_state(&shared);
    assert!(matches!(next, OrganismState::Idle(_)));
}

#[test]
fn newborn_is_immune_as_food() {
    let mut s = species("Newborn");
    s.birth_immunity = 2_000;
    s.contained_nutrition = Nutrition::Meat;
    let mut o = placed(7, &s, 100, 100);
    o.shared_state.age = 1_000;
    let info = ForeignerInfo::new(&o);
    assert_eq!(info.contains_nutrition, Nutrition::Nothing);
    let mut aw = EnvironmentAwareness::new(CHUNK_SIZE);
    aw.refill(&vec![o.duplicate()]);
    let seen = aw.get_radius_around(Point { x: 0, y: 0 }, 1_000);
    assert_eq!(seen.len(), 1);
    assert_eq!(seen[0].organism_id, 7);
    assert_eq!(seen[0].contains_nutrition, Nutrition::Nothing);
    o.shared_state.age = 3_000;
    assert_eq!(ForeignerInfo::new(&o).contains_nutrition, Nutrition::Meat);
}

#[test]
fn walking_reaches_target_and_idles() {
    let s = species("Walker");
    let mut o = placed(1, &s, 0, 0);
    o.state = OrganismState::Walking(WalkingState { target: Point { x: 300, y: 400 } });
    let aw = EnvironmentAwareness::new(CHUNK_SIZE);
    o.simulate(100, &aw);
    assert_eq!(o.shared_state.position, Point { x: 60, y: 80 });
    assert!(matches!(o.state, OrganismState::Walking(_)));
    o.simulate(1_000, &aw);
    assert_eq!(o.shared_state.position, Point { x: 300, y: 400 });
    assert!(matches!(o.state, OrganismState::Idle(_)));
}
