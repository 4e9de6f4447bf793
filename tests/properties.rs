use ecosystem::awareness::{EnvironmentAwareness, Rect};
use ecosystem::census::{adjust_species_counter, SpeciesCount};
use ecosystem::configuration::generate_default_generation_configuration;
use ecosystem::geometry::{
    create_direction_vector, distance, distance_sq, isqrt, offset, step_toward, Point,
    WORLD_LIMIT,
};
use ecosystem::organism::Organism;
use ecosystem::simulation::{
    allocate_id, GenerationConfiguration, OrganismsChange, Simulation,
    SpeciesGenerationConfiguration,
};
use ecosystem::species::{Color, HuntingBehavior, Nutrition, Species};
use ecosystem::states::{
    ratio, EatingState, IdleState, OrganismResult, OrganismState, StateTransition,
};
use ecosystem::worker::{SimulationThreadMessage, SnapshotMailbox, WorkerState};

fn species(name: &str) -> Species {
    Species {
        name: name.to_string(),
        max_energy: 100_000,
        max_health: 10_000,
        max_age: 60_000,
        energy_cost_of_birth: 10_000,
        health_cost_of_birth: 1_000,
        walk_speed_s: 1_000,
        photosynthesis_rate_s: 0,
        color: Color { r: 1, g: 2, b: 3 },
        eats: Nutrition::Nothing,
        contained_nutrition: Nutrition::Meat,
        eyesight_distance: 10_000,
        birth_distance: 1_000,
        birth_immunity: 0,
        eating_distance: 200,
        max_per_meter: 0,
        hunting_behavior: HuntingBehavior::Closest,
    }
}

fn small_configuration() -> GenerationConfiguration {
    let mut grazer = species("Grazer");
    grazer.eats = Nutrition::Plant;
    let mut plant = species("Fern");
    plant.walk_speed_s = 0;
    plant.contained_nutrition = Nutrition::Plant;
    plant.photosynthesis_rate_s = 5_000;
    plant.max_per_meter = 2_000;
    GenerationConfiguration {
        species: vec![
            SpeciesGenerationConfiguration { species: grazer, amount_per_meter: 1 },
            SpeciesGenerationConfiguration { species: plant, amount_per_meter: 2 },
        ],
    }
}

#[test]
fn energy_never_exceeds_maximum() {
    let mut s = species("Sun");
    s.photosynthesis_rate_s = 1_000_000;
    let mut o = Organism::new(1, s);
    o.state = OrganismState::Idle(IdleState { duration: 0, target_duration: 1_000_000 });
    let aw = EnvironmentAwareness::new(32_000);
    o.simulate(50, &aw);
    assert_eq!(o.shared_state.energy, 50_000);
    o.simulate(1_000, &aw);
    assert_eq!(o.shared_state.energy, 100_000);
    o.shared_state.increase_energy(u64::MAX);
    assert_eq!(o.shared_state.energy(), 100_000);
}

#[test]
fn meal_energy_is_capped() {
    let mut o = Organism::new(1, species("Eater"));
    o.shared_state.energy = 90_000;
    let mut eating = EatingState { time_remaining: 10 };
    let r = eating.run(&mut o.shared_state, 20);
    assert_eq!(o.shared_state.energy, 100_000);
    assert!(matches!(r.state_transition, StateTransition::Next(OrganismState::Idle(_))));
}

#[test]
fn age_advances_by_delta() {
    let mut o = Organism::new(1, species("Ager"));
    o.state = OrganismState::Idle(IdleState { duration: 0, target_duration: 1_000_000 });
    o.shared_state.age = 1_234;
    let aw = EnvironmentAwareness::new(32_000);
    o.simulate(766, &aw);
    assert_eq!(o.shared_state.age(), 2_000);
}

#[test]
fn death_rule_by_nutrition() {
    let aw = EnvironmentAwareness::new(32_000);
    for (nutrition, expected) in [
        (Nutrition::Plant, OrganismResult::Disappeared),
        (Nutrition::Corpse, OrganismResult::Disappeared),
        (Nutrition::Meat, OrganismResult::Died),
        (Nutrition::Nothing, OrganismResult::Died),
    ] {
        let mut s = species("Old");
        s.contained_nutrition = nutrition;
        let mut o = Organism::new(1, s);
        o.shared_state.age = 60_001;
        assert_eq!(o.simulate(10, &aw), expected);
        assert_eq!(o.shared_state.age, 60_011);
    }
}

#[test]
fn died_leaves_one_corpse_at_last_position() {
    let aw = EnvironmentAwareness::new(32_000);
    let mut o = Organism::new(4, species("Mortal"));
    o.set_position_x_y(1_500, -2_500);
    o.shared_state.age = 70_000;
    let mut next_id: u64 = 10;
    let change = Simulation::simulate_organism(&mut o, 10, &aw, &mut next_id, 100);
    match change {
        OrganismsChange::AddRemove(v, id) => {
            assert_eq!(id, 4);
            assert_eq!(v.len(), 1);
            assert_eq!(v[0].id, 10);
            assert_eq!(v[0].shared_state.species.contained_nutrition, Nutrition::Corpse);
            assert_eq!(v[0].shared_state.position, Point { x: 1_500, y: -2_500 });
            assert!(matches!(v[0].state, OrganismState::Dead(_)));
        }
        _ => panic!("expected a corpse"),
    }
    assert_eq!(next_id, 11);
}

#[test]
fn dead_organism_is_replaced_once_by_its_corpse() {
    let mut config = small_configuration();
    config.species.truncate(1);
    let mut sim = Simulation::new(&config);
    assert_eq!(sim.organisms.len(), 40);
    for o in sim.organisms.iter_mut() {
        o.shared_state.age = 0;
    }
    sim.organisms[0].shared_state.age = 70_000;
    let dead_id = sim.organisms[0].id;
    sim.run(10);
    assert!(sim.organisms.iter().all(|o| o.id != dead_id));
    let corpses: Vec<_> = sim
        .organisms
        .iter()
        .filter(|o| o.shared_state.species.contained_nutrition == Nutrition::Corpse)
        .collect();
    assert_eq!(corpses.len(), 1);
    sim.run(10);
    assert_eq!(
        sim.organisms
            .iter()
            .filter(|o| o.shared_state.species.contained_nutrition == Nutrition::Corpse)
            .count(),
        1
    );
}

#[test]
fn ids_stay_unique_over_a_run() {
    let mut sim = Simulation::new(&small_configuration());
    assert_eq!(sim.organisms.len(), 120);
    for _ in 0..300 {
        sim.run(100);
        let mut ids: Vec<u64> = sim.organisms.iter().map(|o| o.id).collect();
        ids.sort();
        ids.dedup();
        assert_eq!(ids.len(), sim.organisms.len());
        assert!(sim.organisms.iter().all(|o| o.id < sim.next_id));
    }
    assert_eq!(sim.simulation_data.step, 300);
    assert_eq!(sim.simulation_data.time, 30_000);
    for entry in &sim.simulation_data.organism_counter {
        let n = sim
            .organisms
            .iter()
            .filter(|o| o.shared_state.species.name == entry.name)
            .count();
        assert_eq!(entry.count, n as u64);
    }
    assert_eq!(sim.simulation_data.organism_infos.len(), sim.organisms.len());
}

#[test]
fn radius_query_finds_every_organism_within_radius() {
    let s = species("Dot");
    let mut organisms = Vec::new();
    let mut id = 0;
    for x in (-100_000..=100_000).step_by(7_919) {
        for y in (-100_000..=100_000).step_by(6_007) {
            let mut o = Organism::new(id, s.duplicate());
            o.set_position_x_y(x, y);
            organisms.push(o);
            id += 1;
        }
    }
    let mut aw = EnvironmentAwareness::new(32_000);
    aw.refill(&organisms);
    for (cx, cy, r) in [(0, 0, 20_000u64), (-50_000, 33_000, 45_000), (99_000, -99_000, 1_000)] {
        let center = Point { x: cx, y: cy };
        let found = aw.get_radius_around(center, r);
        for o in &organisms {
            if distance_sq(center, o.shared_state.position) <= (r as u128) * (r as u128) {
                assert!(found.iter().any(|f| f.organism_id == o.id));
            }
        }
    }
}

#[test]
fn chunk_indexes_follow_centered_cells() {
    let aw = EnvironmentAwareness::new(32_000);
    let c = aw.get_chunk_index_on_point(Point { x: 15_999, y: -16_000 });
    assert_eq!((c.x, c.y), (0, 0));
    let c = aw.get_chunk_index_on_point(Point { x: 16_000, y: -16_001 });
    assert_eq!((c.x, c.y), (1, -1));
    let rect = aw.get_chunk_coordinates(c);
    assert_eq!(rect, Rect { x: 16_000, y: -48_000, w: 32_000, h: 32_000 });
    assert!(aw.get_chunks_in_rect(rect).is_empty());
}

#[test]
fn worker_snapshots_never_go_back() {
    let mut worker = WorkerState::new(100, &small_configuration());
    assert!(worker.tick().is_none());
    worker.handle_message(SimulationThreadMessage::AdvanceTo(1_000));
    let mut received = Vec::new();
    while let Some(snapshot) = worker.tick() {
        received.push(snapshot);
    }
    assert_eq!(received.len(), 10);
    for pair in received.windows(2) {
        assert!(pair[0].step < pair[1].step);
        assert!(pair[0].time <= pair[1].time);
    }
    let mut mailbox = SnapshotMailbox { last_data: received[0].duplicate() };
    mailbox.probe(received);
    assert_eq!(mailbox.last_data.step, 10);
    assert_eq!(mailbox.last_data.time, 1_000);
    mailbox.probe(Vec::new());
    assert_eq!(mailbox.last_data.step, 10);
    worker.handle_message(SimulationThreadMessage::ChangeTimeStep(250));
    worker.handle_message(SimulationThreadMessage::AdvanceTo(1_500));
    assert_eq!(worker.tick().unwrap().time, 1_250);
    worker.handle_message(SimulationThreadMessage::Restart(small_configuration()));
    assert_eq!(worker.simulation.simulation_data.step, 0);
    assert!(!worker.wants_tick());
}

#[test]
fn integer_square_roots() {
    assert_eq!(isqrt(0), 0);
    assert_eq!(isqrt(1), 1);
    assert_eq!(isqrt(24), 4);
    assert_eq!(isqrt(25), 5);
    assert_eq!(isqrt(1_000_000_000_000_000_000_000_000), 1_000_000_000_000);
    assert_eq!(distance(Point { x: 0, y: 0 }, Point { x: 3_000, y: -4_000 }), 5_000);
}

#[test]
fn headings_and_offsets() {
    assert_eq!(create_direction_vector(0), (10_000, 0));
    assert_eq!(create_direction_vector(18), (0, 10_000));
    assert_eq!(create_direction_vector(36), (-10_000, 0));
    assert_eq!(create_direction_vector(54), (0, -10_000));
    assert_eq!(create_direction_vector(6), (8_660, 5_000));
    assert_eq!(offset(Point { x: 10, y: 10 }, 18, 1_000), Point { x: 10, y: 1_010 });
    assert_eq!(offset(Point { x: 0, y: 0 }, 42, 2_000), Point { x: -1_732, y: -1_000 });
    let edge = offset(Point { x: WORLD_LIMIT, y: 0 }, 0, 5_000);
    assert_eq!(edge, Point { x: WORLD_LIMIT, y: 0 });
}

#[test]
fn steps_never_overshoot() {
    let from = Point { x: 0, y: 0 };
    let to = Point { x: -3_000, y: 4_000 };
    assert_eq!(step_toward(from, to, 1_000), Point { x: -600, y: 800 });
    assert_eq!(step_toward(from, to, 5_000), to);
    assert_eq!(step_toward(from, to, 9_000), to);
    assert_eq!(step_toward(from, to, 0), from);
}

#[test]
fn id_allocation_stops_at_the_end() {
    let mut next: u64 = u64::MAX - 1;
    assert_eq!(allocate_id(&mut next), Some(u64::MAX - 1));
    assert_eq!(allocate_id(&mut next), None);
    assert_eq!(next, u64::MAX);
}

#[test]
fn census_counts_up_and_down() {
    let mut counter: Vec<SpeciesCount> = Vec::new();
    let a = "A".to_string();
    let b = "B".to_string();
    adjust_species_counter(&a, &mut counter, true);
    adjust_species_counter(&b, &mut counter, true);
    adjust_species_counter(&a, &mut counter, true);
    adjust_species_counter(&a, &mut counter, false);
    adjust_species_counter(&b, &mut counter, false);
    assert_eq!(counter.len(), 2);
    assert_eq!((counter[0].name.as_str(), counter[0].count), ("A", 1));
    assert_eq!((counter[1].name.as_str(), counter[1].count), ("B", 0));
}

#[test]
fn density_without_limit_always_allows_births() {
    let s = species("Crowd");
    let organisms: Vec<Organism> = (0..20).map(|i| Organism::new(i, s.duplicate())).collect();
    let mut aw = EnvironmentAwareness::new(32_000);
    aw.refill(&organisms);
    assert!(Simulation::can_add_children(&organisms[0], &aw));
}

#[test]
fn default_configuration_populates_the_world() {
    let config = generate_default_generation_configuration();
    assert_eq!(config.species.len(), 4);
    let sim = Simulation::new(&config);
    assert_eq!(sim.organisms.len(), 8_000 + 24_000 + 1_600 + 400);
    for o in &sim.organisms {
        assert!(o.shared_state.position.x.abs() <= 100_000);
        assert!(o.shared_state.position.y.abs() <= 100_000);
        assert!(o.shared_state.age <= o.shared_state.species.max_age);
    }
    let herbivores = sim
        .simulation_data
        .organism_counter
        .iter()
        .find(|c| c.name == "Herbivore")
        .unwrap();
    assert_eq!(herbivores.count, 8_000);
}

#[test]
fn random_draws_respect_their_bounds() {
    for _ in 0..200 {
        let idle = IdleState::new();
        assert!((1_000..=3_000).contains(&idle.target_duration));
        assert_eq!(idle.duration, 0);
    }
    let mut d: u32 = 10;
    assert!(ratio(10, &mut d));
    assert_eq!(d, 10);
    let mut d: u32 = 5;
    assert!(!ratio(0, &mut d));
    assert_eq!(d, 5);
    let mut d: u32 = 0;
    assert!(!ratio(3, &mut d));
}

#[test]
fn walking_targets_are_a_few_units_away() {
    let shared = Organism::new(1, species("Rover")).shared_state;
    for _ in 0..200 {
        let w = ecosystem::states::WalkingState::initialize(&shared);
        let d = distance(Point { x: 0, y: 0 }, w.target);
        assert!((990..=5_010).contains(&d));
    }
}

#[test]
fn birth_deducts_full_health_cost() {
    let mut s = species("Frail");
    s.health_cost_of_birth = 15_000;
    let mut o = Organism::new(1, s);
    o.shared_state.energy = 50_000;
    assert_eq!(o.shared_state.health, 10_000);
    o.shared_state.on_had_children();
    assert_eq!(o.shared_state.health, -5_000);
    assert_eq!(o.shared_state.energy, 40_000);
    o.shared_state.on_had_children();
    assert_eq!(o.shared_state.health, -20_000);
    assert_eq!(o.shared_state.energy, 30_000);
}

#[test]
fn refill_files_one_record_per_organism() {
    let s = species("Dot");
    let organisms: Vec<Organism> = (0..50)
        .map(|i| {
            let mut o = Organism::new(i, s.duplicate());
            o.set_position_x_y((i as i64) * 3_001 - 70_000, (i as i64) * -2_003 + 40_000);
            o
        })
        .collect();
    let mut aw = EnvironmentAwareness::new(32_000);
    aw.refill(&organisms);
    aw.refill(&organisms);
    let mut ids: Vec<u64> = aw.get_chunks().values().flatten().map(|f| f.organism_id).collect();
    ids.sort();
    assert_eq!(ids, (0..50).collect::<Vec<u64>>());
    let all = aw.get_radius_around(Point { x: 0, y: 0 }, 1_000_000);
    assert_eq!(all.len(), 50);
}

#[test]
fn configuration_limits_are_checked() {
    let mut config = small_configuration();
    assert!(config.is_valid());
    config.species[0].species.eyesight_distance = u64::MAX;
    assert!(!config.is_valid());
    assert!(generate_default_generation_configuration().is_valid());
}
