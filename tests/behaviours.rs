use ecosystem::awareness::EnvironmentAwareness;
use ecosystem::eyesight::OrganismEyesight;
use ecosystem::geometry::Point;
use ecosystem::organism::Organism;
use ecosystem::species::{Color, HuntingBehavior, Nutrition, Species};
use ecosystem::states::{HuntTarget, HuntingState, OrganismResult, OrganismState};
use ecosystem::walking_manager::WalkingManager;

fn species(name: &str, eats: Nutrition, contains: Nutrition) -> Species {
    Species {
        name: name.to_string(),
        max_energy: 100_000,
        max_health: 10_000,
        max_age: 60_000,
        energy_cost_of_birth: 10_000,
        health_cost_of_birth: 1_000,
        walk_speed_s: 1_000,
        photosynthesis_rate_s: 0,
        color: Color { r: 0, g: 0, b: 0 },
        eats,
        contained_nutrition: contains,
        eyesight_distance: 10_000,
        birth_distance: 1_000,
        birth_immunity: 0,
        eating_distance: 200,
        max_per_meter: 0,
        hunting_behavior: HuntingBehavior::Closest,
    }
}

fn at(id: u64, s: &Species, x: i64, y: i64) -> Organism {
    let mut o = Organism::new(id, s.duplicate());
    o.set_position_x_y(x, y);
    o.shared_state.age = 1_000;
    o
}

#[test]
fn closest_hunter_picks_nearest_prey() {
    let wolf = species("Wolf", Nutrition::Meat, Nutrition::Meat);
    let deer = species("Deer", Nutrition::Plant, Nutrition::Meat);
    let fern = species("Fern", Nutrition::Nothing, Nutrition::Plant);
    let organisms = vec![
        at(1, &wolf, 0, 0),
        at(2, &wolf, 100, 0),
        at(3, &deer, 3_000, 0),
        at(4, &deer, -2_000, 500),
        at(5, &fern, 10, 10),
        at(6, &deer, 20_000, 0),
    ];
    let mut aw = EnvironmentAwareness::new(32_000);
    aw.refill(&organisms);
    let target = HuntingState::pick_new_target(&organisms[0].shared_state, &aw);
    assert_eq!(target, Some(HuntTarget { id: 4, position: Point { x: -2_000, y: 500 } }));
}

#[test]
fn hunter_without_prey_walks_off() {
    let wolf = species("Wolf", Nutrition::Meat, Nutrition::Meat);
    let fern = species("Fern", Nutrition::Nothing, Nutrition::Plant);
    let mut hunter = at(1, &wolf, 0, 0);
    hunter.state = OrganismState::Hunting(HuntingState::initialize());
    let organisms = vec![hunter.duplicate(), at(2, &fern, 50, 0)];
    let mut aw = EnvironmentAwareness::new(32_000);
    aw.refill(&organisms);
    assert_eq!(hunter.simulate(50, &aw), OrganismResult::Nothing);
    assert!(matches!(hunter.state, OrganismState::Walking(_)));
}

#[test]
fn hunter_chases_distant_prey() {
    let wolf = species("Wolf", Nutrition::Meat, Nutrition::Meat);
    let deer = species("Deer", Nutrition::Plant, Nutrition::Meat);
    let mut hunter = at(1, &wolf, 0, 0);
    hunter.state = OrganismState::Hunting(HuntingState::initialize());
    let organisms = vec![hunter.duplicate(), at(2, &deer, 0, 5_000)];
    let mut aw = EnvironmentAwareness::new(32_000);
    aw.refill(&organisms);
    assert_eq!(hunter.simulate(1_000, &aw), OrganismResult::Nothing);
    assert_eq!(hunter.shared_state.position, Point { x: 0, y: 1_000 });
    match hunter.state {
        OrganismState::Hunting(h) => {
            assert_eq!(h.hunted_organism_id_position.map(|t| t.id), Some(2));
        }
        _ => panic!("expected to keep hunting"),
    }
}

#[test]
fn vanished_prey_is_not_eaten() {
    let wolf = species("Wolf", Nutrition::Meat, Nutrition::Meat);
    let mut hunter = at(1, &wolf, 0, 0);
    hunter.state = OrganismState::Hunting(HuntingState {
        hunted_organism_id_position: Some(HuntTarget { id: 9, position: Point { x: 10, y: 0 } }),
    });
    let organisms = vec![hunter.duplicate()];
    let mut aw = EnvironmentAwareness::new(32_000);
    aw.refill(&organisms);
    assert_eq!(hunter.simulate(50, &aw), OrganismResult::Nothing);
    assert!(matches!(hunter.state, OrganismState::Walking(_)));
}

#[test]
fn wanderer_rests_then_walks() {
    let mut manager = WalkingManager::new();
    let start = Point { x: 0, y: 0 };
    assert_eq!(manager.simulate_and_calculate_new_pos(start, 100), start);
    let rest = manager.idle_time_left.unwrap();
    assert!((3_000..=7_000).contains(&rest));
    assert_eq!(manager.simulate_and_calculate_new_pos(start, 8_000), start);
    let target = manager.target.expect("a target after resting");
    assert_ne!(target, start);
    let mut pos = start;
    for _ in 0..100 {
        pos = manager.simulate_and_calculate_new_pos(pos, 1_000);
        if manager.target.is_none() {
            break;
        }
    }
    assert_eq!(pos, target);
    assert!(manager.idle_time_left.is_some());
}

#[test]
fn eyesight_sees_others_within_ten_units() {
    let s = species("Owl", Nutrition::Nothing, Nutrition::Meat);
    let host = at(1, &s, 0, 0);
    let eyesight = OrganismEyesight {
        host: Box::new(host.duplicate()),
        organisms: vec![host, at(2, &s, 6_000, 8_000), at(3, &s, 6_000, 8_001), at(4, &s, -100, 0)],
    };
    let seen: Vec<u64> = eyesight.see_organisms().iter().map(|o| o.id).collect();
    assert_eq!(seen, vec![2, 4]);
}
