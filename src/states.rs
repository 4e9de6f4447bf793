//! The behaviour state machine of an organism. Each state advances the
//! organism's biology by one tick and reports a population-level effect
//! together with the state to continue in.

use crate::awareness::{
    lemma_held_in_world, lemma_radius_query_complete, square_around,
    EnvironmentAwareness, ForeignerInfo,
};
use crate::geometry::{
    dist_sq, distance_sq, offset, offset_spec, step_toward, step_toward_spec, Point, HEADINGS,
    MAX_REACH,
};
use crate::species::HuntingBehavior;
use crate::random::{random_between, random_ratio};
use crate::shared_state::{
    capped_energy, health_after_birth, saturating_difference, saturating_sum, SharedState, MILLIS_PER_SECOND,
};
use vstd::prelude::*;

verus! {

/// Weight of starting to hunt when leaving the idle state.
pub const HUNT_CHANCE: u32 = 16;

/// Weight of starting to walk when leaving the idle state.
pub const WALK_CHANCE: u32 = 10;

/// Weight of starting to reproduce when leaving the idle state.
pub const REPRODUCE_CHANCE: u32 = 54;

/// Shortest time spent idling, in milliseconds.
pub const IDLE_TIME_MIN: u64 = 1000;

/// Longest time spent idling, in milliseconds.
pub const IDLE_TIME_MAX: u64 = 3000;

/// Shortest distance to a new walking target, in thousandths of a unit.
pub const TARGET_DISTANCE_MIN: u64 = 1000;

/// Longest distance to a new walking target, in thousandths of a unit.
pub const TARGET_DISTANCE_MAX: u64 = 5000;

/// Time spent eating, in milliseconds.
pub const EATING_DURATION: u64 = 2500;

/// Energy gained from a meal, in thousandths.
pub const ENERGY_FROM_EATING: u64 = 20000;

/// Time spent reproducing, in milliseconds.
pub const REPRODUCING_DURATION: u64 = 6000;

/// Fewest children of one birth.
pub const CHILDREN_MIN: u64 = 1;

/// Most children of one birth.
pub const CHILDREN_MAX: u64 = 3;

/// What a tick of an organism asks of the population.
#[derive(Clone, Copy, Debug, PartialEq, Eq, Structural)]
pub enum OrganismResult {
    Nothing,
    HadChildren { amount: u64 },
    AteOtherOrganism { other_organism_id: u64 },
    Died,
    Disappeared,
}

/// Distance covered at `speed` (per second) over `delta` milliseconds,
/// bounded by the largest reach.
pub open spec fn walk_step(speed: int, delta: int) -> int {
    if speed * delta / MILLIS_PER_SECOND as int > MAX_REACH {
        MAX_REACH as int
    } else {
        speed * delta / MILLIS_PER_SECOND as int
    }
}

/// Distance covered at `speed` (per second) over `delta` milliseconds.
pub fn walk_distance(speed: u64, delta: u64) -> (r: u64)
    requires
        speed <= MAX_REACH,
    ensures
        r == walk_step(speed as int, delta as int),
        r <= MAX_REACH,
{
    assert(speed * delta <= MAX_REACH * u64::MAX) by (nonlinear_arith)
        requires
            speed <= MAX_REACH,
            delta <= u64::MAX,
    ;
    let d: u128 = (speed as u128) * (delta as u128) / (MILLIS_PER_SECOND as u128);
    if d > MAX_REACH as u128 {
        MAX_REACH
    } else {
        d as u64
    }
}

/// Moves the organism towards `target` for `delta` milliseconds at its
/// species' walking speed.
pub fn calculate_and_set_position(shared_state: &mut SharedState, delta: u64, target: Point)
    requires
        old(shared_state).wf(),
        target.in_world(),
    ensures
        final(shared_state).wf(),
        final(shared_state).position == step_toward_spec(
            old(shared_state).position,
            target,
            walk_step(old(shared_state).species.walk_speed_s as int, delta as int),
        ),
        final(shared_state).age == old(shared_state).age,
        final(shared_state).energy == old(shared_state).energy,
        final(shared_state).health == old(shared_state).health,
        final(shared_state).species == old(shared_state).species,
{
    let step = walk_distance(shared_state.species.walk_speed_s, delta);
    shared_state.position = step_toward(shared_state.position, target, step);
}

/// Waiting for a random time before choosing the next activity.
#[derive(Clone, Copy, Debug, PartialEq, Eq, Structural)]
pub struct IdleState {
    pub duration: u64,
    pub target_duration: u64,
}

/// Walking to a target point.
#[derive(Clone, Copy, Debug, PartialEq, Eq, Structural)]
pub struct WalkingState {
    pub target: Point,
}

/// A chosen prey: its id and the position where it was seen.
#[derive(Clone, Copy, Debug, PartialEq, Eq, Structural)]
pub struct HuntTarget {
    pub id: u64,
    pub position: Point,
}

/// Chasing prey, once one is chosen.
#[derive(Clone, Copy, Debug, PartialEq, Eq, Structural)]
pub struct HuntingState {
    pub hunted_organism_id_position: Option<HuntTarget>,
}

/// Digesting a meal.
#[derive(Clone, Copy, Debug, PartialEq, Eq, Structural)]
pub struct EatingState {
    pub time_remaining: u64,
}

/// Giving birth.
#[derive(Clone, Copy, Debug, PartialEq, Eq, Structural)]
pub struct ReproducingState {
    pub time_left: u64,
}

/// The terminal state of a corpse.
#[derive(Clone, Copy, Debug, PartialEq, Eq, Structural)]
pub struct DeadState {}

/// The current behaviour of an organism.
#[derive(Clone, Copy, Debug, PartialEq, Eq, Structural)]
pub enum OrganismState {
    Idle(IdleState),
    Walking(WalkingState),
    Hunting(HuntingState),
    Eating(EatingState),
    Reproducing(ReproducingState),
    Dead(DeadState),
}

impl OrganismState {
    /// Every point a state holds lies in the world.
    pub open spec fn wf(&self) -> bool {
        match *self {
            OrganismState::Walking(w) => w.target.in_world(),
            OrganismState::Hunting(h) => match h.hunted_organism_id_position {
                Some(t) => t.position.in_world(),
                None => true,
            },
            _ => true,
        }
    }
}

/// Whether an organism stays in its state or moves on to another.
#[derive(Clone, Copy, Debug, PartialEq, Eq, Structural)]
pub enum StateTransition {
    Same,
    Next(OrganismState),
}

/// The outcome of one tick of a state.
#[derive(Clone, Copy, Debug, PartialEq, Eq, Structural)]
pub struct StateRunResult {
    pub organism_result: OrganismResult,
    pub state_transition: StateTransition,
}

impl StateRunResult {
    /// The transition holds only well-formed states.
    pub open spec fn wf(&self) -> bool {
        match self.state_transition {
            StateTransition::Next(s) => s.wf(),
            StateTransition::Same => true,
        }
    }

    pub fn new(organism_result: OrganismResult, state_transition: StateTransition) -> (r: Self)
        ensures
            r.organism_result == organism_result,
            r.state_transition == state_transition,
    {
        StateRunResult { organism_result, state_transition }
    }

    /// No effect; stay in the state.
    pub fn none_same() -> (r: Self)
        ensures
            r.organism_result == OrganismResult::Nothing,
            r.state_transition == StateTransition::Same,
    {
        StateRunResult {
            organism_result: OrganismResult::Nothing,
            state_transition: StateTransition::Same,
        }
    }

    /// No effect; continue in `next_state`.
    pub fn none_next(next_state: OrganismState) -> (r: Self)
        ensures
            r.organism_result == OrganismResult::Nothing,
            r.state_transition == StateTransition::Next(next_state),
    {
        StateRunResult {
            organism_result: OrganismResult::Nothing,
            state_transition: StateTransition::Next(next_state),
        }
    }
}

/// Sum of the weights of the activities `s` may start.
pub open spec fn total_chance_spec(s: SharedState) -> int {
    (if s.can_walk_spec() {
        WALK_CHANCE as int
    } else {
        0
    }) + (if s.can_reproduce_spec() {
        REPRODUCE_CHANCE as int
    } else {
        0
    }) + (if s.can_hunt_spec() {
        HUNT_CHANCE as int
    } else {
        0
    })
}

/// `s` may start at least one activity.
pub open spec fn has_choice(s: SharedState) -> bool {
    s.can_walk_spec() || s.can_hunt_spec() || s.can_reproduce_spec()
}

/// A fresh idle state: no time spent, a target within the idle bounds.
pub open spec fn fresh_idle(i: IdleState) -> bool {
    i.duration == 0 && IDLE_TIME_MIN <= i.target_duration <= IDLE_TIME_MAX
}

/// A fresh walk from `p`: to a point a random distance within the bounds
/// away, along one of the headings.
pub open spec fn fresh_walking(w: WalkingState, p: Point) -> bool {
    &&& w.target.in_world()
    &&& exists|h: int, d: int|
        0 <= h < HEADINGS && TARGET_DISTANCE_MIN <= d <= TARGET_DISTANCE_MAX && w.target
            == offset_spec(p, h, d)
}

/// `n` is an activity an idle organism in state `s` may choose: one it is
/// able to start, and idling again only when it can start none.
pub open spec fn chosen_activity(n: OrganismState, s: SharedState) -> bool {
    &&& (n is Idle) <==> !has_choice(s)
    &&& match n {
        OrganismState::Idle(i) => fresh_idle(i),
        OrganismState::Walking(w) => s.can_walk_spec() && fresh_walking(w, s.position),
        OrganismState::Hunting(h) => s.can_hunt_spec() && h.hunted_organism_id_position is None,
        OrganismState::Reproducing(p) => s.can_reproduce_spec() && p.time_left
            == REPRODUCING_DURATION,
        _ => false,
    }
}

/// `r` moves on to a fresh idle state.
pub open spec fn next_is_fresh_idle(r: StateRunResult) -> bool {
    match r.state_transition {
        StateTransition::Next(OrganismState::Idle(i)) => fresh_idle(i),
        _ => false,
    }
}

/// `s2` is `s` standing at `p`.
pub open spec fn moved_to(s: SharedState, p: Point, s2: SharedState) -> bool {
    s2 == SharedState { position: p, ..s }
}

/// One tick of an idle state: time accumulates (saturating); once it
/// reaches the target, the organism chooses its next activity.
pub open spec fn idle_step(i: IdleState, s: SharedState, delta: int, i2: IdleState, r: StateRunResult) -> bool {
    let d = saturating_sum(i.duration as int, delta);
    &&& i2.duration == d
    &&& i2.target_duration == i.target_duration
    &&& r.organism_result == OrganismResult::Nothing
    &&& d < i.target_duration ==> r.state_transition == StateTransition::Same
    &&& d >= i.target_duration ==> match r.state_transition {
        StateTransition::Next(n) => chosen_activity(n, s),
        StateTransition::Same => false,
    }
}

/// One tick of walking: a step towards the target; on arrival, idling.
pub open spec fn walking_step(w: WalkingState, s: SharedState, delta: int, s2: SharedState, r: StateRunResult) -> bool {
    &&& moved_to(
        s,
        step_toward_spec(s.position, w.target, walk_step(s.species.walk_speed_s as int, delta)),
        s2,
    )
    &&& r.organism_result == OrganismResult::Nothing
    &&& s2.position == w.target ==> next_is_fresh_idle(r)
    &&& s2.position != w.target ==> r.state_transition == StateTransition::Same
}

/// One tick of eating: the meal counts down; once over, its energy is
/// gained and the organism idles.
pub open spec fn eating_step(e: EatingState, s: SharedState, delta: int, e2: EatingState, s2: SharedState, r: StateRunResult) -> bool {
    &&& r.organism_result == OrganismResult::Nothing
    &&& delta > e.time_remaining ==> {
        &&& s2 == SharedState {
            energy: capped_energy(
                s.energy as int,
                ENERGY_FROM_EATING as int,
                s.species.max_energy as int,
            ) as u64,
            ..s
        }
        &&& e2 == e
        &&& next_is_fresh_idle(r)
    }
    &&& delta <= e.time_remaining ==> {
        &&& s2 == s
        &&& e2.time_remaining == e.time_remaining - delta
        &&& r.state_transition == StateTransition::Same
    }
}

/// One tick of reproducing: the birth counts down; once over, the cost of
/// birth is paid, a number of children within the bounds is reported and
/// the organism idles.
pub open spec fn reproducing_step(p: ReproducingState, s: SharedState, delta: int, p2: ReproducingState, s2: SharedState, r: StateRunResult) -> bool {
    &&& p.time_left < delta ==> {
        &&& s2 == SharedState {
            energy: saturating_difference(
                s.energy as int,
                s.species.energy_cost_of_birth as int,
            ) as u64,
            health: health_after_birth(s.health as int, s.species.health_cost_of_birth as int) as i64,
            ..s
        }
        &&& p2 == p
        &&& r.organism_result is HadChildren
        &&& CHILDREN_MIN <= r.organism_result->amount <= CHILDREN_MAX
        &&& next_is_fresh_idle(r)
    }
    &&& p.time_left >= delta ==> {
        &&& s2 == s
        &&& p2.time_left == p.time_left - delta
        &&& r == StateRunResult::none_same_spec()
    }
}

/// Draws true with probability `numerator / denominator`; on false the
/// numerator's weight is taken out of the denominator, so that a sequence
/// of draws over the remaining weights makes one weighted choice. A zero
/// denominator draws false.
pub fn ratio(numerator: u32, denominator: &mut u32) -> (r: bool)
    requires
        *old(denominator) == 0 || numerator <= *old(denominator),
    ensures
        *old(denominator) == 0 ==> !r && *final(denominator) == 0,
        *old(denominator) != 0 && r ==> *final(denominator) == *old(denominator),
        *old(denominator) != 0 && !r ==> *final(denominator) == *old(denominator) - numerator,
        *old(denominator) != 0 && numerator == *old(denominator) ==> r,
        *old(denominator) != 0 && numerator == 0 ==> !r,
{
    if *denominator == 0 {
        false
    } else if random_ratio(numerator, *denominator) {
        true
    } else {
        *denominator = *denominator - numerator;
        false
    }
}

impl IdleState {
    /// Idle with a random target duration.
    pub fn new() -> (r: Self)
        ensures
            r.duration == 0,
            IDLE_TIME_MIN <= r.target_duration <= IDLE_TIME_MAX,
    {
        IdleState { duration: 0, target_duration: random_between(IDLE_TIME_MIN, IDLE_TIME_MAX) }
    }

    pub fn new_boxed() -> (r: Box<Self>)
        ensures
            r.duration == 0,
            IDLE_TIME_MIN <= r.target_duration <= IDLE_TIME_MAX,
    {
        Box::new(Self::new())
    }

    fn total_chance(shared_state: &SharedState) -> (r: u32)
        ensures
            r == total_chance_spec(*shared_state),
    {
        let mut sum: u32 = 0;
        if shared_state.can_walk() {
            sum = sum + WALK_CHANCE;
        }
        if shared_state.can_reproduce() {
            sum = sum + REPRODUCE_CHANCE;
        }
        if shared_state.can_hunt() {
            sum = sum + HUNT_CHANCE;
        }
        sum
    }

    /// Makes one weighted random choice among the activities the organism
    /// may start; it stays idle only when it may start none.
    pub fn pick_new_state(shared_state: &SharedState) -> (r: OrganismState)
        requires
            shared_state.wf(),
        ensures
            r.wf(),
            chosen_activity(r, *shared_state),
    {
        let mut total = Self::total_chance(shared_state);
        if shared_state.can_walk() && ratio(WALK_CHANCE, &mut total) {
            return OrganismState::Walking(WalkingState::initialize(shared_state));
        }
        if shared_state.can_hunt() && ratio(HUNT_CHANCE, &mut total) {
            return OrganismState::Hunting(HuntingState::initialize());
        }
        if shared_state.can_reproduce() && ratio(REPRODUCE_CHANCE, &mut total) {
            return OrganismState::Reproducing(ReproducingState::initialize());
        }
        OrganismState::Idle(IdleState::new())
    }

    /// Accumulates idle time; once the target is reached, picks the next
    /// activity.
    pub fn run(&mut self, shared_state: &SharedState, delta: u64) -> (r: StateRunResult)
        requires
            shared_state.wf(),
        ensures
            r.wf(),
            idle_step(*old(self), *shared_state, delta as int, *final(self), r),
    {
        self.duration = if delta > u64::MAX - self.duration {
            u64::MAX
        } else {
            self.duration + delta
        };
        if self.duration >= self.target_duration {
            StateRunResult::none_next(Self::pick_new_state(shared_state))
        } else {
            StateRunResult::none_same()
        }
    }
}

impl WalkingState {
    /// Walks towards a random point: a random distance between the
    /// configured bounds along a random heading.
    pub fn initialize(shared_state: &SharedState) -> (r: Self)
        ensures
            fresh_walking(r, shared_state.position),
    {
        WalkingState { target: pick_random_target(shared_state.position) }
    }

    /// Steps towards the target; on arrival, becomes idle.
    pub fn run(&mut self, shared_state: &mut SharedState, delta: u64) -> (r: StateRunResult)
        requires
            old(shared_state).wf(),
            old(self).target.in_world(),
        ensures
            *final(self) == *old(self),
            final(shared_state).wf(),
            r.wf(),
            r.organism_result == OrganismResult::Nothing,
            final(shared_state).position == step_toward_spec(
                old(shared_state).position,
                old(self).target,
                walk_step(old(shared_state).species.walk_speed_s as int, delta as int),
            ),
            final(shared_state).age == old(shared_state).age,
            final(shared_state).energy == old(shared_state).energy,
            final(shared_state).health == old(shared_state).health,
            final(shared_state).species == old(shared_state).species,
            walking_step(*old(self), *old(shared_state), delta as int, *final(shared_state), r),
    {
        calculate_and_set_position(shared_state, delta, self.target);
        if shared_state.position == self.target {
            return StateRunResult::none_next(OrganismState::Idle(IdleState::new()));
        }
        StateRunResult::none_same()
    }
}

/// A random point at a random distance between the configured bounds from
/// `current`, along a random heading.
pub fn pick_random_target(current: Point) -> (r: Point)
    ensures
        r.in_world(),
        exists|h: int, d: int|
            0 <= h < HEADINGS && TARGET_DISTANCE_MIN <= d <= TARGET_DISTANCE_MAX && r
                == offset_spec(current, h, d),
{
    let distance = random_between(TARGET_DISTANCE_MIN, TARGET_DISTANCE_MAX);
    let heading = random_between(0, HEADINGS - 1);
    offset(current, heading, distance)
}

/// `e` is prey for `s`: of another species, holding the nutrition that `s`
/// eats, and truly within its eyesight.
pub open spec fn is_prey(s: SharedState, e: ForeignerInfo) -> bool {
    &&& e.species_name@ != s.species.name@
    &&& e.contains_nutrition == s.species.eats
    &&& dist_sq(s.position, e.position) <= s.species.eyesight_distance
        * s.species.eyesight_distance
}

/// The index holds prey for `s`.
pub open spec fn prey_exists(s: SharedState, aw: EnvironmentAwareness) -> bool {
    exists|e: ForeignerInfo| aw.has(e) && is_prey(s, e)
}

/// The hunt target that stands for record `e`.
pub open spec fn target_of(e: ForeignerInfo) -> HuntTarget {
    HuntTarget { id: e.organism_id, position: e.position }
}

/// `t` stands for prey of `s` that the index holds.
pub open spec fn is_prey_target(s: SharedState, aw: EnvironmentAwareness, t: HuntTarget) -> bool {
    exists|e: ForeignerInfo| aw.has(e) && is_prey(s, e) && target_of(e) == t
}

/// The index holds a record with id `id` within the square of the
/// organism's eyesight.
pub open spec fn still_seen(s: SharedState, aw: EnvironmentAwareness, id: u64) -> bool {
    exists|e: ForeignerInfo|
        aw.has(e) && aw.in_rect_cells(
            square_around(s.position, s.species.eyesight_distance as int),
            e,
        ) && e.organism_id == id
}

/// Every record in the cells the organism's eyesight overlaps.
fn get_foreigners_in_eyesight(aw: &EnvironmentAwareness, shared_state: &SharedState) -> (r: Vec<
    ForeignerInfo,
>)
    requires
        aw.wf(),
        shared_state.wf(),
    ensures
        forall|e: ForeignerInfo|
            #![trigger r@.contains(e)]
            r@.contains(e) <==> (aw.has(e) && aw.in_rect_cells(
                square_around(
                    shared_state.position,
                    shared_state.species.eyesight_distance as int,
                ),
                e,
            )),
{
    aw.get_radius_around(shared_state.position, shared_state.species.eyesight_distance)
}

impl HuntingState {
    /// Hunting without a chosen prey yet.
    pub fn initialize() -> (r: Self)
        ensures
            r.hunted_organism_id_position is None,
    {
        HuntingState { hunted_organism_id_position: None }
    }

    /// `foreigner_info` is truly within eyesight.
    fn is_close_enough(shared_state: &SharedState, foreigner_info: &ForeignerInfo) -> (r: bool)
        requires
            shared_state.wf(),
            foreigner_info.position.in_world(),
        ensures
            r == (dist_sq(shared_state.position, foreigner_info.position)
                <= shared_state.species.eyesight_distance * shared_state.species.eyesight_distance),
    {
        let eyesight = shared_state.species.eyesight_distance as u128;
        assert(eyesight * eyesight <= MAX_REACH * MAX_REACH) by (nonlinear_arith)
            requires
                eyesight <= MAX_REACH,
        ;
        distance_sq(shared_state.position, foreigner_info.position) <= eyesight * eyesight
    }

    /// `this_new` is strictly closer to `my_position` than `than_current`.
    fn is_closer_than(my_position: Point, this_new: Point, than_current: Point) -> (r: bool)
        requires
            my_position.in_world(),
            this_new.in_world(),
            than_current.in_world(),
        ensures
            r == (dist_sq(my_position, this_new) < dist_sq(my_position, than_current)),
    {
        distance_sq(my_position, this_new) < distance_sq(my_position, than_current)
    }

    /// Chooses prey among the records within eyesight: the closest one or a
    /// random one, as the species hunts. None when the index holds no prey.
    pub fn pick_new_target(shared_state: &SharedState, aw: &EnvironmentAwareness) -> (r: Option<
        HuntTarget,
    >)
        requires
            shared_state.wf(),
            aw.wf(),
        ensures
            r is None <==> !prey_exists(*shared_state, *aw),
            match r {
                Some(t) => good_pick(*shared_state, *aw, t),
                None => true,
            },
    {
        let seen = get_foreigners_in_eyesight(aw, shared_state);
        let mut candidates: Vec<HuntTarget> = Vec::new();
        let mut i: usize = 0;
        while i < seen.len()
            invariant
                shared_state.wf(),
                aw.wf(),
                i <= seen@.len(),
                forall|e: ForeignerInfo|
                    #![trigger seen@.contains(e)]
                    seen@.contains(e) <==> (aw.has(e) && aw.in_rect_cells(
                        square_around(
                            shared_state.position,
                            shared_state.species.eyesight_distance as int,
                        ),
                        e,
                    )),
                forall|m: int|
                    0 <= m < candidates@.len() ==> is_prey_target(
                        *shared_state,
                        *aw,
                        #[trigger] candidates@[m],
                    ) && candidates@[m].position.in_world(),
                forall|n: int|
                    0 <= n < i && is_prey(*shared_state, #[trigger] seen@[n]) ==> candidates@.contains(
                        target_of(seen@[n]),
                    ),
            decreases seen@.len() - i,
        {
            let f = &seen[i];
            proof {
                assert(seen@.contains(seen@[i as int]));
                lemma_held_in_world(*aw, *f);
            }
            let ghost before = candidates@;
            if !(f.species_name == shared_state.species.name) && f.contains_nutrition
                == shared_state.species.eats && Self::is_close_enough(shared_state, f) {
                candidates.push(HuntTarget { id: f.organism_id, position: f.position });
                proof {
                    assert forall|n: int|
                        0 <= n < i + 1 && is_prey(*shared_state, #[trigger] seen@[n]) implies candidates@.contains(
                            target_of(seen@[n]),
                        ) by {
                        if n < i {
                            let w = choose|w: int|
                                0 <= w < before.len() && before[w] == target_of(seen@[n]);
                            assert(candidates@[w] == target_of(seen@[n]));
                        } else {
                            assert(candidates@[candidates@.len() - 1] == target_of(seen@[n]));
                        }
                    }
                    assert(is_prey_target(*shared_state, *aw, candidates@[candidates@.len() - 1]));
                }
            }
            i = i + 1;
        }
        proof {
            assert forall|e: ForeignerInfo|
                aw.has(e) && is_prey(*shared_state, e) implies candidates@.contains(target_of(e)) by {
                lemma_radius_query_complete(
                    *aw,
                    shared_state.position,
                    shared_state.species.eyesight_distance as int,
                    e,
                );
                assert(seen@.contains(e));
                let n = choose|n: int| 0 <= n < seen@.len() && seen@[n] == e;
                assert(is_prey(*shared_state, seen@[n]));
            }
        }
        if candidates.len() == 0 {
            proof {
                assert forall|e: ForeignerInfo| !(aw.has(e) && is_prey(*shared_state, e)) by {
                    if aw.has(e) && is_prey(*shared_state, e) {
                        assert(candidates@.contains(target_of(e)));
                    }
                }
            }
            return None;
        }
        proof {
            assert(is_prey_target(*shared_state, *aw, candidates@[0]));
        }
        match shared_state.species.hunting_behavior {
            HuntingBehavior::Random => {
                let pick = crate::random::random_between(0, (candidates.len() - 1) as u64);
                Some(candidates[pick as usize])
            },
            HuntingBehavior::Closest => {
                let mut best: usize = 0;
                let mut m: usize = 1;
                while m < candidates.len()
                    invariant
                        shared_state.wf(),
                        best < candidates@.len(),
                        1 <= m <= candidates@.len(),
                        forall|w: int|
                            0 <= w < candidates@.len() ==> (#[trigger] candidates@[w]).position.in_world(),
                        forall|w: int|
                            0 <= w < m ==> dist_sq(shared_state.position, candidates@[best as int].position)
                                <= dist_sq(shared_state.position, (#[trigger] candidates@[w]).position),
                    decreases candidates@.len() - m,
                {
                    if Self::is_closer_than(
                        shared_state.position,
                        candidates[m].position,
                        candidates[best].position,
                    ) {
                        best = m;
                    }
                    m = m + 1;
                }
                proof {
                    assert forall|e: ForeignerInfo|
                        aw.has(e) && is_prey(*shared_state, e) implies dist_sq(
                            shared_state.position,
                            candidates@[best as int].position,
                        ) <= dist_sq(shared_state.position, e.position) by {
                        let w = choose|w: int|
                            0 <= w < candidates@.len() && candidates@[w] == target_of(e);
                        assert(candidates@[w].position == e.position);
                    }
                }
                Some(candidates[best])
            },
        }
    }
}

impl HuntingState {
    /// The index still holds, within the square of eyesight, a record with
    /// id `id`: the prey was not taken away earlier in this tick.
    fn check_if_still_exists(id: u64, aw: &EnvironmentAwareness, shared_state: &SharedState) -> (r:
        bool)
        requires
            aw.wf(),
            shared_state.wf(),
        ensures
            r == still_seen(*shared_state, *aw, id),
    {
        let seen = get_foreigners_in_eyesight(aw, shared_state);
        let mut i: usize = 0;
        while i < seen.len()
            invariant
                i <= seen@.len(),
                forall|n: int| 0 <= n < i ==> (#[trigger] seen@[n]).organism_id != id,
                forall|e: ForeignerInfo|
                    #![trigger seen@.contains(e)]
                    seen@.contains(e) <==> (aw.has(e) && aw.in_rect_cells(
                        square_around(
                            shared_state.position,
                            shared_state.species.eyesight_distance as int,
                        ),
                        e,
                    )),
            decreases seen@.len() - i,
        {
            if seen[i].organism_id == id {
                proof {
                    assert(seen@.contains(seen@[i as int]));
                }
                return true;
            }
            i = i + 1;
        }
        proof {
            assert forall|e: ForeignerInfo|
                !(aw.has(e) && aw.in_rect_cells(
                    square_around(
                        shared_state.position,
                        shared_state.species.eyesight_distance as int,
                    ),
                    e,
                ) && e.organism_id == id) by {
                if aw.has(e) && aw.in_rect_cells(
                    square_around(
                        shared_state.position,
                        shared_state.species.eyesight_distance as int,
                    ),
                    e,
                ) && e.organism_id == id {
                    assert(seen@.contains(e));
                }
            }
        }
        false
    }

    /// Moves towards the prey; once within eating distance, eats it if it is
    /// still there, and otherwise chooses new prey, walking off when there
    /// is none.
    fn hunt_organism(
        &mut self,
        shared_state: &mut SharedState,
        hunted: HuntTarget,
        aw: &EnvironmentAwareness,
        delta: u64,
    ) -> (r: StateRunResult)
        requires
            old(shared_state).wf(),
            aw.wf(),
            hunted.position.in_world(),
            old(self).hunted_organism_id_position == Some(hunted),
        ensures
            final(shared_state).wf(),
            r.wf(),
            (OrganismState::Hunting(*final(self))).wf(),
            final(shared_state).age == old(shared_state).age,
            final(shared_state).energy == old(shared_state).energy,
            final(shared_state).health == old(shared_state).health,
            final(shared_state).species == old(shared_state).species,
            chase_step(hunted, *old(shared_state), *aw, delta as int, *final(self), *final(shared_state), r),
    {
        let eating = shared_state.species.eating_distance as u128;
        assert(eating * eating <= MAX_REACH * MAX_REACH) by (nonlinear_arith)
            requires
                eating <= MAX_REACH,
        ;
        if distance_sq(shared_state.position, hunted.position) < eating * eating {
            if !Self::check_if_still_exists(hunted.id, aw, shared_state) {
                let target = Self::pick_new_target(shared_state, aw);
                self.hunted_organism_id_position = target;
                if target.is_none() {
                    return StateRunResult::none_next(
                        OrganismState::Walking(WalkingState::initialize(shared_state)),
                    );
                }
                return StateRunResult::none_same();
            }
            StateRunResult::new(
                OrganismResult::AteOtherOrganism { other_organism_id: hunted.id },
                StateTransition::Next(OrganismState::Eating(EatingState::initialize())),
            )
        } else {
            calculate_and_set_position(shared_state, delta, hunted.position);
            StateRunResult::none_same()
        }
    }

    /// Chooses prey if none is chosen yet (walking off when there is none),
    /// then chases it.
    pub fn run(&mut self, shared_state: &mut SharedState, delta: u64, aw: &EnvironmentAwareness) -> (r:
        StateRunResult)
        requires
            old(shared_state).wf(),
            aw.wf(),
            (OrganismState::Hunting(*old(self))).wf(),
        ensures
            final(shared_state).wf(),
            r.wf(),
            (OrganismState::Hunting(*final(self))).wf(),
            final(shared_state).age == old(shared_state).age,
            final(shared_state).energy == old(shared_state).energy,
            final(shared_state).health == old(shared_state).health,
            final(shared_state).species == old(shared_state).species,
            hunting_step(*old(self), *old(shared_state), *aw, delta as int, *final(self), *final(shared_state), r),
    {
        if self.hunted_organism_id_position.is_none() {
            let new_target = Self::pick_new_target(shared_state, aw);
            if new_target.is_none() {
                return StateRunResult::none_next(
                    OrganismState::Walking(WalkingState::initialize(shared_state)),
                );
            }
            self.hunted_organism_id_position = new_target;
        }
        match self.hunted_organism_id_position {
            Some(hunted) => self.hunt_organism(shared_state, hunted, aw, delta),
            None => StateRunResult::none_same(),
        }
    }
}

/// `r` moves on to a fresh walk from `p`.
pub open spec fn next_is_fresh_walking(r: StateRunResult, p: Point) -> bool {
    match r.state_transition {
        StateTransition::Next(OrganismState::Walking(w)) => fresh_walking(w, p),
        _ => false,
    }
}

/// `t` is prey the hunter may choose: prey that the index holds, in the
/// world, and the nearest such prey for a hunter that picks the closest.
pub open spec fn good_pick(s: SharedState, aw: EnvironmentAwareness, t: HuntTarget) -> bool {
    &&& is_prey_target(s, aw, t)
    &&& t.position.in_world()
    &&& s.species.hunting_behavior == HuntingBehavior::Closest ==> forall|e: ForeignerInfo|
        aw.has(e) && is_prey(s, e) ==> dist_sq(s.position, t.position) <= dist_sq(
            s.position,
            e.position,
        )
}

/// One tick of chasing `t`. Within eating distance, the prey is eaten if the
/// index still holds it; otherwise new prey is chosen, or, with none seen,
/// the hunter walks off. Farther away, the hunter steps towards it.
pub open spec fn chase_step(
    t: HuntTarget,
    s: SharedState,
    aw: EnvironmentAwareness,
    delta: int,
    h2: HuntingState,
    s2: SharedState,
    r: StateRunResult,
) -> bool {
    let eats_now = dist_sq(s.position, t.position) < s.species.eating_distance
        * s.species.eating_distance;
    if eats_now && still_seen(s, aw, t.id) {
        &&& r.organism_result == (OrganismResult::AteOtherOrganism { other_organism_id: t.id })
        &&& r.state_transition == StateTransition::Next(
            OrganismState::Eating(EatingState { time_remaining: EATING_DURATION }),
        )
        &&& s2 == s
        &&& h2.hunted_organism_id_position == Some(t)
    } else if eats_now {
        &&& r.organism_result == OrganismResult::Nothing
        &&& s2 == s
        &&& if prey_exists(s, aw) {
            &&& r.state_transition == StateTransition::Same
            &&& match h2.hunted_organism_id_position {
                Some(t2) => good_pick(s, aw, t2),
                None => false,
            }
        } else {
            &&& next_is_fresh_walking(r, s.position)
            &&& h2.hunted_organism_id_position is None
        }
    } else {
        &&& moved_to(
            s,
            step_toward_spec(s.position, t.position, walk_step(s.species.walk_speed_s as int, delta)),
            s2,
        )
        &&& r == StateRunResult::none_same_spec()
        &&& h2.hunted_organism_id_position == Some(t)
    }
}

/// One tick of hunting: prey is chosen first if none is yet (walking off
/// when none is seen), then chased.
pub open spec fn hunting_step(
    h: HuntingState,
    s: SharedState,
    aw: EnvironmentAwareness,
    delta: int,
    h2: HuntingState,
    s2: SharedState,
    r: StateRunResult,
) -> bool {
    match h.hunted_organism_id_position {
        Some(t) => chase_step(t, s, aw, delta, h2, s2, r),
        None => if prey_exists(s, aw) {
            exists|t: HuntTarget| #[trigger] good_pick(s, aw, t) && chase_step(t, s, aw, delta, h2, s2, r)
        } else {
            &&& r.organism_result == OrganismResult::Nothing
            &&& next_is_fresh_walking(r, s.position)
            &&& s2 == s
            &&& h2 == h
        },
    }
}

/// One tick of behaviour state `st` on biology `s`: `st2` and `s2` are the
/// state and biology after it and `r` what it reports.
pub open spec fn state_step(
    st: OrganismState,
    s: SharedState,
    aw: EnvironmentAwareness,
    delta: int,
    st2: OrganismState,
    s2: SharedState,
    r: StateRunResult,
) -> bool {
    match st {
        OrganismState::Idle(i) => s2 == s && match st2 {
            OrganismState::Idle(i2) => idle_step(i, s, delta, i2, r),
            _ => false,
        },
        OrganismState::Walking(w) => st2 == st && walking_step(w, s, delta, s2, r),
        OrganismState::Hunting(h) => match st2 {
            OrganismState::Hunting(h2) => hunting_step(h, s, aw, delta, h2, s2, r),
            _ => false,
        },
        OrganismState::Eating(e) => match st2 {
            OrganismState::Eating(e2) => eating_step(e, s, delta, e2, s2, r),
            _ => false,
        },
        OrganismState::Reproducing(p) => match st2 {
            OrganismState::Reproducing(p2) => reproducing_step(p, s, delta, p2, s2, r),
            _ => false,
        },
        OrganismState::Dead(_) => st2 == st && s2 == s && r == StateRunResult::none_same_spec(),
    }
}

/// The state an organism continues in after a tick of its state.
pub open spec fn next_state(st2: OrganismState, r: StateRunResult) -> OrganismState {
    match r.state_transition {
        StateTransition::Next(n) => n,
        StateTransition::Same => st2,
    }
}

/// The effects a behaviour state may report: never a death, which the
/// organism decides itself.
pub open spec fn state_result_allowed(aw: EnvironmentAwareness, r: OrganismResult) -> bool {
    match r {
        OrganismResult::Nothing => true,
        OrganismResult::HadChildren { amount } => CHILDREN_MIN <= amount <= CHILDREN_MAX,
        OrganismResult::AteOtherOrganism { other_organism_id } => exists|e: ForeignerInfo|
            aw.has(e) && e.organism_id == other_organism_id,
        OrganismResult::Died => false,
        OrganismResult::Disappeared => false,
    }
}

impl OrganismState {
    /// Runs one tick of the current state.
    pub fn run(&mut self, shared_state: &mut SharedState, delta: u64, aw: &EnvironmentAwareness) -> (r:
        StateRunResult)
        requires
            old(self).wf(),
            old(shared_state).wf(),
            aw.wf(),
        ensures
            final(self).wf(),
            final(shared_state).wf(),
            r.wf(),
            final(shared_state).age == old(shared_state).age,
            final(shared_state).species == old(shared_state).species,
            state_result_allowed(*aw, r.organism_result),
            state_step(*old(self), *old(shared_state), *aw, delta as int, *final(self), *final(shared_state), r),
    {
        match self {
            OrganismState::Idle(s) => s.run(shared_state, delta),
            OrganismState::Walking(s) => s.run(shared_state, delta),
            OrganismState::Hunting(s) => {
                let r = s.run(shared_state, delta, aw);
                proof {
                    if let OrganismResult::AteOtherOrganism { other_organism_id } = r.organism_result {
                        let e = choose|e: ForeignerInfo|
                            aw.has(e) && aw.in_rect_cells(
                                square_around(
                                    old(shared_state).position,
                                    old(shared_state).species.eyesight_distance as int,
                                ),
                                e,
                            ) && e.organism_id == other_organism_id;
                        assert(aw.has(e));
                    }
                }
                r
            },
            OrganismState::Eating(s) => s.run(shared_state, delta),
            OrganismState::Reproducing(s) => s.run(shared_state, delta),
            OrganismState::Dead(_) => StateRunResult::none_same(),
        }
    }
}

impl EatingState {
    /// A meal that lasts the eating duration.
    pub fn initialize() -> (r: Self)
        ensures
            r.time_remaining == EATING_DURATION,
    {
        EatingState { time_remaining: EATING_DURATION }
    }

    /// Counts the meal down; when it is over, gains the meal's energy and
    /// becomes idle.
    pub fn run(&mut self, shared_state: &mut SharedState, delta: u64) -> (r: StateRunResult)
        requires
            old(shared_state).wf(),
        ensures
            final(shared_state).wf(),
            r.wf(),
            r.organism_result == OrganismResult::Nothing,
            final(shared_state).position == old(shared_state).position,
            final(shared_state).age == old(shared_state).age,
            final(shared_state).health == old(shared_state).health,
            final(shared_state).species == old(shared_state).species,
            eating_step(*old(self), *old(shared_state), delta as int, *final(self), *final(shared_state), r),
    {
        if delta > self.time_remaining {
            shared_state.increase_energy(ENERGY_FROM_EATING);
            return StateRunResult::none_next(OrganismState::Idle(IdleState::new()));
        }
        self.time_remaining = self.time_remaining - delta;
        StateRunResult::none_same()
    }
}

impl ReproducingState {
    /// A birth that lasts the reproducing duration.
    pub fn initialize() -> (r: Self)
        ensures
            r.time_left == REPRODUCING_DURATION,
    {
        ReproducingState { time_left: REPRODUCING_DURATION }
    }

    /// Counts the birth down; when it is over, pays the cost of birth,
    /// reports a random number of children and becomes idle.
    pub fn run(&mut self, shared_state: &mut SharedState, delta: u64) -> (r: StateRunResult)
        requires
            old(shared_state).wf(),
        ensures
            final(shared_state).wf(),
            r.wf(),
            final(shared_state).position == old(shared_state).position,
            final(shared_state).age == old(shared_state).age,
            final(shared_state).species == old(shared_state).species,
            reproducing_step(*old(self), *old(shared_state), delta as int, *final(self), *final(shared_state), r),
    {
        if self.time_left < delta {
            shared_state.on_had_children();
            let amount = random_between(CHILDREN_MIN, CHILDREN_MAX);
            return StateRunResult::new(
                OrganismResult::HadChildren { amount },
                StateTransition::Next(OrganismState::Idle(IdleState::new())),
            );
        }
        self.time_left = self.time_left - delta;
        StateRunResult::none_same()
    }
}

impl StateRunResult {
    /// No effect; stay in the state.
    pub open spec fn none_same_spec() -> Self {
        StateRunResult {
            organism_result: OrganismResult::Nothing,
            state_transition: StateTransition::Same,
        }
    }
}

impl DeadState {
    pub fn new() -> (r: Self) {
        DeadState {  }
    }

    pub fn new_boxed() -> (r: Box<Self>) {
        Box::new(Self::new())
    }
}

} // verus!
