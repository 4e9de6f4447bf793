//! A self-contained wanderer: alternates resting for a random time with
//! walking to a random nearby point at a fixed speed.

use crate::geometry::{offset_spec, step_toward, step_toward_spec, Point, HEADINGS};
use crate::random::random_between;
use crate::states::{
    pick_random_target, walk_distance, walk_step, TARGET_DISTANCE_MAX, TARGET_DISTANCE_MIN,
};
use vstd::prelude::*;

verus! {

/// Walking speed, in thousandths of a unit per second.
pub const WALKING_SPEED_PER_SECOND: u64 = 800;

/// Shortest rest, in milliseconds.
pub const REST_TIME_MIN: u64 = 3000;

/// Longest rest, in milliseconds.
pub const REST_TIME_MAX: u64 = 7000;

/// One tick of resting with `left` milliseconds to go: the rest counts
/// down; once it is over, the wanderer picks a random target a random
/// distance within the bounds away from `p`, along one of the headings.
pub open spec fn rest_step(left: u64, p: Point, delta: int, m: WalkingManager) -> bool {
    if left <= delta {
        &&& m.idle_time_left is None
        &&& match m.target {
            Some(t) => t.in_world() && exists|h: int, d: int|
                0 <= h < HEADINGS && TARGET_DISTANCE_MIN <= d <= TARGET_DISTANCE_MAX && t
                    == offset_spec(p, h, d),
            None => false,
        }
    } else {
        &&& m.idle_time_left == Some((left - delta) as u64)
        &&& m.target is None
    }
}

/// Either walking to a target or resting for the time left.
pub struct WalkingManager {
    pub target: Option<Point>,
    pub idle_time_left: Option<u64>,
}

impl WalkingManager {
    pub open spec fn wf(&self) -> bool {
        match self.target {
            Some(t) => t.in_world(),
            None => true,
        }
    }

    /// Neither walking nor resting yet.
    pub fn new() -> (r: Self)
        ensures
            r.wf(),
            r.target is None,
            r.idle_time_left is None,
    {
        WalkingManager { target: None, idle_time_left: None }
    }

    /// The position after `delta` milliseconds: a walker steps towards its
    /// target and, on arrival, starts a random rest; a rester counts its rest
    /// down and, when it is over, picks a random target; a fresh manager
    /// starts resting.
    pub fn simulate_and_calculate_new_pos(&mut self, current_pos: Point, delta: u64) -> (r: Point)
        requires
            old(self).wf(),
            current_pos.in_world(),
        ensures
            final(self).wf(),
            r.in_world(),
            match old(self).target {
                Some(t) => {
                    &&& r == step_toward_spec(
                        current_pos,
                        t,
                        walk_step(WALKING_SPEED_PER_SECOND as int, delta as int),
                    )
                    &&& r == t ==> final(self).target is None && final(self).idle_time_left is Some
                    &&& r != t ==> final(self).target == old(self).target
                },
                None => r == current_pos,
            },
            old(self).target is None ==> match old(self).idle_time_left {
                Some(t) => rest_step(t, current_pos, delta as int, *final(self)),
                None => true,
            },
            old(self).target is None && old(self).idle_time_left is None ==> {
                &&& final(self).target is None
                &&& final(self).idle_time_left matches Some(t) && REST_TIME_MIN <= t <= REST_TIME_MAX
            },
    {
        match self.target {
            Some(target) => {
                let step = walk_distance(WALKING_SPEED_PER_SECOND, delta);
                let new_pos = step_toward(current_pos, target, step);
                if new_pos == target {
                    self.target = None;
                    self.idle_time_left = Some(random_between(REST_TIME_MIN, REST_TIME_MAX));
                }
                new_pos
            },
            None => {
                match self.idle_time_left {
                    Some(idle_time_left) => {
                        self.handle_idle_time(delta, idle_time_left, current_pos);
                    },
                    None => {
                        self.idle_time_left = Some(random_between(REST_TIME_MIN, REST_TIME_MAX));
                    },
                }
                current_pos
            },
        }
    }

    /// Counts the rest down; when it is over, picks a random target.
    fn handle_idle_time(&mut self, delta: u64, idle_time_left: u64, current_pos: Point)
        requires
            old(self).target is None,
        ensures
            final(self).wf(),
            rest_step(idle_time_left, current_pos, delta as int, *final(self)),
    {
        if idle_time_left <= delta {
            self.idle_time_left = None;
            self.target = Some(pick_random_target(current_pos));
        } else {
            self.idle_time_left = Some(idle_time_left - delta);
        }
    }
}

} // verus!
