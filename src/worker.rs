//! The decisions of the background worker that runs a simulation apart from
//! its caller: which commands change what, when to run a tick, and which
//! snapshot the caller keeps. The thread and the channels around them
//! belong to the host application.

use crate::simulation::{GenerationConfiguration, Simulation, SimulationData};
use crate::shared_state::saturating_sum;
use vstd::prelude::*;

verus! {

/// A command from the caller to the worker.
#[derive(Debug)]
pub enum SimulationThreadMessage {
    /// Run ticks until the simulated time reaches this many milliseconds.
    AdvanceTo(u64),
    /// Advance each later tick by this many milliseconds.
    ChangeTimeStep(u64),
    /// Throw the simulation away and start a new one.
    Restart(GenerationConfiguration),
}

/// `b` comes no earlier than `a`: neither its step nor its time is smaller.
pub open spec fn follows(a: SimulationData, b: SimulationData) -> bool {
    a.step <= b.step && a.time <= b.time
}

/// Each snapshot of `s` follows the one before it.
pub open spec fn chained(s: Seq<SimulationData>) -> bool {
    forall|i: int| 0 < i < s.len() ==> follows(s[i - 1], #[trigger] s[i])
}

/// Snapshot monotonicity: along a chain of snapshots, the last one follows
/// the first; so a caller that keeps the latest snapshot it has received
/// never sees step or time go back.
pub proof fn lemma_chain_follows(s: Seq<SimulationData>, i: int)
    requires
        chained(s),
        0 <= i < s.len(),
    ensures
        follows(s[0], s[i]),
    decreases i,
{
    if i > 0 {
        lemma_chain_follows(s, i - 1);
        assert(follows(s[i - 1], s[i]));
    }
}

/// What the worker holds: its simulation, the length of a tick and the
/// simulated time it was asked to reach.
pub struct WorkerState {
    pub simulation: Simulation,
    /// Milliseconds per tick.
    pub time_step: u64,
    /// Simulated milliseconds to reach.
    pub target_time: u64,
}

impl WorkerState {
    pub open spec fn wf(&self) -> bool {
        self.simulation.wf()
    }

    /// A worker that has a fresh simulation and has not been asked to
    /// advance yet.
    pub fn new(initial_time_step: u64, generation_configuration: &GenerationConfiguration) -> (r:
        Self)
        requires
            generation_configuration.wf(),
        ensures
            r.wf(),
            r.time_step == initial_time_step,
            r.target_time == 0,
            r.simulation.simulation_data.step == 0,
            r.simulation.simulation_data.time == 0,
    {
        WorkerState {
            simulation: Simulation::new(generation_configuration),
            time_step: initial_time_step,
            target_time: 0,
        }
    }

    /// Whether the simulated time is still short of the target.
    pub fn wants_tick(&self) -> (r: bool)
        ensures
            r == (self.simulation.simulation_data.time < self.target_time),
    {
        self.simulation.simulation_data.time < self.target_time
    }

    /// Applies one command. A restart needs a well-formed configuration.
    pub fn handle_message(&mut self, message: SimulationThreadMessage)
        requires
            old(self).wf(),
            message matches SimulationThreadMessage::Restart(c) ==> c.wf(),
        ensures
            final(self).wf(),
            match message {
                SimulationThreadMessage::AdvanceTo(t) => {
                    &&& final(self).target_time == t
                    &&& final(self).time_step == old(self).time_step
                    &&& final(self).simulation == old(self).simulation
                },
                SimulationThreadMessage::ChangeTimeStep(d) => {
                    &&& final(self).time_step == d
                    &&& final(self).target_time == old(self).target_time
                    &&& final(self).simulation == old(self).simulation
                },
                SimulationThreadMessage::Restart(_) => {
                    &&& final(self).target_time == 0
                    &&& final(self).time_step == old(self).time_step
                    &&& final(self).simulation.simulation_data.step == 0
                    &&& final(self).simulation.simulation_data.time == 0
                },
            },
    {
        match message {
            SimulationThreadMessage::AdvanceTo(new_target_time) => {
                self.target_time = new_target_time;
            },
            SimulationThreadMessage::ChangeTimeStep(new_time_step) => {
                self.time_step = new_time_step;
            },
            SimulationThreadMessage::Restart(new_generation_configuration) => {
                self.simulation = Simulation::new(&new_generation_configuration);
                self.target_time = 0;
            },
        }
    }

    /// Runs one tick when the target is not reached yet, and returns the
    /// snapshot to publish; the snapshot follows the one before the tick.
    pub fn tick(&mut self) -> (r: Option<SimulationData>)
        requires
            old(self).wf(),
        ensures
            final(self).wf(),
            final(self).time_step == old(self).time_step,
            final(self).target_time == old(self).target_time,
            old(self).simulation.simulation_data.time >= old(self).target_time ==> r is None
                && final(self).simulation == old(self).simulation,
            old(self).simulation.simulation_data.time < old(self).target_time ==> match r {
                Some(d) => {
                    &&& d.step == saturating_sum(old(self).simulation.simulation_data.step as int, 1)
                    &&& d.time == saturating_sum(
                        old(self).simulation.simulation_data.time as int,
                        old(self).time_step as int,
                    )
                    &&& d.step == final(self).simulation.simulation_data.step
                    &&& d.time == final(self).simulation.simulation_data.time
                    &&& follows(old(self).simulation.simulation_data, d)
                },
                None => false,
            },
    {
        if self.simulation.simulation_data.time < self.target_time {
            self.simulation.run(self.time_step);
            Some(self.simulation.simulation_data.duplicate())
        } else {
            None
        }
    }
}

/// The caller's side: the latest snapshot received.
pub struct SnapshotMailbox {
    pub last_data: SimulationData,
}

impl SnapshotMailbox {
    /// Keeps the last of the snapshots received since the previous probe;
    /// older ones are dropped. With none received, the kept one stays.
    pub fn probe(&mut self, received: Vec<SimulationData>)
        ensures
            received@.len() == 0 ==> final(self).last_data == old(self).last_data,
            received@.len() > 0 ==> final(self).last_data == received@.last(),
            received@.len() > 0 && chained(seq![old(self).last_data] + received@) ==> follows(
                old(self).last_data,
                final(self).last_data,
            ),
    {
        let ghost all = seq![self.last_data] + received@;
        let n = received.len();
        let mut received = received;
        if n > 0 {
            proof {
                if chained(all) {
                    lemma_chain_follows(all, all.len() - 1);
                    assert(all[all.len() - 1] == received@.last());
                }
            }
            let last = received.pop();
            match last {
                Some(d) => {
                    self.last_data = d;
                },
                None => {},
            }
        }
    }
}

} // verus!
