//! The life of one policy run in the simulator.
//!
//! The same cycle as on the robot, without ramps: the physics starts in the
//! default pose, and a fall or ten faulty inferences in a row stop the run on
//! the spot. The caller performs what [`SimRun::order`] asks for and reports it
//! back through [`SimRun::step`].

use vstd::prelude::*;
use crate::joints::{isaac_index, misa_to_isaac};
use crate::motors::{axis_name, joint_name};
use crate::run::{is_clean, judged_faults, judged_held, pause_after_frames, Inference, CONTROL_PERIOD_NS, DECIMATION, MAX_CONSECUTIVE_FAULTS, MAX_FRAMES};
use crate::text::{context, in_context};

verus! {

/// Cycles before the summary starts to count (2 s).
pub const SUMMARY_AFTER: u64 = 1000;

/// Where a cycle stands.
#[derive(Clone, Copy, PartialEq, Eq, Structural, Debug)]
pub enum SimStage {
    /// Look at the stop key and the clock.
    Begin,
    /// Look at the simulated state.
    Observe,
    /// Run the policy.
    Infer,
    /// Command the joints and advance the physics.
    Exchange,
    Over,
}

/// Why a run was broken off.
pub enum SimAbort {
    /// The robot fell; the text says when and how.
    Fell(String),
    /// Too many faults in a row.
    Faults,
}

/// What happened.
pub enum SimEvent<T> {
    /// A cycle begins: was stop asked for, is the run's time up?
    CycleStart { quit: bool, time_up: bool },
    /// The state was read; `fall` tells of a fall.
    Observed { fall: Option<String> },
    Inferred(Inference<T>),
    /// The physics advanced by one period.
    Exchanged,
}

/// One run. `T` is the policy's command.
pub struct SimRun<T> {
    pub stage: SimStage,
    /// Periods of physics done.
    pub cycles: u64,
    pub faults: u32,
    /// The command in force.
    pub held: T,
    pub abort: Option<SimAbort>,
}

/// The reason that a broken-off run reports.
pub open spec fn sim_abort_text(abort: SimAbort) -> Seq<char> {
    match abort {
        SimAbort::Fell(how) => how@,
        SimAbort::Faults => "異常が連続したため中断"@,
    }
}

/// Whether a cycle counts for the summary.
pub open spec fn counts_for_summary(cycles: int) -> bool {
    cycles >= SUMMARY_AFTER
}

/// How long to sleep at the end of a cycle: to the end of the period in real time, where
/// somebody watches or steers.
pub open spec fn sim_pause(cycles: int, elapsed_ns: u64, keyboard: bool, viz: bool) -> Option<u64> {
    if keyboard || viz {
        pause_after_frames(cycles + 1, elapsed_ns)
    } else {
        None
    }
}

impl<T> SimRun<T> {
    /// The invariant of a run.
    pub open spec fn valid(self) -> bool {
        &&& self.stage == SimStage::Infer ==> self.cycles % DECIMATION == 0
        &&& self.stage != SimStage::Over ==> self.abort is None && self.faults
            < MAX_CONSECUTIVE_FAULTS
        &&& self.faults <= MAX_CONSECUTIVE_FAULTS
        &&& self.abort matches Some(SimAbort::Faults) ==> self.faults == MAX_CONSECUTIVE_FAULTS
    }

    /// Whether the counter has room for another cycle.
    pub open spec fn has_room(self) -> bool {
        self.cycles < MAX_FRAMES
    }

    /// The state after an event. An event that the stage does not wait for
    /// changes nothing.
    pub open spec fn next(self, event: SimEvent<T>) -> SimRun<T> {
        match (self.stage, event) {
            (SimStage::Begin, SimEvent::CycleStart { quit, time_up }) => SimRun {
                stage: if quit || time_up {
                    SimStage::Over
                } else {
                    SimStage::Observe
                },
                ..self
            },
            (SimStage::Observe, SimEvent::Observed { fall }) => match fall {
                Some(how) => SimRun {
                    stage: SimStage::Over,
                    abort: Some(SimAbort::Fell(how)),
                    ..self
                },
                None => SimRun {
                    stage: if self.cycles % DECIMATION == 0 {
                        SimStage::Infer
                    } else {
                        SimStage::Exchange
                    },
                    ..self
                },
            },
            (SimStage::Infer, SimEvent::Inferred(outcome)) => {
                let faults = judged_faults(self.faults as int, is_clean(outcome)) as u32;
                let held = judged_held(self.held, outcome);
                if faults >= MAX_CONSECUTIVE_FAULTS {
                    SimRun {
                        faults,
                        held,
                        stage: SimStage::Over,
                        abort: Some(SimAbort::Faults),
                        ..self
                    }
                } else {
                    SimRun { faults, held, stage: SimStage::Exchange, ..self }
                }
            },
            (SimStage::Exchange, SimEvent::Exchanged) => SimRun {
                cycles: (self.cycles + 1) as u64,
                stage: SimStage::Begin,
                ..self
            },
            _ => self,
        }
    }

    /// A run that holds the given command.
    pub fn new(held: T) -> (run: Self)
        ensures
            run.valid(),
            run.stage == SimStage::Begin,
            run.cycles == 0,
            run.faults == 0,
            run.held == held,
            run.abort is None,
    {
        SimRun { stage: SimStage::Begin, cycles: 0, faults: 0, held, abort: None }
    }

    /// What the run waits for.
    pub fn order(&self) -> (stage: SimStage)
        ensures
            stage == self.stage,
    {
        self.stage
    }

    /// Whether the counter has room for another cycle.
    pub fn can_step(&self) -> (yes: bool)
        ensures
            yes == self.has_room(),
    {
        self.cycles < MAX_FRAMES
    }

    /// Takes in an event.
    pub fn step(&mut self, event: SimEvent<T>)
        requires
            old(self).valid(),
            old(self).has_room(),
        ensures
            *final(self) == old(self).next(event),
            final(self).valid(),
    {
        match (self.stage, event) {
            (SimStage::Begin, SimEvent::CycleStart { quit, time_up }) => {
                self.stage = if quit || time_up {
                    SimStage::Over
                } else {
                    SimStage::Observe
                };
            },
            (SimStage::Observe, SimEvent::Observed { fall }) => {
                match fall {
                    Some(how) => {
                        self.stage = SimStage::Over;
                        self.abort = Some(SimAbort::Fell(how));
                    },
                    None => {
                        self.stage = if self.cycles % DECIMATION == 0 {
                            SimStage::Infer
                        } else {
                            SimStage::Exchange
                        };
                    },
                }
            },
            (SimStage::Infer, SimEvent::Inferred(outcome)) => {
                match outcome {
                    Inference::Clean(t) => {
                        self.faults = 0;
                        self.held = t;
                    },
                    Inference::Anomalous | Inference::Failed => {
                        self.faults = self.faults + 1;
                    },
                }
                if self.faults >= MAX_CONSECUTIVE_FAULTS {
                    self.stage = SimStage::Over;
                    self.abort = Some(SimAbort::Faults);
                } else {
                    self.stage = SimStage::Exchange;
                }
            },
            (SimStage::Exchange, SimEvent::Exchanged) => {
                self.cycles = self.cycles + 1;
                self.stage = SimStage::Begin;
            },
            _ => {},
        }
    }

    /// Whether this cycle counts for the summary.
    pub fn recording(&self) -> (yes: bool)
        ensures
            yes == (self.cycles >= SUMMARY_AFTER),
            yes == counts_for_summary(self.cycles as int),
    {
        self.cycles >= SUMMARY_AFTER
    }

    /// How long to sleep at the end of this cycle, `elapsed_ns` into the run:
    /// to the end of the period in real time, where somebody watches or steers.
    pub fn sleep_ns(&self, elapsed_ns: u64, keyboard: bool, viz: bool) -> (pause: Option<u64>)
        requires
            self.has_room(),
        ensures
            pause == sim_pause(self.cycles as int, elapsed_ns, keyboard, viz),
            pause == (if (keyboard || viz) && (self.cycles + 1) * CONTROL_PERIOD_NS >= elapsed_ns {
                Some(((self.cycles + 1) * CONTROL_PERIOD_NS - elapsed_ns) as u64)
            } else {
                None
            }),
    {
        let deadline: u64 = (self.cycles + 1) * CONTROL_PERIOD_NS;
        if (keyboard || viz) && deadline >= elapsed_ns {
            Some(deadline - elapsed_ns)
        } else {
            None
        }
    }

    /// How the run came out: an error exactly where it was broken off.
    pub fn verdict(&self) -> (result: Result<(), String>)
        ensures
            match (self.abort, result) {
                (None, Ok(_)) => true,
                (Some(abort), Err(text)) => text@ == in_context(
                    "policy-sim"@,
                    sim_abort_text(abort),
                ),
                _ => false,
            },
            self.abort is None <==> result is Ok,
            self.abort matches Some(SimAbort::Fell(how)) ==> result->Err_0@ == "policy-sim"@ + ": "@
                + how@,
            self.abort matches Some(SimAbort::Faults) ==> result->Err_0@ == "policy-sim"@ + ": "@
                + "異常が連続したため中断"@,
    {
        match &self.abort {
            None => Ok(()),
            Some(SimAbort::Fell(how)) => Err(context("policy-sim", how.as_str())),
            Some(SimAbort::Faults) => Err(context("policy-sim", "異常が連続したため中断")),
        }
    }

    /// The state after a row of events.
    pub open spec fn after(self, events: Seq<SimEvent<T>>) -> SimRun<T>
        decreases events.len(),
    {
        if events.len() == 0 {
            self
        } else {
            self.after(events.drop_last()).next(events.last())
        }
    }

    /// How many of the events were inferences that the run had asked for.
    pub open spec fn inferences(self, events: Seq<SimEvent<T>>) -> int
        decreases events.len(),
    {
        if events.len() == 0 {
            0
        } else {
            let before = self.after(events.drop_last());
            self.inferences(events.drop_last()) + if before.stage == SimStage::Infer
                && events.last() is Inferred {
                1int
            } else {
                0int
            }
        }
    }
}

/// An event that an inference was not clean, or no inference at all.
pub open spec fn not_clean_in_sim<T>(event: SimEvent<T>) -> bool {
    event matches SimEvent::Inferred(outcome) ==> !is_clean(outcome)
}

/// Whatever happens, the invariant holds: a run goes on only with fewer than ten
/// faults, and it reports faults only at ten.
pub proof fn law_every_sim_run_stays_valid<T>(run: SimRun<T>, events: Seq<SimEvent<T>>)
    requires
        run.valid(),
        run.cycles + events.len() <= MAX_FRAMES,
    ensures
        run.after(events).valid(),
        run.cycles <= run.after(events).cycles <= run.cycles + events.len(),
    decreases events.len(),
{
    if events.len() > 0 {
        law_every_sim_run_stays_valid(run, events.drop_last());
    }
}

/// A run that is over stays as it is.
pub proof fn law_over_is_over<T>(run: SimRun<T>, events: Seq<SimEvent<T>>)
    requires
        run.stage == SimStage::Over,
    ensures
        run.after(events) == run,
    decreases events.len(),
{
    if events.len() > 0 {
        law_over_is_over(run, events.drop_last());
    }
}

/// As long as no inference is clean, the run holds the command that it held
/// before, and after ten inferences that it asked for it has been broken off.
pub proof fn law_faults_keep_the_command_and_end_the_run<T>(
    run: SimRun<T>,
    events: Seq<SimEvent<T>>,
)
    requires
        run.valid(),
        run.cycles + events.len() <= MAX_FRAMES,
        forall|i: int| 0 <= i < events.len() ==> not_clean_in_sim(#[trigger] events[i]),
    ensures
        run.after(events).held == run.held,
        run.after(events).faults >= run.inferences(events),
        run.inferences(events) >= MAX_CONSECUTIVE_FAULTS ==> run.after(events).abort is Some,
    decreases events.len(),
{
    if events.len() > 0 {
        let front = events.drop_last();
        assert forall|i: int| 0 <= i < front.len() implies not_clean_in_sim(#[trigger] front[i]) by {
            assert(front[i] == events[i]);
        }
        law_faults_keep_the_command_and_end_the_run(run, front);
        law_every_sim_run_stays_valid(run, front);
        assert(not_clean_in_sim(events[events.len() - 1]));
    }
}

/// A fall stops the run on the spot, with its own text as the reason.
pub proof fn law_a_fall_stops_the_run<T>(run: SimRun<T>, how: String)
    requires
        run.valid(),
        run.stage == SimStage::Observe,
    ensures
        run.next(SimEvent::Observed { fall: Some(how) }).stage == SimStage::Over,
        run.next(SimEvent::Observed { fall: Some(how) }).abort == Some(SimAbort::Fell(how)),
{
}

/// The stance of the legs, from contact readings: a missing reading counts as
/// `missing` says.
pub open spec fn contact_or(contacts: Seq<Option<bool>>, leg: int, missing: bool) -> bool {
    if leg < contacts.len() {
        match contacts[leg] {
            Some(down) => down,
            None => missing,
        }
    } else {
        missing
    }
}

/// The stance of the four legs, from contact readings that may be missing.
pub fn contact_stance(contacts: &Vec<Option<bool>>, missing: bool) -> (stance: [bool; 4])
    ensures
        forall|leg: int|
            0 <= leg < 4 ==> #[trigger] stance@[leg] == contact_or(contacts@, leg, missing),
{
    let mut stance = [missing; 4];
    for leg in 0..4usize
        invariant
            forall|l: int|
                0 <= l < leg ==> #[trigger] stance@[l] == contact_or(contacts@, l, missing),
            forall|l: int| leg <= l < 4 ==> #[trigger] stance@[l] == missing,
    {
        if leg < contacts.len() {
            if let Some(down) = contacts[leg] {
                stance[leg] = down;
            }
        }
    }
    stance
}

/// Whether a row of named angles is the policy's default pose.
pub open spec fn is_home<N>(home: Seq<(String, N)>, default_isaac: Seq<N>) -> bool {
    &&& home.len() == 12
    &&& forall|i: int|
        0 <= i < 12 ==> (#[trigger] home[i]).0@ == joint_name(i / 3, i % 3) && home[i].1
            == default_isaac[isaac_index(i)]
}

/// The joint angles that the physics starts from: each axis by its name, at the
/// policy's default pose.
pub fn home_pose<N: Copy>(default_isaac: &[N; 12]) -> (home: Vec<(String, N)>)
    ensures
        is_home(home@, default_isaac@),
        home.len() == 12,
        forall|i: int|
            0 <= i < 12 ==> (#[trigger] home@[i]).0@ == joint_name(i / 3, i % 3) && home@[i].1
                == default_isaac@[isaac_index(i)],
{
    let mut home: Vec<(String, N)> = Vec::new();
    for i in 0..12usize
        invariant
            home.len() == i,
            forall|k: int|
                0 <= k < i ==> (#[trigger] home@[k]).0@ == joint_name(k / 3, k % 3) && home@[k].1
                    == default_isaac@[isaac_index(k)],
    {
        home.push((axis_name(i / 3, i % 3), default_isaac[misa_to_isaac(i)]));
    }
    home
}

/// How often each leg was in contact while the summary counted.
pub struct ContactTally {
    /// Cycles counted.
    pub cycles: u64,
    /// Cycles in which each leg stood.
    pub legs: [u64; 4],
}

/// Whether one cycle leads from one tally to the next.
pub open spec fn tallies<V>(
    before: ContactTally,
    candidates: Seq<Option<V>>,
    after: ContactTally,
) -> bool {
    &&& after.cycles == before.cycles + 1
    &&& forall|leg: int|
        0 <= leg < 4 ==> #[trigger] after.legs@[leg] == before.legs@[leg]
            + if candidates[leg] is Some {
            1int
        } else {
            0int
        }
}

impl ContactTally {
    /// No leg stood longer than was counted.
    pub open spec fn valid(self) -> bool {
        forall|leg: int| 0 <= leg < 4 ==> #[trigger] self.legs@[leg] <= self.cycles
    }

    /// Nothing counted yet.
    pub fn new() -> (tally: Self)
        ensures
            tally.valid(),
            tally.cycles == 0,
            forall|leg: int| 0 <= leg < 4 ==> #[trigger] tally.legs@[leg] == 0,
    {
        ContactTally { cycles: 0, legs: [0u64; 4] }
    }

    /// Counts one cycle; a leg that gave a velocity candidate stood.
    pub fn count<V>(&mut self, candidates: &[Option<V>; 4])
        requires
            old(self).valid(),
            old(self).cycles < u64::MAX,
        ensures
            final(self).valid(),
            tallies(*old(self), candidates@, *final(self)),
            final(self).cycles == old(self).cycles + 1,
            forall|leg: int|
                0 <= leg < 4 ==> #[trigger] final(self).legs@[leg] == old(self).legs@[leg]
                    + if candidates@[leg] is Some {
                    1int
                } else {
                    0int
                },
    {
        self.cycles = self.cycles + 1;
        let ghost before = self.legs@;
        for leg in 0..4usize
            invariant
                forall|l: int| 0 <= l < 4 ==> #[trigger] before[l] < self.cycles,
                before.len() == 4,
                forall|l: int|
                    0 <= l < leg ==> #[trigger] self.legs@[l] == before[l] + if candidates@[l] is Some {
                        1int
                    } else {
                        0int
                    },
                forall|l: int| leg <= l < 4 ==> #[trigger] self.legs@[l] == before[l],
                self.cycles == old(self).cycles + 1,
                before == old(self).legs@,
        {
            if candidates[leg].is_some() {
                assert(before[leg as int] < self.cycles);
                self.legs[leg] = self.legs[leg] + 1;
            }
        }
    }
}

/// A simulated run can always be stopped: at the start of a cycle, a stop that was
/// asked for or the end of the run's time ends it, without a reason for breaking off
/// and with everything else as it was; with neither, it goes on to look at the state.
pub proof fn law_a_stop_ends_the_simulation<T>(run: SimRun<T>, quit: bool, time_up: bool)
    requires
        run.valid(),
        run.stage == SimStage::Begin,
    ensures
        ({
            let next = run.next(SimEvent::CycleStart { quit, time_up });
            &&& quit ==> next.stage == SimStage::Over
            &&& time_up ==> next.stage == SimStage::Over
            &&& !quit && !time_up ==> next.stage == SimStage::Observe
            &&& next.abort is None
            &&& next.cycles == run.cycles && next.faults == run.faults && next.held == run.held
        }),
{
}

/// A robot that stands is simulated on: the policy is asked exactly where the cycle
/// count is a multiple of ten, else the joints are commanded at once.
pub proof fn law_an_upright_robot_is_simulated_on<T>(run: SimRun<T>)
    requires
        run.valid(),
        run.stage == SimStage::Observe,
    ensures
        ({
            let next = run.next(SimEvent::Observed { fall: None });
            &&& run.cycles % 10 == 0 ==> next.stage == SimStage::Infer
            &&& run.cycles % 10 != 0 ==> next.stage == SimStage::Exchange
            &&& next.abort is None
            &&& next.cycles == run.cycles && next.faults == run.faults && next.held == run.held
        }),
{
}

/// A simulated inference is judged like one on the robot: a clean one brings its
/// command and takes all faults back, another adds a fault and leaves the command, and
/// the run ends exactly where the faults have reached ten.
pub proof fn law_simulated_inferences_are_judged<T>(run: SimRun<T>, outcome: Inference<T>)
    requires
        run.valid(),
        run.stage == SimStage::Infer,
    ensures
        ({
            let next = run.next(SimEvent::Inferred(outcome));
            &&& match outcome {
                Inference::Clean(command) => next.faults == 0 && next.held == command,
                _ => next.faults == run.faults + 1 && next.held == run.held,
            }
            &&& next.faults >= 10 <==> next.stage == SimStage::Over
            &&& next.faults >= 10 <==> next.abort == Some(SimAbort::Faults)
            &&& next.faults < 10 ==> next.stage == SimStage::Exchange && next.abort is None
            &&& next.cycles == run.cycles
        }),
{
}

/// The physics advances by one cycle at a time, and the next one begins.
pub proof fn law_the_physics_advances_cycle_by_cycle<T>(run: SimRun<T>)
    requires
        run.valid(),
        run.has_room(),
        run.stage == SimStage::Exchange,
    ensures
        ({
            let next = run.next(SimEvent::Exchanged);
            &&& next.stage == SimStage::Begin
            &&& next.cycles == run.cycles + 1
            &&& next.faults == run.faults && next.held == run.held && next.abort == run.abort
        }),
{
}

/// An event that the stage does not wait for changes nothing.
pub proof fn law_only_the_awaited_simulator_event_counts<T>(run: SimRun<T>, event: SimEvent<T>)
    requires
        run.stage == SimStage::Begin ==> !(event is CycleStart),
        run.stage == SimStage::Observe ==> !(event is Observed),
        run.stage == SimStage::Infer ==> !(event is Inferred),
        run.stage == SimStage::Exchange ==> !(event is Exchanged),
    ensures
        run.next(event) == run,
{
}

/// A contact reading is taken where there is one; where the leg has none, the fallback
/// is.
pub proof fn law_missing_contacts_fall_back(
    contacts: Seq<Option<bool>>,
    leg: int,
    missing: bool,
)
    requires
        0 <= leg,
    ensures
        leg < contacts.len() && contacts[leg] == Some(true) ==> contact_or(contacts, leg, missing),
        leg < contacts.len() && contacts[leg] == Some(false) ==> !contact_or(
            contacts,
            leg,
            missing,
        ),
        leg >= contacts.len() || contacts[leg] is None ==> contact_or(contacts, leg, missing)
            == missing,
{
}

/// The first thousand cycles do not count for the summary, and all others do.
pub proof fn law_the_summary_starts_after_two_seconds(cycles: int)
    ensures
        counts_for_summary(cycles) <==> cycles >= 1000,
        counts_for_summary(cycles) ==> counts_for_summary(cycles + 1),
{
}

/// Nobody waits for real time unless somebody watches or steers, and then the end of
/// the cycle is due as the next frame would be on the robot.
pub proof fn law_only_an_audience_sees_real_time(
    cycles: int,
    elapsed_ns: u64,
    keyboard: bool,
    viz: bool,
)
    requires
        0 <= cycles < MAX_FRAMES,
    ensures
        !keyboard && !viz ==> sim_pause(cycles, elapsed_ns, keyboard, viz) is None,
        sim_pause(cycles, elapsed_ns, true, viz) == sim_pause(cycles, elapsed_ns, keyboard, true),
        sim_pause(cycles, elapsed_ns, keyboard, viz) matches Some(pause) ==> elapsed_ns + pause == (
        cycles + 1) * 2_000_000,
        keyboard || viz ==> (sim_pause(cycles, elapsed_ns, keyboard, viz) is None <==> elapsed_ns > (
        cycles + 1) * 2_000_000),
{
}

/// The physics starts in the pose that a policy command at its default would hold: each
/// axis at the angle of its own Isaac joint, under its own name.
pub proof fn law_the_physics_starts_in_the_default_pose<N>(
    home: Seq<(String, N)>,
    default_isaac: Seq<N>,
    leg: int,
    kind: int,
)
    requires
        is_home(home, default_isaac),
        0 <= leg < 4,
        0 <= kind < 3,
    ensures
        home[3 * leg + kind].1 == default_isaac[4 * kind + leg],
        home[3 * leg + kind].0@ == joint_name(leg, kind),
        home.len() == 12,
{
    assert(home[3 * leg + kind] == home[3 * leg + kind]);
}

/// A cycle counts once, and for each leg exactly where that leg gave a candidate.
pub proof fn law_each_leg_is_tallied_for_itself<V>(
    before: ContactTally,
    candidates: Seq<Option<V>>,
    after: ContactTally,
    leg: int,
)
    requires
        tallies(before, candidates, after),
        0 <= leg < 4,
    ensures
        after.cycles - before.cycles == 1,
        candidates[leg] is Some ==> after.legs@[leg] - before.legs@[leg] == 1,
        candidates[leg] is None ==> after.legs@[leg] == before.legs@[leg],
{
    assert(after.legs@[leg] == after.legs@[leg]);
}

} // verus!
