//! The life of one policy run on the robot, as a state machine.
//!
//! A run ramps from the measured pose to the policy's default pose, settles
//! there, walks at the low-level rate with an inference every tenth cycle, and
//! ends in the lying pose, limp. The caller performs what [`PolicyRun::order`]
//! asks for and reports it back through [`PolicyRun::step`]; sensor values come
//! in as facts (how old, how tilted), never as numbers to be weighed here.
//!
//! On the safe side: an unclean inference keeps the command in force, ten in a
//! row end the walk, and a tilt beyond the limit goes limp at once. A stale robot
//! state is a fault of its own: as long as none fresher comes, the command in force
//! is kept and the faults add up, whatever the policy says to the old state. Every
//! end but the tilt goes through the ramp to the lying pose.

use vstd::prelude::*;
use crate::text::{context, in_context};

verus! {

/// The low-level period (500 Hz).
pub const CONTROL_PERIOD_NS: u64 = 2_000_000;

/// One inference per this many low-level cycles (50 Hz).
pub const DECIMATION: u64 = 10;

/// Frames of the ramp to the default pose (3 s).
pub const RAMP_TICKS: u64 = 1500;

/// Frames held in the default pose before the walk (0.5 s).
pub const SETTLE_TICKS: u64 = 250;

/// Frames of the ramp to the lying pose (2.5 s).
pub const FOLD_TICKS: u64 = 1250;

/// Frames held in the lying pose before going limp (0.5 s).
pub const LIE_TICKS: u64 = 250;

/// A robot state older than this counts as a fault.
pub const STALE_NS: u64 = 20_000_000;

/// This many faults at an inference end the walk.
pub const MAX_CONSECUTIVE_FAULTS: u32 = 10;

/// The most frames whose deadline still fits the clock.
pub const MAX_FRAMES: u64 = 9_000_000_000_000;

/// What came of one inference.
pub enum Inference<T> {
    /// A command, from an observation that passed the screen.
    Clean(T),
    /// The screen found something wrong with the observation.
    Anomalous,
    /// The network gave no command.
    Failed,
}

/// What came of an inference that gave a command, by what the screen found.
pub open spec fn judged<T>(command: T, anomalies: usize) -> Inference<T> {
    if anomalies == 0 {
        Inference::Clean(command)
    } else {
        Inference::Anomalous
    }
}

/// How long to sleep until a number of frames is due, `elapsed_ns` into the run.
pub open spec fn pause_after_frames(frames: int, elapsed_ns: u64) -> Option<u64> {
    if frames * CONTROL_PERIOD_NS >= elapsed_ns {
        Some((frames * CONTROL_PERIOD_NS - elapsed_ns) as u64)
    } else {
        None
    }
}

/// What came of an inference that gave a command: it is clean where the screen found
/// nothing wrong with the observation.
pub fn judge<T>(command: T, anomalies: usize) -> (outcome: Inference<T>)
    ensures
        outcome == judged(command, anomalies),
        outcome == (if anomalies == 0 {
            Inference::Clean(command)
        } else {
            Inference::Anomalous
        }),
{
    if anomalies == 0 {
        Inference::Clean(command)
    } else {
        Inference::Anomalous
    }
}

/// The fault count after an inference: a clean one clears it.
pub open spec fn judged_faults(faults: int, clean: bool) -> int {
    if clean {
        0
    } else {
        faults + 1
    }
}

/// The command in force after an inference: only a clean one replaces it.
pub open spec fn judged_held<T>(held: T, outcome: Inference<T>) -> T {
    match outcome {
        Inference::Clean(t) => t,
        _ => held,
    }
}

/// Whether an inference came out clean.
pub open spec fn is_clean<T>(outcome: Inference<T>) -> bool {
    outcome is Clean
}

/// Where a walking cycle stands.
#[derive(Clone, Copy, PartialEq, Eq, Structural, Debug)]
pub enum Cycle {
    /// Look at the stop key and the clock.
    Begin,
    /// Look at the robot's state.
    Observe,
    /// Run the policy.
    Infer,
    /// Send the frame.
    Send,
}

/// Where the run stands; the number is the frame that comes next.
#[derive(Clone, Copy, PartialEq, Eq, Structural, Debug)]
pub enum Stage {
    Ramp(u64),
    Settle(u64),
    /// In the default pose: reset the policy's clock and start walking.
    Ready,
    Walk(Cycle),
    Fold(u64),
    Lie(u64),
    /// One frame without stiffness.
    Limp,
    Over,
}

/// Why a walk was broken off.
pub enum Abort {
    /// The tilt limit was passed, at so many degrees (as printed).
    Tilt(String),
    /// Too many faults in a row.
    Faults,
}

/// What happened.
pub enum Event<T> {
    /// The frame of this stage went out.
    FrameSent,
    /// The policy's clock was reset; this is the command it holds.
    Entered(T),
    /// A cycle begins: was stop asked for, is the run's time up?
    CycleStart { quit: bool, time_up: bool },
    /// The robot's state is `age_ns` old; `tilt` holds the degrees where the
    /// limit was passed.
    Observed { age_ns: u64, tilt: Option<String> },
    Inferred(Inference<T>),
    /// The limp frame went out.
    LimpSent,
}

/// One run. `T` is the policy's command.
pub struct PolicyRun<T> {
    /// Hold the default pose and only watch: the policy is not run.
    pub hold: bool,
    pub stage: Stage,
    /// Frames sent so far, limp frames not counted.
    pub sent: u64,
    /// Walking cycles completed.
    pub cycles: u64,
    pub faults: u32,
    /// Whether the robot's state was stale when it was last looked at.
    pub stale: bool,
    /// The command in force.
    pub held: Option<T>,
    pub abort: Option<Abort>,
}

/// How many frames stand between the start and a stage, with `cycles` walked.
pub open spec fn frames_due(stage: Stage, cycles: int, tilted: bool) -> int {
    match stage {
        Stage::Ramp(i) => i as int,
        Stage::Settle(i) => RAMP_TICKS + i,
        Stage::Ready => (RAMP_TICKS + SETTLE_TICKS) as int,
        Stage::Walk(_) => RAMP_TICKS + SETTLE_TICKS + cycles,
        Stage::Fold(i) => RAMP_TICKS + SETTLE_TICKS + cycles + i,
        Stage::Lie(i) => RAMP_TICKS + SETTLE_TICKS + cycles + FOLD_TICKS + i,
        Stage::Limp | Stage::Over => if tilted {
            RAMP_TICKS + SETTLE_TICKS + cycles
        } else {
            RAMP_TICKS + SETTLE_TICKS + cycles + FOLD_TICKS + LIE_TICKS
        },
    }
}

/// How many faults can have gathered: nine that did not end the walk, and one
/// stale state per cycle since.
pub open spec fn fault_bound(stage: Stage, cycles: int) -> int {
    match stage {
        Stage::Walk(Cycle::Begin) | Stage::Walk(Cycle::Observe) => 9 + (cycles + 9) % 10,
        Stage::Walk(Cycle::Infer) => 19,
        Stage::Walk(Cycle::Send) => 9 + cycles % 10,
        _ => 20,
    }
}

/// What the run asks its caller to do next.
#[derive(Clone, Copy, PartialEq, Eq, Structural, Debug)]
pub enum Order {
    /// Send the pose that lies `step / steps` of the way from the measured pose
    /// to the default pose, with that share of the stiffness.
    RampFrame { step: u64, steps: u64 },
    /// Send the default pose at full stiffness.
    DefaultFrame,
    /// Reset the policy's clock.
    Enter,
    /// Look at the stop key and the clock.
    CheckStop,
    /// Read the robot's state.
    Observe,
    /// Run the policy.
    Infer,
    /// Send the command in force.
    WalkFrame,
    /// Send the pose that lies `step / steps` of the way to the lying pose.
    FoldFrame { step: u64, steps: u64 },
    /// Send the lying pose.
    LieFrame,
    /// Send a frame without stiffness.
    LimpFrame,
    /// Nothing is left to do.
    Finish,
}

/// The order that belongs to a stage.
pub open spec fn order_of(stage: Stage) -> Order {
    match stage {
        Stage::Ramp(i) => Order::RampFrame { step: i, steps: RAMP_TICKS },
        Stage::Settle(_) => Order::DefaultFrame,
        Stage::Ready => Order::Enter,
        Stage::Walk(Cycle::Begin) => Order::CheckStop,
        Stage::Walk(Cycle::Observe) => Order::Observe,
        Stage::Walk(Cycle::Infer) => Order::Infer,
        Stage::Walk(Cycle::Send) => Order::WalkFrame,
        Stage::Fold(i) => Order::FoldFrame { step: i, steps: FOLD_TICKS },
        Stage::Lie(_) => Order::LieFrame,
        Stage::Limp => Order::LimpFrame,
        Stage::Over => Order::Finish,
    }
}

/// Whether an order sends a frame that holds the joints.
pub open spec fn holds_joints(order: Order) -> bool {
    match order {
        Order::RampFrame { .. } => true,
        Order::DefaultFrame => true,
        Order::WalkFrame => true,
        Order::FoldFrame { .. } => true,
        Order::LieFrame => true,
        _ => false,
    }
}

/// The reason that a broken-off walk reports.
pub open spec fn abort_text(abort: Abort) -> Seq<char> {
    match abort {
        Abort::Tilt(degrees) => "傾き "@ + degrees@ + "° — 脱力して中断しました"@,
        Abort::Faults => "異常が連続したため中断しました"@,
    }
}

impl<T> PolicyRun<T> {
    /// Whether the run ended, or is ending, because of the tilt.
    pub open spec fn tilted(self) -> bool {
        self.abort matches Some(Abort::Tilt(_))
    }

    /// The invariant of a run.
    pub open spec fn valid(self) -> bool {
        &&& self.sent == frames_due(self.stage, self.cycles as int, self.tilted())
        &&& match self.stage {
            Stage::Ramp(i) => i < RAMP_TICKS,
            Stage::Settle(i) => i < SETTLE_TICKS,
            Stage::Fold(i) => i < FOLD_TICKS,
            Stage::Lie(i) => i < LIE_TICKS,
            Stage::Walk(c) => c == Cycle::Infer ==> !self.hold && self.cycles % DECIMATION == 0,
            _ => true,
        }
        &&& match self.stage {
            Stage::Ramp(_) | Stage::Settle(_) | Stage::Ready => {
                &&& self.cycles == 0
                &&& self.faults == 0
                &&& !self.stale
                &&& self.held is None
                &&& self.abort is None
            },
            Stage::Walk(_) => self.held is Some && self.abort is None,
            Stage::Fold(_) | Stage::Lie(_) => self.held is Some && !self.tilted(),
            Stage::Limp | Stage::Over => self.held is Some,
        }
        &&& self.abort is Some ==> self.abort->0 is Tilt || !self.hold
        &&& !self.hold ==> self.faults <= fault_bound(self.stage, self.cycles as int)
    }

    /// Whether the counters have room for another event.
    pub open spec fn has_room(self) -> bool {
        &&& self.sent < MAX_FRAMES
        &&& self.hold ==> self.faults < u32::MAX
    }

    /// Whether the counters have room for a cycle and for lying down after it.
    pub open spec fn can_walk_on(self) -> bool {
        &&& self.sent + 1 + FOLD_TICKS + LIE_TICKS < MAX_FRAMES
        &&& self.hold ==> self.faults < u32::MAX - 1
    }

    /// Whether the counters have room for lying down.
    pub open spec fn can_lie_down(self) -> bool {
        &&& self.sent + FOLD_TICKS + LIE_TICKS < MAX_FRAMES
        &&& self.hold ==> self.faults < u32::MAX
    }

    /// Whether the policy is to be run in this cycle.
    pub open spec fn inference_due(self) -> bool {
        !self.hold && self.cycles % DECIMATION == 0
    }

    /// The state after an event. An event that the stage does not wait for
    /// changes nothing.
    pub open spec fn next(self, event: Event<T>) -> PolicyRun<T> {
        match (self.stage, event) {
            (Stage::Ramp(i), Event::FrameSent) => PolicyRun {
                sent: (self.sent + 1) as u64,
                stage: if i + 1 < RAMP_TICKS {
                    Stage::Ramp((i + 1) as u64)
                } else {
                    Stage::Settle(0)
                },
                ..self
            },
            (Stage::Settle(i), Event::FrameSent) => PolicyRun {
                sent: (self.sent + 1) as u64,
                stage: if i + 1 < SETTLE_TICKS {
                    Stage::Settle((i + 1) as u64)
                } else {
                    Stage::Ready
                },
                ..self
            },
            (Stage::Ready, Event::Entered(held)) => PolicyRun {
                stage: Stage::Walk(Cycle::Begin),
                held: Some(held),
                ..self
            },
            (Stage::Walk(Cycle::Begin), Event::CycleStart { quit, time_up }) => PolicyRun {
                stage: if quit || time_up {
                    Stage::Fold(0)
                } else {
                    Stage::Walk(Cycle::Observe)
                },
                ..self
            },
            (Stage::Walk(Cycle::Observe), Event::Observed { age_ns, tilt }) => {
                let stale = age_ns > STALE_NS;
                let faults = if stale {
                    (self.faults + 1) as u32
                } else {
                    self.faults
                };
                match tilt {
                    Some(degrees) => PolicyRun {
                        faults,
                        stale,
                        stage: Stage::Limp,
                        abort: Some(Abort::Tilt(degrees)),
                        ..self
                    },
                    None => PolicyRun {
                        faults,
                        stale,
                        stage: Stage::Walk(
                            if self.inference_due() {
                                Cycle::Infer
                            } else {
                                Cycle::Send
                            },
                        ),
                        ..self
                    },
                }
            },
            (Stage::Walk(Cycle::Infer), Event::Inferred(outcome)) => {
                let faults = if self.stale && is_clean(outcome) {
                    self.faults
                } else {
                    judged_faults(self.faults as int, is_clean(outcome)) as u32
                };
                let held = if self.stale {
                    self.held
                } else {
                    Some(judged_held(self.held->0, outcome))
                };
                if faults >= MAX_CONSECUTIVE_FAULTS {
                    PolicyRun {
                        faults,
                        held,
                        stage: Stage::Fold(0),
                        abort: Some(Abort::Faults),
                        ..self
                    }
                } else {
                    PolicyRun { faults, held, stage: Stage::Walk(Cycle::Send), ..self }
                }
            },
            (Stage::Walk(Cycle::Send), Event::FrameSent) => PolicyRun {
                sent: (self.sent + 1) as u64,
                cycles: (self.cycles + 1) as u64,
                stage: Stage::Walk(Cycle::Begin),
                ..self
            },
            (Stage::Fold(i), Event::FrameSent) => PolicyRun {
                sent: (self.sent + 1) as u64,
                stage: if i + 1 < FOLD_TICKS {
                    Stage::Fold((i + 1) as u64)
                } else {
                    Stage::Lie(0)
                },
                ..self
            },
            (Stage::Lie(i), Event::FrameSent) => PolicyRun {
                sent: (self.sent + 1) as u64,
                stage: if i + 1 < LIE_TICKS {
                    Stage::Lie((i + 1) as u64)
                } else {
                    Stage::Limp
                },
                ..self
            },
            (Stage::Limp, Event::LimpSent) => PolicyRun { stage: Stage::Over, ..self },
            _ => self,
        }
    }

    /// A run that has sent nothing yet.
    pub fn new(hold: bool) -> (run: Self)
        ensures
            run.valid(),
            run.hold == hold,
            run.stage == Stage::Ramp(0),
            run.sent == 0 && run.cycles == 0 && run.faults == 0,
            !run.stale && run.held is None && run.abort is None,
    {
        PolicyRun {
            hold,
            stage: Stage::Ramp(0),
            sent: 0,
            cycles: 0,
            faults: 0,
            stale: false,
            held: None,
            abort: None,
        }
    }

    /// Whether the counters have room for another event.
    pub fn can_step(&self) -> (yes: bool)
        ensures
            yes == self.has_room(),
    {
        self.sent < MAX_FRAMES && (!self.hold || self.faults < u32::MAX)
    }

    /// Whether the counters have just room enough left to lie down: the walk is then
    /// to be stopped at the start of a cycle.
    pub fn running_out(&self) -> (yes: bool)
        requires
            self.sent <= MAX_FRAMES,
        ensures
            yes == !self.can_walk_on(),
    {
        self.sent + 1 + FOLD_TICKS + LIE_TICKS >= MAX_FRAMES || (self.hold && self.faults
            >= u32::MAX - 1)
    }

    /// Takes in an event.
    pub fn step(&mut self, event: Event<T>)
        requires
            old(self).valid(),
            old(self).has_room(),
        ensures
            *final(self) == old(self).next(event),
            final(self).valid(),
    {
        match (self.stage, event) {
            (Stage::Ramp(i), Event::FrameSent) => {
                self.sent = self.sent + 1;
                self.stage = if i + 1 < RAMP_TICKS {
                    Stage::Ramp(i + 1)
                } else {
                    Stage::Settle(0)
                };
            },
            (Stage::Settle(i), Event::FrameSent) => {
                self.sent = self.sent + 1;
                self.stage = if i + 1 < SETTLE_TICKS {
                    Stage::Settle(i + 1)
                } else {
                    Stage::Ready
                };
            },
            (Stage::Ready, Event::Entered(held)) => {
                self.stage = Stage::Walk(Cycle::Begin);
                self.held = Some(held);
            },
            (Stage::Walk(Cycle::Begin), Event::CycleStart { quit, time_up }) => {
                self.stage = if quit || time_up {
                    Stage::Fold(0)
                } else {
                    Stage::Walk(Cycle::Observe)
                };
            },
            (Stage::Walk(Cycle::Observe), Event::Observed { age_ns, tilt }) => {
                self.stale = age_ns > STALE_NS;
                if self.stale {
                    self.faults = self.faults + 1;
                }
                match tilt {
                    Some(degrees) => {
                        self.stage = Stage::Limp;
                        self.abort = Some(Abort::Tilt(degrees));
                    },
                    None => {
                        self.stage = Stage::Walk(
                            if !self.hold && self.cycles % DECIMATION == 0 {
                                Cycle::Infer
                            } else {
                                Cycle::Send
                            },
                        );
                    },
                }
            },
            (Stage::Walk(Cycle::Infer), Event::Inferred(outcome)) => {
                match outcome {
                    Inference::Clean(t) => {
                        if !self.stale {
                            self.faults = 0;
                            self.held = Some(t);
                        }
                    },
                    Inference::Anomalous | Inference::Failed => {
                        self.faults = self.faults + 1;
                    },
                }
                if self.faults >= MAX_CONSECUTIVE_FAULTS {
                    self.stage = Stage::Fold(0);
                    self.abort = Some(Abort::Faults);
                } else {
                    self.stage = Stage::Walk(Cycle::Send);
                }
            },
            (Stage::Walk(Cycle::Send), Event::FrameSent) => {
                self.sent = self.sent + 1;
                self.cycles = self.cycles + 1;
                self.stage = Stage::Walk(Cycle::Begin);
            },
            (Stage::Fold(i), Event::FrameSent) => {
                self.sent = self.sent + 1;
                self.stage = if i + 1 < FOLD_TICKS {
                    Stage::Fold(i + 1)
                } else {
                    Stage::Lie(0)
                };
            },
            (Stage::Lie(i), Event::FrameSent) => {
                self.sent = self.sent + 1;
                self.stage = if i + 1 < LIE_TICKS {
                    Stage::Lie(i + 1)
                } else {
                    Stage::Limp
                };
            },
            (Stage::Limp, Event::LimpSent) => {
                self.stage = Stage::Over;
            },
            _ => {},
        }
    }

    /// What to do next.
    pub fn order(&self) -> (order: Order)
        ensures
            order == order_of(self.stage),
    {
        match self.stage {
            Stage::Ramp(i) => Order::RampFrame { step: i, steps: RAMP_TICKS },
            Stage::Settle(_) => Order::DefaultFrame,
            Stage::Ready => Order::Enter,
            Stage::Walk(Cycle::Begin) => Order::CheckStop,
            Stage::Walk(Cycle::Observe) => Order::Observe,
            Stage::Walk(Cycle::Infer) => Order::Infer,
            Stage::Walk(Cycle::Send) => Order::WalkFrame,
            Stage::Fold(i) => Order::FoldFrame { step: i, steps: FOLD_TICKS },
            Stage::Lie(_) => Order::LieFrame,
            Stage::Limp => Order::LimpFrame,
            Stage::Over => Order::Finish,
        }
    }

    /// How long to sleep after the latest frame, `elapsed_ns` into the run. The
    /// deadlines are absolute, so a late frame does not delay the next ones;
    /// `None` where the deadline has passed.
    pub fn sleep_ns(&self, elapsed_ns: u64) -> (pause: Option<u64>)
        requires
            self.sent <= MAX_FRAMES,
        ensures
            pause == pause_after_frames(self.sent as int, elapsed_ns),
            pause == (if self.sent * CONTROL_PERIOD_NS >= elapsed_ns {
                Some((self.sent * CONTROL_PERIOD_NS - elapsed_ns) as u64)
            } else {
                None
            }),
    {
        let deadline: u64 = self.sent * CONTROL_PERIOD_NS;
        if deadline >= elapsed_ns {
            Some(deadline - elapsed_ns)
        } else {
            None
        }
    }

    /// How the run came out: an error exactly where the walk was broken off.
    pub fn verdict(&self) -> (result: Result<(), String>)
        ensures
            match (self.abort, result) {
                (None, Ok(_)) => true,
                (Some(abort), Err(text)) => text@ == in_context("policy"@, abort_text(abort)),
                _ => false,
            },
            self.abort is None <==> result is Ok,
            self.abort matches Some(Abort::Tilt(degrees)) ==> result->Err_0@ == "policy"@ + ": "@ + (
            "傾き "@ + degrees@ + "° — 脱力して中断しました"@),
            self.abort matches Some(Abort::Faults) ==> result->Err_0@ == "policy"@ + ": "@
                + "異常が連続したため中断しました"@,
    {
        match &self.abort {
            None => Ok(()),
            Some(Abort::Tilt(degrees)) => {
                let mut reason = "傾き ".to_owned();
                reason.append(degrees.as_str());
                reason.append("° — 脱力して中断しました");
                Err(context("policy", reason.as_str()))
            },
            Some(Abort::Faults) => Err(context("policy", "異常が連続したため中断しました")),
        }
    }

    /// The state after a row of events.
    pub open spec fn after(self, events: Seq<Event<T>>) -> PolicyRun<T>
        decreases events.len(),
    {
        if events.len() == 0 {
            self
        } else {
            self.after(events.drop_last()).next(events.last())
        }
    }

    /// Whether the counters have room for so many events.
    pub open spec fn has_room_for(self, events: int) -> bool {
        &&& self.sent + events <= MAX_FRAMES
        &&& self.hold ==> self.faults + events <= u32::MAX
    }

    /// How many of the events were inferences that the run had asked for.
    pub open spec fn inferences(self, events: Seq<Event<T>>) -> int
        decreases events.len(),
    {
        if events.len() == 0 {
            0
        } else {
            let before = self.after(events.drop_last());
            self.inferences(events.drop_last()) + if before.stage == Stage::Walk(Cycle::Infer)
                && events.last() is Inferred {
                1int
            } else {
                0int
            }
        }
    }
}

/// An event that an inference was clean, or no inference at all.
pub open spec fn not_unclean<T>(event: Event<T>) -> bool {
    event matches Event::Inferred(outcome) ==> is_clean(outcome)
}

/// An event that an inference was not clean, or no inference at all.
pub open spec fn not_clean<T>(event: Event<T>) -> bool {
    event matches Event::Inferred(outcome) ==> !is_clean(outcome)
}

/// An observation that is fresh and upright, or no observation at all.
pub open spec fn not_alarming<T>(event: Event<T>) -> bool {
    event matches Event::Observed { age_ns, tilt } ==> age_ns <= STALE_NS && tilt is None
}

/// An observation that is stale, or no observation at all.
pub open spec fn not_fresh<T>(event: Event<T>) -> bool {
    event matches Event::Observed { age_ns, .. } ==> age_ns > STALE_NS
}

/// One event keeps the invariant, and uses up at most one place of the counters.
proof fn lemma_next_is_valid<T>(run: PolicyRun<T>, event: Event<T>)
    requires
        run.valid(),
        run.has_room(),
    ensures
        run.next(event).valid(),
        run.sent <= run.next(event).sent <= run.sent + 1,
        run.cycles <= run.next(event).cycles <= run.cycles + 1,
        run.next(event).faults <= run.faults + 1,
        run.next(event).hold == run.hold,
{
}

/// Whatever happens, in whatever order, the invariant holds: the frames sent
/// are those that the stage accounts for, and the fault count stays bounded.
pub proof fn law_every_run_stays_valid<T>(run: PolicyRun<T>, events: Seq<Event<T>>)
    requires
        run.valid(),
        run.has_room_for(events.len() as int),
    ensures
        run.after(events).valid(),
        run.after(events).hold == run.hold,
        run.sent <= run.after(events).sent <= run.sent + events.len(),
        run.cycles <= run.after(events).cycles <= run.cycles + events.len(),
        run.after(events).faults <= run.faults + events.len(),
    decreases events.len(),
{
    if events.len() > 0 {
        law_every_run_stays_valid(run, events.drop_last());
        lemma_next_is_valid(run.after(events.drop_last()), events.last());
    }
}

/// Ten faulty inferences in a row end the walk: after ten that the run asked for
/// and that were not clean, it has been broken off.
pub proof fn law_ten_faults_in_a_row_end_the_walk<T>(run: PolicyRun<T>, events: Seq<Event<T>>)
    requires
        run.valid(),
        run.has_room_for(events.len() as int),
        forall|i: int| 0 <= i < events.len() ==> not_clean(#[trigger] events[i]),
        run.inferences(events) >= MAX_CONSECUTIVE_FAULTS,
    ensures
        run.after(events).abort is Some,
{
    lemma_faults_gather(run, events);
}

/// While no inference is clean, the faults are at least as many as the
/// inferences, and ten of them mean that the walk was broken off.
proof fn lemma_faults_gather<T>(run: PolicyRun<T>, events: Seq<Event<T>>)
    requires
        run.valid(),
        run.has_room_for(events.len() as int),
        forall|i: int| 0 <= i < events.len() ==> not_clean(#[trigger] events[i]),
    ensures
        run.after(events).faults >= run.inferences(events),
        run.inferences(events) >= MAX_CONSECUTIVE_FAULTS ==> run.after(events).abort is Some,
    decreases events.len(),
{
    if events.len() > 0 {
        let front = events.drop_last();
        assert forall|i: int| 0 <= i < front.len() implies not_clean(#[trigger] front[i]) by {
            assert(front[i] == events[i]);
        }
        lemma_faults_gather(run, front);
        law_every_run_stays_valid(run, front);
        assert(not_clean(events[events.len() - 1]));
    }
}

/// A faulty inference leaves the command in force: as long as none is clean, the
/// run holds what it held before.
pub proof fn law_faults_keep_the_command<T>(run: PolicyRun<T>, events: Seq<Event<T>>)
    requires
        run.valid(),
        run.held is Some,
        run.has_room_for(events.len() as int),
        forall|i: int| 0 <= i < events.len() ==> not_clean(#[trigger] events[i]),
    ensures
        run.after(events).held == run.held,
    decreases events.len(),
{
    if events.len() > 0 {
        let front = events.drop_last();
        assert forall|i: int| 0 <= i < front.len() implies not_clean(#[trigger] front[i]) by {
            assert(front[i] == events[i]);
        }
        law_faults_keep_the_command(run, front);
        law_every_run_stays_valid(run, front);
        assert(not_clean(events[events.len() - 1]));
    }
}

/// A clean inference on a fresh state forgives: whatever the count, it is zero
/// afterwards, and the run walks on with the new command.
pub proof fn law_a_clean_inference_forgives<T>(run: PolicyRun<T>, command: T)
    requires
        run.valid(),
        run.stage == Stage::Walk(Cycle::Infer),
        !run.stale,
    ensures
        run.next(Event::Inferred(Inference::Clean(command))).faults == 0,
        run.next(Event::Inferred(Inference::Clean(command))).held == Some(command),
        run.next(Event::Inferred(Inference::Clean(command))).stage == Stage::Walk(Cycle::Send),
        run.next(Event::Inferred(Inference::Clean(command))).abort is None,
{
}

/// A stale state is not forgiven: whatever the policy says to it, the command in
/// force stays and no fault is taken back, and ten faults end the walk there too.
pub proof fn law_a_stale_state_is_not_forgiven<T>(run: PolicyRun<T>, outcome: Inference<T>)
    requires
        run.valid(),
        run.stage == Stage::Walk(Cycle::Infer),
        run.stale,
    ensures
        run.next(Event::Inferred(outcome)).held == run.held,
        run.next(Event::Inferred(outcome)).faults >= run.faults,
        is_clean(outcome) ==> run.next(Event::Inferred(outcome)).faults == run.faults,
        run.faults >= MAX_CONSECUTIVE_FAULTS ==> run.next(Event::Inferred(outcome)).abort == Some(
            Abort::Faults,
        ),
{
}

/// Robot states that stay stale end the walk: where every observation is stale, the
/// run is broken off at its second inference at the latest, whatever the policy
/// says and wherever the run stood.
pub proof fn law_stale_states_end_the_walk<T>(run: PolicyRun<T>, events: Seq<Event<T>>)
    requires
        run.valid(),
        run.has_room_for(events.len() as int),
        forall|i: int| 0 <= i < events.len() ==> not_fresh(#[trigger] events[i]),
        run.inferences(events) >= 2,
    ensures
        run.after(events).abort is Some,
{
    lemma_stale_faults_gather(run, events);
}

/// Whether a run that has walked counts a fault for every cycle since its latest
/// inference.
spec fn gathered<T>(run: PolicyRun<T>) -> bool {
    match run.stage {
        Stage::Walk(Cycle::Begin) | Stage::Walk(Cycle::Observe) => run.faults >= (run.cycles + 9)
            % 10,
        Stage::Walk(Cycle::Infer) => run.faults >= 10 && run.stale,
        Stage::Walk(Cycle::Send) => run.faults >= run.cycles % 10,
        Stage::Ramp(_) | Stage::Settle(_) | Stage::Ready => false,
        Stage::Fold(_) | Stage::Lie(_) | Stage::Limp | Stage::Over => true,
    }
}

proof fn lemma_stale_step_gathers<T>(run: PolicyRun<T>, event: Event<T>)
    requires
        run.valid(),
        run.has_room(),
        gathered(run),
        not_fresh(event),
        run.stage != Stage::Walk(Cycle::Infer),
    ensures
        gathered(run.next(event)),
{
    let next = run.next(event);
    match (run.stage, event) {
        (Stage::Walk(Cycle::Observe), Event::Observed { age_ns, tilt }) => {
            assert(run.faults < u32::MAX);
            assert(next.faults == run.faults + 1 && next.stale);
            assert(run.cycles % 10 == 0 || (run.cycles + 9) % 10 == run.cycles % 10 - 1);
        },
        (Stage::Walk(Cycle::Send), Event::FrameSent) => {
            assert(next.cycles == run.cycles + 1);
            assert((run.cycles + 10) % 10 == run.cycles % 10);
        },
        _ => {},
    }
}

/// Since the first of the inferences, every cycle has added a fault.
proof fn lemma_stale_faults_gather<T>(run: PolicyRun<T>, events: Seq<Event<T>>)
    requires
        run.valid(),
        run.has_room_for(events.len() as int),
        forall|i: int| 0 <= i < events.len() ==> not_fresh(#[trigger] events[i]),
    ensures
        run.inferences(events) >= 0,
        run.inferences(events) >= 2 ==> run.after(events).abort is Some,
        run.inferences(events) == 1 ==> gathered(run.after(events)),
    decreases events.len(),
{
    if events.len() > 0 {
        let front = events.drop_last();
        assert forall|i: int| 0 <= i < front.len() implies not_fresh(#[trigger] front[i]) by {
            assert(front[i] == events[i]);
        }
        lemma_stale_faults_gather(run, front);
        law_every_run_stays_valid(run, front);
        assert(not_fresh(events[events.len() - 1]));
        let before = run.after(front);
        if run.inferences(front) == 1 && before.stage != Stage::Walk(Cycle::Infer) {
            lemma_stale_step_gathers(before, events.last());
        }
    }
}

/// A run without trouble is never broken off: fresh and upright observations and
/// clean inferences leave no fault and no abort.
pub proof fn law_no_trouble_no_abort<T>(run: PolicyRun<T>, events: Seq<Event<T>>)
    requires
        run.valid(),
        run.faults == 0,
        run.abort is None,
        run.has_room_for(events.len() as int),
        forall|i: int|
            0 <= i < events.len() ==> not_unclean(#[trigger] events[i]) && not_alarming(events[i]),
    ensures
        run.after(events).abort is None,
        run.after(events).faults == 0,
    decreases events.len(),
{
    if events.len() > 0 {
        let front = events.drop_last();
        assert forall|i: int| 0 <= i < front.len() implies not_unclean(#[trigger] front[i])
            && not_alarming(front[i]) by {
            assert(front[i] == events[i]);
        }
        law_no_trouble_no_abort(run, front);
        assert(not_unclean(events[events.len() - 1]) && not_alarming(events[events.len() - 1]));
    }
}

/// A tilt beyond the limit goes limp at once: the next order is the limp frame,
/// and no later order, whatever happens, holds the joints again.
pub proof fn law_tilt_goes_limp_at_once<T>(
    run: PolicyRun<T>,
    age_ns: u64,
    degrees: String,
    events: Seq<Event<T>>,
)
    requires
        run.valid(),
        run.stage == Stage::Walk(Cycle::Observe),
    ensures
        ({
            let limp = run.next(Event::Observed { age_ns, tilt: Some(degrees) });
            &&& order_of(limp.stage) == Order::LimpFrame
            &&& limp.abort == Some(Abort::Tilt(degrees))
            &&& !holds_joints(order_of(limp.after(events).stage))
            &&& limp.after(events).sent == run.sent
        }),
{
    lemma_limp_stays_limp(run.next(Event::Observed { age_ns, tilt: Some(degrees) }), events);
}

proof fn lemma_limp_stays_limp<T>(run: PolicyRun<T>, events: Seq<Event<T>>)
    requires
        run.stage == Stage::Limp || run.stage == Stage::Over,
    ensures
        run.after(events).stage == Stage::Limp || run.after(events).stage == Stage::Over,
        run.after(events).sent == run.sent,
    decreases events.len(),
{
    if events.len() > 0 {
        lemma_limp_stays_limp(run, events.drop_last());
    }
}

/// Every end but the tilt goes through the lying pose: a run that is over
/// without having tilted has sent the whole ramp to the lying pose and held it,
/// after the ramp to the default pose and one frame for each cycle walked.
pub proof fn law_every_other_end_lies_down<T>(run: PolicyRun<T>, events: Seq<Event<T>>)
    requires
        run.valid(),
        run.has_room_for(events.len() as int),
        run.after(events).stage == Stage::Limp || run.after(events).stage == Stage::Over,
        !run.after(events).tilted(),
    ensures
        run.after(events).sent == RAMP_TICKS + SETTLE_TICKS + run.after(events).cycles + FOLD_TICKS
            + LIE_TICKS,
{
    law_every_run_stays_valid(run, events);
}

/// The policy is asked once every ten cycles, and never while holding.
pub proof fn law_inference_every_tenth_cycle<T>(run: PolicyRun<T>, age_ns: u64)
    requires
        run.valid(),
        run.stage == Stage::Walk(Cycle::Observe),
    ensures
        order_of(run.next(Event::Observed { age_ns, tilt: None }).stage) == (if !run.hold
            && run.cycles % DECIMATION == 0 {
            Order::Infer
        } else {
            Order::WalkFrame
        }),
{
}

/// A run that only holds never asks for an inference.
pub proof fn law_holding_never_infers<T>(run: PolicyRun<T>, events: Seq<Event<T>>)
    requires
        run.valid(),
        run.hold,
        run.has_room_for(events.len() as int),
    ensures
        order_of(run.after(events).stage) != Order::Infer,
        run.inferences(events) == 0,
    decreases events.len(),
{
    law_every_run_stays_valid(run, events);
    if events.len() > 0 {
        law_holding_never_infers(run, events.drop_last());
    }
}

/// A walk can always be stopped: at the start of a cycle, the stop key or the
/// end of the run's time leads to the ramp to the lying pose.
pub proof fn law_stop_leads_to_lying_down<T>(run: PolicyRun<T>, quit: bool, time_up: bool)
    requires
        run.valid(),
        run.stage == Stage::Walk(Cycle::Begin),
        quit || time_up,
    ensures
        order_of(run.next(Event::CycleStart { quit, time_up }).stage) == (Order::FoldFrame {
            step: 0,
            steps: FOLD_TICKS,
        }),
        run.next(Event::CycleStart { quit, time_up }).abort is None,
{
}

/// A walk that is stopped in time lies down whole: from the start of a cycle with room
/// for it, a stop leads through the lying pose to the end without the counters ever
/// being full, whatever happens.
pub proof fn law_a_stopped_walk_has_room_to_lie_down<T>(
    run: PolicyRun<T>,
    quit: bool,
    time_up: bool,
    events: Seq<Event<T>>,
)
    requires
        run.valid(),
        run.stage == Stage::Walk(Cycle::Begin),
        run.can_lie_down(),
        quit || time_up,
    ensures
        run.next(Event::CycleStart { quit, time_up }).after(events).has_room(),
{
    lemma_lying_down_has_room(
        run.next(Event::CycleStart { quit, time_up }),
        events,
        run.sent as int,
        run.faults,
    );
}

/// A cycle that begins with room for it and for lying down leaves room for lying down:
/// at its end, and wherever it breaks off.
pub proof fn law_walking_on_keeps_room_to_lie_down<T>(run: PolicyRun<T>, event: Event<T>)
    requires
        run.valid(),
        run.stage is Walk,
        match run.stage {
            Stage::Walk(Cycle::Begin) | Stage::Walk(Cycle::Observe) => run.can_walk_on(),
            _ => run.sent + 1 + FOLD_TICKS + LIE_TICKS < MAX_FRAMES && run.can_lie_down(),
        },
    ensures
        ({
            let next = run.next(event);
            match next.stage {
                Stage::Walk(Cycle::Begin) => run.stage == Stage::Walk(Cycle::Begin)
                    || next.can_lie_down(),
                Stage::Walk(Cycle::Observe) => next.can_walk_on(),
                Stage::Walk(_) => next.sent + 1 + FOLD_TICKS + LIE_TICKS < MAX_FRAMES
                    && next.can_lie_down(),
                _ => next.can_lie_down(),
            }
        }),
{
}

/// From the ramp to the lying pose on, the frames are those that are still due, and no
/// fault is counted.
proof fn lemma_lying_down_has_room<T>(
    run: PolicyRun<T>,
    events: Seq<Event<T>>,
    walked: int,
    faults: u32,
)
    requires
        run.stage == Stage::Fold(0),
        run.sent == walked,
        run.faults == faults,
        walked + FOLD_TICKS + LIE_TICKS < MAX_FRAMES,
        run.hold ==> faults < u32::MAX,
    ensures
        run.after(events).has_room(),
        run.after(events).hold == run.hold,
        run.after(events).faults == faults,
        match run.after(events).stage {
            Stage::Fold(i) => i < FOLD_TICKS && run.after(events).sent == walked + i,
            Stage::Lie(i) => i < LIE_TICKS && run.after(events).sent == walked + FOLD_TICKS + i,
            Stage::Limp | Stage::Over => run.after(events).sent == walked + FOLD_TICKS + LIE_TICKS,
            _ => false,
        },
    decreases events.len(),
{
    if events.len() > 0 {
        lemma_lying_down_has_room(run, events.drop_last(), walked, faults);
    }
}

/// How many frames went out in a row of events.
pub open spec fn frames_in<T>(events: Seq<Event<T>>) -> int
    decreases events.len(),
{
    if events.len() == 0 {
        0
    } else {
        frames_in(events.drop_last()) + if events.last() is FrameSent {
            1int
        } else {
            0int
        }
    }
}

/// The ramp to the lying pose advances by one step per frame: behind the start of the
/// ramp, whatever else happens, the frame that follows `k` others is ordered as step
/// `k` of the ramp, from none of the way to one step before the end; then comes the
/// lying pose for as long as it is held, and then the limp frame.
pub proof fn law_the_ramp_to_lying_advances<T>(run: PolicyRun<T>, events: Seq<Event<T>>)
    requires
        run.stage == Stage::Fold(0),
        run.has_room_for(events.len() as int),
    ensures
        ({
            let k = frames_in(events);
            let order = order_of(run.after(events).stage);
            &&& 0 <= k <= events.len()
            &&& k < 1250 ==> order == (Order::FoldFrame { step: k as u64, steps: 1250 })
            &&& 1250 <= k < 1500 ==> order == Order::LieFrame
            &&& k >= 1500 ==> order == Order::LimpFrame || order == Order::Finish
            &&& run.after(events).sent == run.sent + if k < 1500 {
                k
            } else {
                1500
            }
        }),
    decreases events.len(),
{
    if events.len() > 0 {
        law_the_ramp_to_lying_advances(run, events.drop_last());
        let before = run.after(events.drop_last());
        let k = frames_in(events.drop_last());
        if k < 1250 {
            assert(before.stage == Stage::Fold(k as u64));
        } else if k < 1500 {
            lemma_lying_frames(run, events.drop_last());
        }
    }
}

/// While the lying pose is held, the stage counts its frames.
proof fn lemma_lying_frames<T>(run: PolicyRun<T>, events: Seq<Event<T>>)
    requires
        run.stage == Stage::Fold(0),
        run.has_room_for(events.len() as int),
    ensures
        0 <= frames_in(events) <= events.len(),
        frames_in(events) < 1250 ==> run.after(events).stage == Stage::Fold(
            frames_in(events) as u64,
        ),
        1250 <= frames_in(events) < 1500 ==> run.after(events).stage == Stage::Lie(
            (frames_in(events) - 1250) as u64,
        ),
        frames_in(events) >= 1500 ==> run.after(events).stage == Stage::Limp || run.after(
            events,
        ).stage == Stage::Over,
    decreases events.len(),
{
    if events.len() > 0 {
        lemma_lying_frames(run, events.drop_last());
    }
}

/// A walk that is stopped goes down the whole ramp: at the start of a cycle, a stop
/// that was asked for or the end of the run's time leads to the first step of the ramp
/// to the lying pose, and ten faults lead there as well.
pub proof fn law_a_stop_enters_the_ramp_at_its_start<T>(
    run: PolicyRun<T>,
    quit: bool,
    time_up: bool,
    events: Seq<Event<T>>,
)
    requires
        run.valid(),
        run.stage == Stage::Walk(Cycle::Begin),
        quit || time_up,
        run.has_room_for(events.len() as int),
        frames_in(events) < 1250,
    ensures
        order_of(run.next(Event::CycleStart { quit, time_up }).after(events).stage) == (
        Order::FoldFrame { step: frames_in(events) as u64, steps: 1250 }),
{
    law_the_ramp_to_lying_advances(run.next(Event::CycleStart { quit, time_up }), events);
}

/// Without a stop the walk goes on to look at the robot.
pub proof fn law_without_a_stop_the_walk_goes_on<T>(run: PolicyRun<T>)
    requires
        run.stage == Stage::Walk(Cycle::Begin),
    ensures
        ({
            let next = run.next(Event::CycleStart { quit: false, time_up: false });
            &&& order_of(next.stage) == Order::Observe
            &&& next == (PolicyRun { stage: next.stage, ..run })
        }),
{
}

/// The ramp to the default pose advances by one step per frame: from the start of a
/// run, the frame that follows `k` others is ordered as step `k` of the ramp; then the
/// default pose is held, and then the policy is entered.
pub proof fn law_the_ramp_to_the_default_pose_advances<T>(
    run: PolicyRun<T>,
    events: Seq<Event<T>>,
)
    requires
        run.stage == Stage::Ramp(0),
        run.has_room_for(events.len() as int),
        forall|i: int| 0 <= i < events.len() ==> !(#[trigger] events[i] is Entered),
    ensures
        ({
            let k = frames_in(events);
            let order = order_of(run.after(events).stage);
            &&& 0 <= k <= events.len()
            &&& k < 1500 ==> order == (Order::RampFrame { step: k as u64, steps: 1500 })
            &&& 1500 <= k < 1750 ==> order == Order::DefaultFrame
            &&& k >= 1750 ==> order == Order::Enter
            &&& run.after(events).sent == run.sent + if k < 1750 {
                k
            } else {
                1750
            }
        }),
{
    lemma_starting_frames(run, events);
}

proof fn lemma_starting_frames<T>(run: PolicyRun<T>, events: Seq<Event<T>>)
    requires
        run.stage == Stage::Ramp(0),
        run.has_room_for(events.len() as int),
        forall|i: int| 0 <= i < events.len() ==> !(#[trigger] events[i] is Entered),
    ensures
        0 <= frames_in(events) <= events.len(),
        frames_in(events) < 1500 ==> run.after(events).stage == Stage::Ramp(
            frames_in(events) as u64,
        ),
        1500 <= frames_in(events) < 1750 ==> run.after(events).stage == Stage::Settle(
            (frames_in(events) - 1500) as u64,
        ),
        frames_in(events) >= 1750 ==> run.after(events).stage == Stage::Ready,
        run.after(events).sent == run.sent + if frames_in(events) < 1750 {
            frames_in(events)
        } else {
            1750
        },
    decreases events.len(),
{
    if events.len() > 0 {
        let front = events.drop_last();
        assert forall|i: int| 0 <= i < front.len() implies !(#[trigger] front[i] is Entered) by {
            assert(front[i] == events[i]);
        }
        lemma_starting_frames(run, front);
        assert(!(events[events.len() - 1] is Entered));
    }
}

/// The walk begins with the command that the policy holds when it is entered, at a
/// fresh cycle count.
pub proof fn law_the_walk_begins_with_the_policys_command<T>(run: PolicyRun<T>, command: T)
    requires
        run.valid(),
        run.stage == Stage::Ready,
    ensures
        order_of(run.stage) == Order::Enter,
        ({
            let next = run.next(Event::Entered(command));
            &&& order_of(next.stage) == Order::CheckStop
            &&& next.held == Some(command)
            &&& next.cycles == 0 && next.faults == 0 && next.sent == run.sent && next.hold
                == run.hold
        }),
{
}

/// One whole cycle, from one look at the stop key to the next: it sends exactly one
/// frame, asks the policy exactly where the cycle count is a multiple of ten and the
/// pose is not just held, and ends with the policy's new command where that was clean
/// and the state fresh.
pub proof fn law_one_cycle_sends_one_frame<T>(
    run: PolicyRun<T>,
    age_ns: u64,
    outcome: Inference<T>,
)
    requires
        run.valid(),
        run.has_room(),
        run.stage == Stage::Walk(Cycle::Begin),
        run.faults < 8,
    ensures
        ({
            let seen = run.next(Event::CycleStart { quit: false, time_up: false }).next(
                Event::Observed { age_ns, tilt: None },
            );
            let asked = !run.hold && run.cycles % 10 == 0;
            let ready = if asked {
                seen.next(Event::Inferred(outcome))
            } else {
                seen
            };
            let done = ready.next(Event::FrameSent);
            &&& order_of(seen.stage) == if asked {
                Order::Infer
            } else {
                Order::WalkFrame
            }
            &&& order_of(ready.stage) == Order::WalkFrame
            &&& order_of(done.stage) == Order::CheckStop
            &&& done.sent == run.sent + 1
            &&& done.cycles == run.cycles + 1
            &&& done.abort is None
            &&& done.held == (match outcome {
                Inference::Clean(command) => if asked && age_ns <= 20_000_000 {
                    Some(command)
                } else {
                    run.held
                },
                _ => run.held,
            })
        }),
{
}

/// Faults are counted one by one: a state older than 20 ms adds one, a fresh one none;
/// an inference that is not clean adds one, a clean one on a fresh state takes all
/// back, and a clean one on a stale state leaves them.
pub proof fn law_faults_are_counted_one_by_one<T>(
    run: PolicyRun<T>,
    age_ns: u64,
    tilt: Option<String>,
    outcome: Inference<T>,
)
    requires
        run.valid(),
        run.has_room(),
    ensures
        run.stage == Stage::Walk(Cycle::Observe) ==> run.next(
            Event::Observed { age_ns, tilt },
        ).faults == run.faults + if age_ns > 20_000_000 {
            1int
        } else {
            0int
        },
        run.stage == Stage::Walk(Cycle::Infer) ==> run.next(Event::Inferred(outcome)).faults == (
        match outcome {
            Inference::Clean(_) => if run.stale {
                run.faults as int
            } else {
                0int
            },
            _ => run.faults + 1,
        }),
{
}

/// An inference ends the walk exactly where the faults have reached ten, and then with
/// the ramp to the lying pose from its start.
pub proof fn law_the_tenth_fault_ends_the_walk<T>(run: PolicyRun<T>, outcome: Inference<T>)
    requires
        run.valid(),
        run.stage == Stage::Walk(Cycle::Infer),
    ensures
        ({
            let next = run.next(Event::Inferred(outcome));
            &&& next.faults >= 10 <==> next.abort == Some(Abort::Faults)
            &&& next.faults >= 10 ==> order_of(next.stage) == (Order::FoldFrame {
                step: 0,
                steps: 1250,
            })
            &&& next.faults < 10 ==> order_of(next.stage) == Order::WalkFrame && next.abort is None
        }),
{
}

/// Only the policy changes the command in force: an event that neither enters the walk
/// nor brings a clean inference to a fresh state leaves it.
pub proof fn law_only_the_policy_changes_the_command<T>(run: PolicyRun<T>, event: Event<T>)
    ensures
        match event {
            Event::Entered(command) => run.next(event).held == (if run.stage == Stage::Ready {
                Some(command)
            } else {
                run.held
            }),
            Event::Inferred(Inference::Clean(command)) => run.next(event).held == (if run.stage
                == Stage::Walk(Cycle::Infer) && !run.stale {
                Some(command)
            } else {
                run.held
            }),
            _ => run.valid() ==> run.next(event).held == run.held,
        },
{
}

/// Every frame that holds the joints is counted, and nothing else is.
pub proof fn law_every_frame_is_counted<T>(run: PolicyRun<T>, event: Event<T>)
    requires
        run.valid(),
        run.has_room(),
    ensures
        run.next(event).sent == run.sent + if event is FrameSent && (run.stage is Ramp
            || run.stage is Settle || run.stage == Stage::Walk(Cycle::Send) || run.stage is Fold
            || run.stage is Lie) {
            1int
        } else {
            0int
        },
        run.next(event).cycles == run.cycles + if event is FrameSent && run.stage == Stage::Walk(
            Cycle::Send,
        ) {
            1int
        } else {
            0int
        },
        run.next(event).hold == run.hold,
{
}

/// What a run waits for and what it asks for belong together: an event that answers
/// another order than the present one changes nothing.
pub proof fn law_only_the_awaited_event_counts<T>(run: PolicyRun<T>, event: Event<T>)
    requires
        match order_of(run.stage) {
            Order::RampFrame { .. } | Order::DefaultFrame | Order::WalkFrame | Order::FoldFrame {
                ..
            } | Order::LieFrame => !(event is FrameSent),
            Order::Enter => !(event is Entered),
            Order::CheckStop => !(event is CycleStart),
            Order::Observe => !(event is Observed),
            Order::Infer => !(event is Inferred),
            Order::LimpFrame => !(event is LimpSent),
            Order::Finish => true,
        },
    ensures
        run.next(event) == run,
{
}

/// Each stage asks for its own work.
pub proof fn law_each_stage_asks_for_its_own_work(i: u64)
    ensures
        order_of(Stage::Ramp(i)) == (Order::RampFrame { step: i, steps: 1500 }),
        order_of(Stage::Settle(i)) == Order::DefaultFrame,
        order_of(Stage::Ready) == Order::Enter,
        order_of(Stage::Walk(Cycle::Begin)) == Order::CheckStop,
        order_of(Stage::Walk(Cycle::Observe)) == Order::Observe,
        order_of(Stage::Walk(Cycle::Infer)) == Order::Infer,
        order_of(Stage::Walk(Cycle::Send)) == Order::WalkFrame,
        order_of(Stage::Fold(i)) == (Order::FoldFrame { step: i, steps: 1250 }),
        order_of(Stage::Lie(i)) == Order::LieFrame,
        order_of(Stage::Limp) == Order::LimpFrame,
        order_of(Stage::Over) == Order::Finish,
{
}

/// The limp frame is the last: once it went out the run is over, and stays so.
pub proof fn law_limp_is_the_end<T>(run: PolicyRun<T>, events: Seq<Event<T>>)
    requires
        run.stage == Stage::Limp,
    ensures
        order_of(run.stage) == Order::LimpFrame,
        order_of(run.next(Event::LimpSent).after(events).stage) == Order::Finish,
        run.next(Event::LimpSent).after(events).abort == run.abort,
    decreases events.len(),
{
    if events.len() > 0 {
        law_limp_is_the_end(run, events.drop_last());
        lemma_over_stays_over(run.next(Event::LimpSent), events.drop_last());
    }
}

proof fn lemma_over_stays_over<T>(run: PolicyRun<T>, events: Seq<Event<T>>)
    requires
        run.stage == Stage::Over,
    ensures
        run.after(events) == run,
    decreases events.len(),
{
    if events.len() > 0 {
        lemma_over_stays_over(run, events.drop_last());
    }
}

/// A reason for breaking off is given once: by a tilt, or by an inference that counts
/// the tenth fault; otherwise the reason stays as it is.
pub proof fn law_reasons_are_given_once<T>(run: PolicyRun<T>, event: Event<T>)
    requires
        run.valid(),
        run.has_room(),
    ensures
        run.abort is Some ==> run.next(event).abort == run.abort,
        run.abort is None && run.next(event).abort is Some ==> {
            ||| run.stage == Stage::Walk(Cycle::Observe) && (event matches Event::Observed {
                tilt: Some(degrees),
                ..
            } && run.next(event).abort == Some(Abort::Tilt(degrees)))
            ||| run.stage == Stage::Walk(Cycle::Infer) && event is Inferred && run.next(event).faults
                >= 10 && run.next(event).abort == Some(Abort::Faults)
        },
{
}

/// A command is taken exactly where the screen found nothing, and it is the command
/// that the policy gave; one anomaly is enough to refuse it.
pub proof fn law_one_anomaly_is_enough<T>(command: T, anomalies: usize)
    ensures
        is_clean(judged(command, anomalies)) <==> anomalies == 0,
        anomalies == 0 ==> judged(command, anomalies) == Inference::Clean(command),
        anomalies >= 1 ==> judged(command, anomalies) == Inference::<T>::Anomalous,
{
}

/// The frames are due every 2 ms, counted from the start: who sleeps as told wakes up
/// when the frame is due, whenever the sleep began, and nobody sleeps past that. So a
/// late frame does not delay the next ones.
pub proof fn law_frames_are_due_by_the_clock(frames: int, elapsed_ns: u64, later_ns: u64)
    requires
        0 <= frames <= MAX_FRAMES,
    ensures
        pause_after_frames(frames, elapsed_ns) matches Some(pause) ==> elapsed_ns + pause == frames
            * 2_000_000,
        pause_after_frames(frames, elapsed_ns) is None <==> elapsed_ns > frames * 2_000_000,
        pause_after_frames(frames, elapsed_ns) matches Some(pause) ==> (pause_after_frames(
            frames,
            later_ns,
        ) matches Some(rest) ==> elapsed_ns + pause == later_ns + rest),
        pause_after_frames(frames, elapsed_ns) matches Some(pause) ==> (pause_after_frames(
            frames + 1,
            elapsed_ns,
        ) matches Some(next) ==> frames < MAX_FRAMES ==> next == pause + 2_000_000),
{
}

/// There is room for another cycle exactly where there is still room to lie down after
/// it: the walk is stopped neither too late nor a cycle too early.
pub proof fn law_running_out_is_told_in_time<T>(run: PolicyRun<T>)
    requires
        !run.hold,
    ensures
        run.can_walk_on() <==> (PolicyRun { sent: (run.sent + 1) as u64, ..run }).can_lie_down()
            && run.sent < MAX_FRAMES,
        run.can_lie_down() <==> run.sent + 1500 < MAX_FRAMES,
        run.has_room() <==> run.sent < MAX_FRAMES,
{
}

} // verus!
