//! The robot as a plant: what was last heard from it, what it is being told,
//! and what the layers above see of it.
//!
//! Reading and writing the bus is the caller's. The caller hands in the states
//! that it read and sends out the motor frame that stands in [`Go2Plant`].

use vstd::prelude::*;
use crate::joints::{misa_to_go2_order, reordered, MISA_LEG_TO_GO2_FOOT, MISA_TO_GO2};
use crate::motors::{accepted, fill_motors, fills, limp, limp_frame, motor_cmd_of, raw_frame, velocity_refused, AxisCommand, Levels, MotorCmd, PositionGains};

verus! {

/// A foot force above this means contact.
pub const CONTACT_THRESHOLD: i16 = 20;

/// How long to wait for the first state (5 s).
pub const STATE_WAIT_NS: u64 = 5_000_000_000;

/// What the robot reports, joints in Go2 motor order and feet in Go2 order.
#[derive(Clone, Copy)]
pub struct LowState<N> {
    pub quaternion: [N; 4],
    pub rpy: [N; 3],
    pub gyroscope: [N; 3],
    pub accelerometer: [N; 3],
    pub q: [N; 12],
    pub dq: [N; 12],
    pub foot_force: [i16; 4],
}

/// Whether a leg (in misa order) stands, by the force under its own foot.
pub open spec fn foot_is_down(foot_force: Seq<i16>, leg: int) -> bool {
    foot_force[MISA_LEG_TO_GO2_FOOT@[leg] as int] > CONTACT_THRESHOLD
}

/// Which legs stand, in misa order, by the force under their own foot.
pub fn feet_down(foot_force: &[i16; 4]) -> (contacts: [bool; 4])
    ensures
        forall|leg: int|
            0 <= leg < 4 ==> #[trigger] contacts@[leg] == foot_is_down(foot_force@, leg),
        forall|leg: int|
            0 <= leg < 4 ==> #[trigger] contacts@[leg] == (foot_force@[MISA_LEG_TO_GO2_FOOT@[leg] as int]
                > CONTACT_THRESHOLD),
{
    let mut contacts = [false; 4];
    for leg in 0..4usize
        invariant
            forall|l: int|
                0 <= l < leg ==> #[trigger] contacts@[l] == (foot_force@[MISA_LEG_TO_GO2_FOOT@[l] as int]
                    > CONTACT_THRESHOLD),
    {
        contacts[leg] = foot_force[MISA_LEG_TO_GO2_FOOT[leg]] > CONTACT_THRESHOLD;
    }
    contacts
}

/// Which legs stand where the gait plans the swing: those that do not swing.
pub fn planned_stance(swing: [bool; 4]) -> (stance: [bool; 4])
    ensures
        forall|leg: int| 0 <= leg < 4 ==> #[trigger] stance@[leg] == !swing@[leg],
{
    [!swing[0], !swing[1], !swing[2], !swing[3]]
}

/// Whether the feet report no force at all, as on a robot without force sensors.
pub open spec fn feet_are_mute(foot_force: Seq<i16>) -> bool {
    forall|foot: int| 0 <= foot < 4 ==> #[trigger] foot_force[foot] == 0
}

/// Whether a leg stands on the robot: by plan, by the force under its foot, or because
/// the feet tell nothing.
pub open spec fn leg_stands(swing: Option<[bool; 4]>, foot_force: Seq<i16>, leg: int) -> bool {
    match swing {
        Some(sw) => !sw@[leg],
        None => feet_are_mute(foot_force) || foot_is_down(foot_force, leg),
    }
}

/// Which legs stand on the robot: by plan where the policy has one, else by the
/// force under the feet. Where the feet report no force at all, all legs count as
/// standing.
pub fn robot_stance(swing: Option<[bool; 4]>, foot_force: &[i16; 4]) -> (stance: [bool; 4])
    ensures
        forall|leg: int|
            0 <= leg < 4 ==> #[trigger] stance@[leg] == leg_stands(swing, foot_force@, leg),
        forall|leg: int|
            0 <= leg < 4 ==> #[trigger] stance@[leg] == match swing {
                Some(sw) => !sw@[leg],
                None => feet_are_mute(foot_force@)
                    || foot_force@[MISA_LEG_TO_GO2_FOOT@[leg] as int] > CONTACT_THRESHOLD,
            },
{
    match swing {
        Some(sw) => planned_stance(sw),
        None => if foot_force[0] == 0 && foot_force[1] == 0 && foot_force[2] == 0 && foot_force[3]
            == 0 {
            [true; 4]
        } else {
            feet_down(foot_force)
        },
    }
}

/// What one axis reports.
#[derive(Clone, Copy)]
pub struct AxisState<N> {
    pub position_rad: N,
    pub velocity_rad_s: N,
    /// The robot does not report torque.
    pub torque_nm: Option<N>,
    pub valid: bool,
    pub age_ns: u64,
    pub fault_raw: u32,
    pub temperature_c: Option<N>,
    pub voltage_v: Option<N>,
}

/// What the inertial sensor reports.
#[derive(Clone, Copy)]
pub struct Imu<N> {
    pub rpy_rad: [N; 3],
    pub gyro_rad_s: [N; 3],
    pub accel_m_s2: [N; 3],
    pub age_ns: u64,
}

/// What the layers above see, in misa order.
#[derive(Clone, Copy)]
pub struct Observation<N> {
    pub axes: [AxisState<N>; 12],
    pub imu: Imu<N>,
    pub contacts: [bool; 4],
}

/// How an axis with this angle and rate is reported.
pub open spec fn axis_state_of<N>(q: N, dq: N, age_ns: u64) -> AxisState<N> {
    AxisState {
        position_rad: q,
        velocity_rad_s: dq,
        torque_nm: None,
        valid: true,
        age_ns,
        fault_raw: 0,
        temperature_c: None,
        voltage_v: None,
    }
}

/// Whether an observation shows a state of the given age.
pub open spec fn shows<N>(obs: Observation<N>, s: LowState<N>, age_ns: u64) -> bool {
    &&& forall|i: int|
        0 <= i < 12 ==> #[trigger] obs.axes@[i] == axis_state_of(
            s.q@[MISA_TO_GO2@[i] as int],
            s.dq@[MISA_TO_GO2@[i] as int],
            age_ns,
        )
    &&& obs.imu == (Imu {
        rpy_rad: s.rpy,
        gyro_rad_s: s.gyroscope,
        accel_m_s2: s.accelerometer,
        age_ns,
    })
    &&& forall|leg: int|
        0 <= leg < 4 ==> #[trigger] obs.contacts@[leg] == (s.foot_force@[MISA_LEG_TO_GO2_FOOT@[leg] as int]
            > CONTACT_THRESHOLD)
}

/// What a policy sees: attitude, rates and acceleration, and the joints in Go2
/// motor order.
#[derive(Clone, Copy)]
pub struct ObsInput<N> {
    pub quat_wxyz: [N; 4],
    pub gyro_rad_s: [N; 3],
    pub accel_m_s2: [N; 3],
    pub joint_q_go2: [N; 12],
    pub joint_dq_go2: [N; 12],
}

/// What a policy sees of the robot's own report.
pub open spec fn input_of<N>(s: LowState<N>) -> ObsInput<N> {
    ObsInput {
        quat_wxyz: s.quaternion,
        gyro_rad_s: s.gyroscope,
        accel_m_s2: s.accelerometer,
        joint_q_go2: s.q,
        joint_dq_go2: s.dq,
    }
}

/// What a policy sees of the robot's own report.
pub fn obs_input_from<N: Copy>(s: &LowState<N>) -> (inp: ObsInput<N>)
    ensures
        inp == input_of(*s),
        inp == (ObsInput {
            quat_wxyz: s.quaternion,
            gyro_rad_s: s.gyroscope,
            accel_m_s2: s.accelerometer,
            joint_q_go2: s.q,
            joint_dq_go2: s.dq,
        }),
{
    ObsInput {
        quat_wxyz: s.quaternion,
        gyro_rad_s: s.gyroscope,
        accel_m_s2: s.accelerometer,
        joint_q_go2: s.q,
        joint_dq_go2: s.dq,
    }
}

/// What a policy sees of the simulator, whose joints come in misa order.
pub fn obs_input_from_axes<N: Copy>(
    quat_wxyz: [N; 4],
    gyro_rad_s: [N; 3],
    accel_m_s2: [N; 3],
    q_misa: &[N; 12],
    dq_misa: &[N; 12],
) -> (inp: ObsInput<N>)
    ensures
        inp.quat_wxyz == quat_wxyz,
        inp.gyro_rad_s == gyro_rad_s,
        inp.accel_m_s2 == accel_m_s2,
        reordered(MISA_TO_GO2@, q_misa@, inp.joint_q_go2@),
        reordered(MISA_TO_GO2@, dq_misa@, inp.joint_dq_go2@),
{
    ObsInput {
        quat_wxyz,
        gyro_rad_s,
        accel_m_s2,
        joint_q_go2: misa_to_go2_order(q_misa),
        joint_dq_go2: misa_to_go2_order(dq_misa),
    }
}

/// What to do while the first state is awaited.
#[derive(Clone, Copy, PartialEq, Eq, Structural, Debug)]
pub enum Awaiting {
    /// A state came.
    Connected,
    /// Nothing came in time.
    TimedOut,
    /// Look again shortly.
    Wait,
}

/// What to do after a look at the bus, `waited_ns` into the wait.
pub open spec fn awaited(received: bool, waited_ns: u64) -> Awaiting {
    if received {
        Awaiting::Connected
    } else if waited_ns >= STATE_WAIT_NS {
        Awaiting::TimedOut
    } else {
        Awaiting::Wait
    }
}

/// Decides, after a look at the bus, whether to go on waiting for the first
/// state. A state that came wins over the clock.
pub fn await_state(received: bool, waited_ns: u64) -> (next: Awaiting)
    ensures
        next == awaited(received, waited_ns),
        next == (if received {
            Awaiting::Connected
        } else if waited_ns >= STATE_WAIT_NS {
            Awaiting::TimedOut
        } else {
            Awaiting::Wait
        }),
{
    if received {
        Awaiting::Connected
    } else if waited_ns >= STATE_WAIT_NS {
        Awaiting::TimedOut
    } else {
        Awaiting::Wait
    }
}

/// The error of a robot that stays silent; `retryable` is the mark of errors
/// that are worth another try.
pub fn silent_robot(retryable: &str) -> (text: String)
    ensures
        text@ == retryable@ + "LowState が届きません（iface / 192.168.123.x / 配線を確認）"@,
{
    let mut text = retryable.to_owned();
    text.append("LowState が届きません（iface / 192.168.123.x / 配線を確認）");
    text
}

/// What is known after a row of states was read, oldest first: the latest of them.
pub open spec fn latest<N>(before: Option<LowState<N>>, states: Seq<(LowState<N>, u64)>) -> Option<
    LowState<N>,
> {
    if states.len() > 0 {
        Some(states.last().0)
    } else {
        before
    }
}

/// How old a state that was read at `at_ns` is.
pub open spec fn age_at(at_ns: u64, now_ns: u64) -> u64 {
    if now_ns >= at_ns {
        (now_ns - at_ns) as u64
    } else {
        0
    }
}

/// The robot: what was last heard from it and what it is being told.
pub struct Go2Plant<N> {
    /// The gains of position control.
    pub gains: PositionGains<N>,
    pub levels: Levels<N>,
    /// The motor frame that is sent, in Go2 motor order.
    pub motors: [MotorCmd<N>; 12],
    /// The latest state, and when it was read.
    pub last: Option<LowState<N>>,
    pub last_at_ns: u64,
    pub armed: bool,
}

impl<N: Copy> Go2Plant<N> {
    /// A robot that has not been heard from, disarmed.
    pub fn connect(
        gains: PositionGains<N>,
        levels: Levels<N>,
        motors: [MotorCmd<N>; 12],
        now_ns: u64,
    ) -> (plant: Self)
        ensures
            plant == (Go2Plant {
                gains,
                levels,
                motors,
                last: None,
                last_at_ns: now_ns,
                armed: false,
            }),
    {
        Go2Plant { gains, levels, motors, last: None, last_at_ns: now_ns, armed: false }
    }

    /// Takes in the states that were read, oldest first, each with its time. Only
    /// the latest is kept. Says whether there was one.
    pub fn poll_state(&mut self, states: &Vec<(LowState<N>, u64)>) -> (received: bool)
        ensures
            received == (states.len() > 0),
            final(self).last == latest(old(self).last, states@),
            final(self).last == (if states.len() > 0 {
                Some(states@.last().0)
            } else {
                old(self).last
            }),
            final(self).last_at_ns == (if states.len() > 0 {
                states@.last().1
            } else {
                old(self).last_at_ns
            }),
            final(self).gains == old(self).gains,
            final(self).levels == old(self).levels,
            final(self).motors == old(self).motors,
            final(self).armed == old(self).armed,
    {
        if states.len() == 0 {
            return false;
        }
        let (state, at_ns) = states[states.len() - 1];
        self.last = Some(state);
        self.last_at_ns = at_ns;
        true
    }

    /// The latest state.
    pub fn last_state(&self) -> (state: Option<LowState<N>>)
        ensures
            state == self.last,
    {
        self.last
    }

    /// How old the latest state is; before the first one, how long it has been
    /// awaited.
    pub fn state_age(&self, now_ns: u64) -> (age_ns: u64)
        ensures
            age_ns == age_at(self.last_at_ns, now_ns),
            age_ns == (if now_ns >= self.last_at_ns {
                now_ns - self.last_at_ns
            } else {
                0
            }),
    {
        if now_ns >= self.last_at_ns {
            now_ns - self.last_at_ns
        } else {
            0
        }
    }

    /// Makes all motors limp.
    pub fn send_limp(&mut self)
        ensures
            forall|j: int|
                0 <= j < 12 ==> #[trigger] final(self).motors@[j] == limp(old(self).levels.zero),
            *final(self) == (Go2Plant { motors: final(self).motors, ..*old(self) }),
    {
        self.motors = limp_frame(self.levels.zero);
    }

    /// Commands the motors directly, in Go2 motor order.
    pub fn send_raw(
        &mut self,
        q: &[N; 12],
        dq: &[N; 12],
        kp: &[N; 12],
        kd: &[N; 12],
        tau: &[N; 12],
    )
        ensures
            forall|j: int|
                0 <= j < 12 ==> #[trigger] final(self).motors@[j] == (MotorCmd {
                    q: q@[j],
                    dq: dq@[j],
                    kp: kp@[j],
                    kd: kd@[j],
                    tau: tau@[j],
                }),
            *final(self) == (Go2Plant { motors: final(self).motors, ..*old(self) }),
    {
        self.motors = raw_frame(q, dq, kp, kd, tau);
    }

    /// Commands the motors with a frame that is already made.
    pub fn send_frame(&mut self, motors: [MotorCmd<N>; 12])
        ensures
            *final(self) == (Go2Plant { motors, ..*old(self) }),
    {
        self.motors = motors;
    }

    /// Arms the robot.
    pub fn arm(&mut self)
        ensures
            *final(self) == (Go2Plant { armed: true, ..*old(self) }),
    {
        self.armed = true;
    }

    /// Disarms the robot and makes all motors limp.
    pub fn disarm(&mut self)
        ensures
            !final(self).armed,
            forall|j: int|
                0 <= j < 12 ==> #[trigger] final(self).motors@[j] == limp(old(self).levels.zero),
            *final(self) == (Go2Plant { armed: false, motors: final(self).motors, ..*old(self) }),
    {
        self.armed = false;
        self.send_limp();
    }

    /// Puts axis commands (in misa order) into the motor frame. The frame may be
    /// sent only where this succeeds; it fails exactly on a rate command.
    pub fn exchange(&mut self, commands: &Vec<AxisCommand<N>>) -> (result: Result<(), String>)
        requires
            commands.len() <= 12,
        ensures
            fills(
                old(self).motors@,
                commands@,
                old(self).gains,
                old(self).levels,
                final(self).motors@,
            ),
            result is Ok <==> accepted(commands@) == commands.len(),
            result matches Err(text) ==> text@ == velocity_refused(),
            0 <= accepted(commands@) <= commands.len(),
            forall|i: int|
                0 <= i < accepted(commands@) ==> Some(
                    final(self).motors@[#[trigger] MISA_TO_GO2@[i] as int],
                ) == motor_cmd_of(commands@[i], i % 3, old(self).gains, old(self).levels),
            forall|i: int|
                accepted(commands@) <= i < 12 ==> final(self).motors@[#[trigger] MISA_TO_GO2@[i] as int]
                    == old(self).motors@[MISA_TO_GO2@[i] as int],
            *final(self) == (Go2Plant { motors: final(self).motors, ..*old(self) }),
    {
        let gains = self.gains;
        let levels = self.levels;
        fill_motors(&mut self.motors, commands, &gains, &levels)
    }

    /// What the layers above see of the latest state; nothing before the first.
    pub fn fill_observation(&self, now_ns: u64) -> (obs: Option<Observation<N>>)
        ensures
            obs is Some <==> self.last is Some,
            self.last matches Some(s) ==> shows(obs->0, s, age_at(self.last_at_ns, now_ns)),
            match (self.last, obs) {
                (None, None) => true,
                (Some(s), Some(o)) => shows(
                    o,
                    s,
                    (if now_ns >= self.last_at_ns {
                        (now_ns - self.last_at_ns) as u64
                    } else {
                        0
                    }),
                ),
                _ => false,
            },
    {
        match self.last {
            None => None,
            Some(s) => {
                let age_ns: u64 = self.state_age(now_ns);
                let first = AxisState {
                    position_rad: s.q[0],
                    velocity_rad_s: s.dq[0],
                    torque_nm: None,
                    valid: true,
                    age_ns,
                    fault_raw: 0,
                    temperature_c: None,
                    voltage_v: None,
                };
                let mut axes = [first; 12];
                for i in 0..12usize
                    invariant
                        first == axis_state_of(s.q@[0], s.dq@[0], age_ns),
                        forall|k: int|
                            0 <= k < i ==> #[trigger] axes@[k] == axis_state_of(
                                s.q@[MISA_TO_GO2@[k] as int],
                                s.dq@[MISA_TO_GO2@[k] as int],
                                age_ns,
                            ),
                {
                    let g: usize = MISA_TO_GO2[i];
                    axes[i] = AxisState { position_rad: s.q[g], velocity_rad_s: s.dq[g], ..first };
                }
                let imu = Imu {
                    rpy_rad: s.rpy,
                    gyro_rad_s: s.gyroscope,
                    accel_m_s2: s.accelerometer,
                    age_ns,
                };
                Some(Observation { axes, imu, contacts: feet_down(&s.foot_force) })
            },
        }
    }
}

/// A rate command is never among the accepted ones, and neither is any command
/// behind it.
pub proof fn law_rate_commands_are_refused<N>(
    commands: Seq<AxisCommand<N>>,
    i: int,
)
    requires
        0 <= i < commands.len(),
        commands[i].mode == crate::motors::ControlMode::Velocity,
    ensures
        accepted(commands) <= i,
    decreases commands.len(),
{
    if i < commands.len() - 1 {
        law_rate_commands_are_refused(commands.drop_last(), i);
    } else {
        lemma_accepted_bound(commands.drop_last());
    }
}

proof fn lemma_accepted_bound<N>(commands: Seq<AxisCommand<N>>)
    ensures
        0 <= accepted(commands) <= commands.len(),
    decreases commands.len(),
{
    if commands.len() > 0 {
        lemma_accepted_bound(commands.drop_last());
    }
}

/// An observation shows each axis its own motor: the axis of a leg and a kind reports
/// the angle and the rate of that motor, as valid, of the state's age, without a fault
/// and without what the robot does not measure.
pub proof fn law_each_axis_shows_its_own_motor<N>(
    obs: Observation<N>,
    s: LowState<N>,
    age_ns: u64,
    leg: int,
    kind: int,
)
    requires
        shows(obs, s, age_ns),
        0 <= leg < 4,
        0 <= kind < 3,
    ensures
        ({
            let axis = obs.axes@[3 * leg + kind];
            let motor = 3 * MISA_LEG_TO_GO2_FOOT@[leg] + kind;
            &&& axis.position_rad == s.q@[motor]
            &&& axis.velocity_rad_s == s.dq@[motor]
            &&& axis.age_ns == age_ns
            &&& axis.valid
            &&& axis.fault_raw == 0
            &&& axis.torque_nm is None && axis.temperature_c is None && axis.voltage_v is None
        }),
        obs.imu.rpy_rad == s.rpy,
        obs.imu.gyro_rad_s == s.gyroscope,
        obs.imu.accel_m_s2 == s.accelerometer,
        obs.imu.age_ns == age_ns,
        obs.contacts@[leg] == (s.foot_force@[MISA_LEG_TO_GO2_FOOT@[leg] as int] > 20),
{
    crate::joints::law_misa_table_is_the_documented_one(leg, kind);
    let i = 3 * leg + kind;
    assert(obs.axes@[i] == obs.axes@[i]);
    assert(obs.contacts@[leg] == obs.contacts@[leg]);
}

/// What is commanded to an axis and what that axis reports concern the same motor: a
/// robot that reports the angles that its motors were sent is seen at the angles that
/// were commanded.
pub proof fn law_commands_and_reports_share_their_motor<N>(
    commands: Seq<AxisCommand<N>>,
    motors: Seq<MotorCmd<N>>,
    gains: PositionGains<N>,
    levels: Levels<N>,
    obs: Observation<N>,
    s: LowState<N>,
    age_ns: u64,
    i: int,
)
    requires
        0 <= i < 12,
        commands.len() == 12,
        commands[i].mode == crate::motors::ControlMode::Position || commands[i].mode
            == crate::motors::ControlMode::Impedance,
        Some(motors[MISA_TO_GO2@[i] as int]) == motor_cmd_of(commands[i], i % 3, gains, levels),
        forall|g: int| 0 <= g < 12 ==> #[trigger] s.q@[g] == motors[g].q,
        shows(obs, s, age_ns),
    ensures
        obs.axes@[i].position_rad == commands[i].position_rad,
{
    assert(0 <= MISA_TO_GO2@[i] < 12);
    assert(obs.axes@[i] == obs.axes@[i]);
    assert(s.q@[MISA_TO_GO2@[i] as int] == motors[MISA_TO_GO2@[i] as int].q);
}

/// Feet are mute exactly where none of the four reports a force.
pub proof fn law_mute_feet_report_nothing(foot_force: Seq<i16>)
    requires
        foot_force.len() == 4,
    ensures
        feet_are_mute(foot_force) <==> foot_force[0] == 0 && foot_force[1] == 0 && foot_force[2]
            == 0 && foot_force[3] == 0,
{
}

/// A leg stands exactly where its own foot, the one on the other side in the robot's
/// order, is pressed with more than 20; the other feet have no say.
pub proof fn law_a_leg_stands_by_its_own_foot(force: Seq<i16>, other: Seq<i16>, leg: int)
    requires
        0 <= leg < 4,
    ensures
        ({
            let own = if leg % 2 == 0 {
                leg + 1
            } else {
                leg - 1
            };
            &&& foot_is_down(force, leg) <==> force[own] > 20
            &&& force[own] == other[own] ==> foot_is_down(force, leg) == foot_is_down(other, leg)
            &&& force[own] <= other[own] && foot_is_down(force, leg) ==> foot_is_down(other, leg)
        }),
{
}

/// A plan decides alone: a leg stands where it is not planned to swing, whatever the
/// feet report. Without a plan the feet decide, and where none of them reports a force
/// all legs stand.
pub proof fn law_a_plan_decides_alone(swing: [bool; 4], force: Seq<i16>, leg: int)
    requires
        0 <= leg < 4,
        force.len() == 4,
    ensures
        leg_stands(Some(swing), force, leg) <==> !swing@[leg],
        force[0] == 0 && force[1] == 0 && force[2] == 0 && force[3] == 0 ==> leg_stands(
            None,
            force,
            leg,
        ),
        force[0] != 0 || force[1] != 0 || force[2] != 0 || force[3] != 0 ==> (leg_stands(
            None,
            force,
            leg,
        ) <==> force[if leg % 2 == 0 {
            leg + 1
        } else {
            leg - 1
        }] > 20),
{
    law_mute_feet_report_nothing(force);
}

/// A state that came ends the wait, however late; without one the wait ends after five
/// seconds and not before.
pub proof fn law_a_state_wins_over_the_clock(received: bool, waited_ns: u64)
    ensures
        awaited(received, waited_ns) == Awaiting::Connected <==> received,
        awaited(received, waited_ns) == Awaiting::TimedOut <==> !received && waited_ns
            >= 5_000_000_000,
        awaited(received, waited_ns) == Awaiting::Wait <==> !received && waited_ns < 5_000_000_000,
{
}

/// It makes no difference whether states are read at once or in two rows, and of what
/// was read only the last counts.
pub proof fn law_only_the_latest_state_counts<N>(
    before: Option<LowState<N>>,
    first: Seq<(LowState<N>, u64)>,
    second: Seq<(LowState<N>, u64)>,
    state: (LowState<N>, u64),
)
    ensures
        latest(latest(before, first), second) == latest(before, first + second),
        latest(before, first.push(state)) == Some(state.0),
        latest(before, Seq::empty()) == before,
{
    if second.len() > 0 {
        assert((first + second).last() == second.last());
    } else {
        assert(first + second =~= first);
    }
}

/// A state ages with the clock: it is new when it is read, and between two later looks
/// it grows older by the time between them. It is never older than the clock allows.
pub proof fn law_a_state_ages_with_the_clock(at_ns: u64, now_ns: u64, later_ns: u64)
    ensures
        age_at(at_ns, at_ns) == 0,
        at_ns <= now_ns <= later_ns ==> age_at(at_ns, later_ns) - age_at(at_ns, now_ns) == later_ns
            - now_ns,
        now_ns < at_ns ==> age_at(at_ns, now_ns) == 0,
{
}

/// A policy sees the robot and the simulator alike: where the simulated axes stand as
/// the robot's own report is shown, the joints that it sees are the robot's own, motor
/// by motor.
pub proof fn law_a_policy_sees_both_alike<N>(
    s: LowState<N>,
    obs: Observation<N>,
    age_ns: u64,
    q_misa: Seq<N>,
    dq_misa: Seq<N>,
    q_go2: Seq<N>,
    dq_go2: Seq<N>,
    motor: int,
)
    requires
        shows(obs, s, age_ns),
        forall|i: int| 0 <= i < 12 ==> #[trigger] q_misa[i] == obs.axes@[i].position_rad,
        forall|i: int| 0 <= i < 12 ==> #[trigger] dq_misa[i] == obs.axes@[i].velocity_rad_s,
        reordered(MISA_TO_GO2@, q_misa, q_go2),
        reordered(MISA_TO_GO2@, dq_misa, dq_go2),
        0 <= motor < 12,
    ensures
        input_of(s).joint_q_go2@[motor] == q_go2[motor],
        input_of(s).joint_dq_go2@[motor] == dq_go2[motor],
        input_of(s).gyro_rad_s == obs.imu.gyro_rad_s,
        input_of(s).accel_m_s2 == obs.imu.accel_m_s2,
        input_of(s).quat_wxyz == s.quaternion,
{
    let leg = MISA_LEG_TO_GO2_FOOT@[motor / 3] as int;
    let i = 3 * leg + motor % 3;
    assert(0 <= i < 12);
    assert(MISA_TO_GO2@[i] == motor);
    assert(obs.axes@[i] == obs.axes@[i]);
    assert(q_misa[i] == obs.axes@[i].position_rad);
    assert(dq_misa[i] == obs.axes@[i].velocity_rad_s);
}

} // verus!
