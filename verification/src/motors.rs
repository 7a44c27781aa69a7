//! The robot's motors: names, frames, and the way between joint commands and
//! motor commands.
//!
//! Angles and gains are opaque numbers here (`N`): this module decides which
//! number goes to which motor, never what the number is.

use vstd::prelude::*;
use crate::joints::{isaac_index, isaac_to_go2_order, misa_to_isaac, reordered, ISAAC_TO_GO2, MISA_TO_GO2};

verus! {

/// The short name of a leg, in misa order.
pub open spec fn leg_name(leg: int) -> Seq<char> {
    if leg == 0 {
        "FL"@
    } else if leg == 1 {
        "FR"@
    } else if leg == 2 {
        "RL"@
    } else {
        "RR"@
    }
}

/// The name of a joint kind, from the body outward.
pub open spec fn kind_name(joint: int) -> Seq<char> {
    if joint == 0 {
        "hip"@
    } else if joint == 1 {
        "thigh"@
    } else {
        "calf"@
    }
}

/// The name of a joint in the robot's model.
pub open spec fn joint_name(leg: int, joint: int) -> Seq<char> {
    leg_name(leg) + "_"@ + kind_name(joint) + "_joint"@
}

/// The name of a joint in the robot's model.
pub fn axis_name(leg: usize, joint: usize) -> (name: String)
    requires
        leg < 4,
        joint < 3,
    ensures
        name@ == joint_name(leg as int, joint as int),
{
    let mut name = (if leg == 0 {
        "FL"
    } else if leg == 1 {
        "FR"
    } else if leg == 2 {
        "RL"
    } else {
        "RR"
    }).to_owned();
    name.append("_");
    name.append(
        if joint == 0 {
            "hip"
        } else if joint == 1 {
            "thigh"
        } else {
            "calf"
        },
    );
    name.append("_joint");
    name
}

/// One axis of the robot.
pub struct Axis {
    pub name: String,
    /// Leg in misa order.
    pub leg: u8,
    /// Hip, thigh or calf.
    pub joint: u8,
}

/// Whether axes are those of the robot, in misa order.
pub open spec fn are_the_axes(axes: Seq<Axis>) -> bool {
    &&& axes.len() == 12
    &&& forall|i: int|
        0 <= i < 12 ==> {
            &&& (#[trigger] axes[i]).name@ == joint_name(i / 3, i % 3)
            &&& axes[i].leg == i / 3
            &&& axes[i].joint == i % 3
        }
}

/// The axes of the robot, in misa order.
pub fn go2_axes() -> (axes: Vec<Axis>)
    ensures
        are_the_axes(axes@),
        axes.len() == 12,
        forall|i: int|
            0 <= i < 12 ==> {
                &&& (#[trigger] axes@[i]).name@ == joint_name(i / 3, i % 3)
                &&& axes@[i].leg == i / 3
                &&& axes@[i].joint == i % 3
            },
{
    let mut axes: Vec<Axis> = Vec::new();
    for i in 0..12usize
        invariant
            axes.len() == i,
            forall|k: int|
                0 <= k < i ==> {
                    &&& (#[trigger] axes@[k]).name@ == joint_name(k / 3, k % 3)
                    &&& axes@[k].leg == k / 3
                    &&& axes@[k].joint == k % 3
                },
    {
        axes.push(Axis { name: axis_name(i / 3, i % 3), leg: (i / 3) as u8, joint: (i % 3) as u8 });
    }
    axes
}

/// How an axis is to be driven.
#[derive(Clone, Copy, PartialEq, Eq, Structural, Debug)]
pub enum ControlMode {
    /// No torque.
    Idle,
    /// To an angle, with the profile's gains.
    Position,
    /// At a rate; this robot does not take it.
    Velocity,
    /// Angle, rate, gains and torque, all from the command.
    Impedance,
    /// A torque alone.
    Torque,
}

/// The modes that the robot takes, besides going limp.
pub open spec fn is_offered(mode: ControlMode) -> bool {
    mode == ControlMode::Position || mode == ControlMode::Impedance || mode == ControlMode::Torque
}

/// The modes that the robot takes, besides going limp: each once.
pub fn offered_modes() -> (modes: Vec<ControlMode>)
    ensures
        modes@ == seq![ControlMode::Position, ControlMode::Impedance, ControlMode::Torque],
        forall|mode: ControlMode| #[trigger] modes@.contains(mode) == is_offered(mode),
{
    let modes = vec![ControlMode::Position, ControlMode::Impedance, ControlMode::Torque];
    assert(modes@ =~= seq![ControlMode::Position, ControlMode::Impedance, ControlMode::Torque]);
    assert forall|mode: ControlMode| #[trigger] modes@.contains(mode) == is_offered(mode) by {
        assert(modes@[0] == ControlMode::Position && modes@[1] == ControlMode::Impedance
            && modes@[2] == ControlMode::Torque);
    }
    modes
}

/// A command to one axis.
#[derive(Clone, Copy)]
pub struct AxisCommand<N> {
    pub mode: ControlMode,
    pub position_rad: N,
    pub velocity_rad_s: N,
    pub kp_nm_per_rad: N,
    pub kd_nm_s_per_rad: N,
    pub torque_ff_nm: N,
}

/// What one motor is sent.
#[derive(Clone, Copy)]
pub struct MotorCmd<N> {
    pub q: N,
    pub dq: N,
    pub kp: N,
    pub kd: N,
    pub tau: N,
}

/// The gains of position control, by joint kind: hip, thigh, calf.
#[derive(Clone, Copy)]
pub struct PositionGains<N> {
    pub kp: [N; 3],
    pub kd: [N; 3],
}

/// The numbers with a meaning of their own.
#[derive(Clone, Copy)]
pub struct Levels<N> {
    pub zero: N,
    /// The angle that means "no angle is commanded".
    pub pos_stop: N,
    /// The rate that means "no rate is commanded".
    pub vel_stop: N,
}

/// The motor command without angle, rate, stiffness or torque.
pub open spec fn limp<N>(zero: N) -> MotorCmd<N> {
    MotorCmd { q: zero, dq: zero, kp: zero, kd: zero, tau: zero }
}

/// What a motor is sent for an axis command; nothing stands for a rate command.
pub open spec fn motor_cmd_of<N>(
    axis: AxisCommand<N>,
    kind: int,
    gains: PositionGains<N>,
    levels: Levels<N>,
) -> Option<MotorCmd<N>> {
    match axis.mode {
        ControlMode::Idle => Some(limp(levels.zero)),
        ControlMode::Position => Some(
            MotorCmd {
                q: axis.position_rad,
                dq: levels.zero,
                kp: gains.kp@[kind],
                kd: gains.kd@[kind],
                tau: levels.zero,
            },
        ),
        ControlMode::Impedance => Some(
            MotorCmd {
                q: axis.position_rad,
                dq: axis.velocity_rad_s,
                kp: axis.kp_nm_per_rad,
                kd: axis.kd_nm_s_per_rad,
                tau: axis.torque_ff_nm,
            },
        ),
        ControlMode::Torque => Some(
            MotorCmd {
                q: levels.pos_stop,
                dq: levels.vel_stop,
                kp: levels.zero,
                kd: levels.zero,
                tau: axis.torque_ff_nm,
            },
        ),
        ControlMode::Velocity => None,
    }
}

fn motor_cmd_for<N: Copy>(
    axis: AxisCommand<N>,
    kind: usize,
    gains: &PositionGains<N>,
    levels: &Levels<N>,
) -> (cmd: Option<MotorCmd<N>>)
    requires
        kind < 3,
    ensures
        cmd == motor_cmd_of(axis, kind as int, *gains, *levels),
{
    let zero = levels.zero;
    match axis.mode {
        ControlMode::Idle => Some(MotorCmd { q: zero, dq: zero, kp: zero, kd: zero, tau: zero }),
        ControlMode::Position => Some(
            MotorCmd {
                q: axis.position_rad,
                dq: zero,
                kp: gains.kp[kind],
                kd: gains.kd[kind],
                tau: zero,
            },
        ),
        ControlMode::Impedance => Some(
            MotorCmd {
                q: axis.position_rad,
                dq: axis.velocity_rad_s,
                kp: axis.kp_nm_per_rad,
                kd: axis.kd_nm_s_per_rad,
                tau: axis.torque_ff_nm,
            },
        ),
        ControlMode::Torque => Some(
            MotorCmd {
                q: levels.pos_stop,
                dq: levels.vel_stop,
                kp: zero,
                kd: zero,
                tau: axis.torque_ff_nm,
            },
        ),
        ControlMode::Velocity => None,
    }
}

/// How many commands come before the first that asks for a rate.
pub open spec fn accepted<N>(commands: Seq<AxisCommand<N>>) -> int
    decreases commands.len(),
{
    if commands.len() == 0 {
        0
    } else {
        let before = accepted(commands.drop_last());
        if before == commands.len() - 1 && commands.last().mode != ControlMode::Velocity {
            commands.len() as int
        } else {
            before
        }
    }
}

/// `accepted` is the place of the first rate command, or the length.
pub proof fn lemma_accepted<N>(commands: Seq<AxisCommand<N>>, n: int)
    requires
        0 <= n <= commands.len(),
        forall|i: int| 0 <= i < n ==> (#[trigger] commands[i]).mode != ControlMode::Velocity,
        n < commands.len() ==> commands[n].mode == ControlMode::Velocity,
    ensures
        accepted(commands) == n,
    decreases commands.len(),
{
    if commands.len() > 0 {
        let front = commands.drop_last();
        if n == commands.len() {
            lemma_accepted(front, n - 1);
            assert(commands[n - 1].mode != ControlMode::Velocity);
        } else {
            lemma_accepted(front, n);
        }
    }
}

/// The answer to a command that asks for a rate.
pub open spec fn velocity_refused() -> Seq<char> {
    "Go2Plant は Velocity 制御を受け付けません"@
}

/// Whether axis commands (in misa order) lead from one frame to the next: those before the
/// first rate command reach their motors, and all other motors keep what they had.
pub open spec fn fills<N>(
    before: Seq<MotorCmd<N>>,
    commands: Seq<AxisCommand<N>>,
    gains: PositionGains<N>,
    levels: Levels<N>,
    after: Seq<MotorCmd<N>>,
) -> bool {
    &&& forall|i: int|
        0 <= i < accepted(commands) ==> Some(after[#[trigger] MISA_TO_GO2@[i] as int])
            == motor_cmd_of(commands[i], i % 3, gains, levels)
    &&& forall|i: int|
        accepted(commands) <= i < 12 ==> after[#[trigger] MISA_TO_GO2@[i] as int]
            == before[MISA_TO_GO2@[i] as int]
}

/// Puts axis commands (in misa order) into the motors' frame. A rate command is
/// refused, and the commands before it stay in the frame; motors without a
/// command keep what they had.
pub fn fill_motors<N: Copy>(
    motors: &mut [MotorCmd<N>; 12],
    commands: &Vec<AxisCommand<N>>,
    gains: &PositionGains<N>,
    levels: &Levels<N>,
) -> (result: Result<(), String>)
    requires
        commands.len() <= 12,
    ensures
        fills(old(motors)@, commands@, *gains, *levels, final(motors)@),
        result is Ok <==> accepted(commands@) == commands.len(),
        result matches Err(text) ==> text@ == velocity_refused(),
        0 <= accepted(commands@) <= commands.len(),
        forall|i: int|
            0 <= i < accepted(commands@) ==> Some(final(motors)@[#[trigger] MISA_TO_GO2@[i] as int])
                == motor_cmd_of(commands@[i], i % 3, *gains, *levels),
        forall|i: int|
            accepted(commands@) <= i < 12 ==> final(motors)@[#[trigger] MISA_TO_GO2@[i] as int]
                == old(motors)@[MISA_TO_GO2@[i] as int],
{
    for i in 0..commands.len()
        invariant
            commands.len() <= 12,
            forall|k: int| 0 <= k < i ==> (#[trigger] commands@[k]).mode != ControlMode::Velocity,
            forall|k: int|
                0 <= k < i ==> Some(motors@[#[trigger] MISA_TO_GO2@[k] as int]) == motor_cmd_of(
                    commands@[k],
                    k % 3,
                    *gains,
                    *levels,
                ),
            forall|k: int|
                i <= k < 12 ==> motors@[#[trigger] MISA_TO_GO2@[k] as int] == old(
                    motors,
                )@[MISA_TO_GO2@[k] as int],
    {
        match motor_cmd_for(commands[i], i % 3, gains, levels) {
            Some(cmd) => {
                motors[MISA_TO_GO2[i]] = cmd;
            },
            None => {
                proof {
                    lemma_accepted(commands@, i as int);
                }
                return Err("Go2Plant は Velocity 制御を受け付けません".to_owned());
            },
        }
    }
    proof {
        lemma_accepted(commands@, commands.len() as int);
    }
    Ok(())
}

/// A frame without stiffness.
pub fn limp_frame<N: Copy>(zero: N) -> (motors: [MotorCmd<N>; 12])
    ensures
        forall|j: int| 0 <= j < 12 ==> #[trigger] motors@[j] == limp(zero),
{
    let cmd = MotorCmd { q: zero, dq: zero, kp: zero, kd: zero, tau: zero };
    [cmd; 12]
}

/// Whether a frame carries five rows, each number to the motor of its own place.
pub open spec fn carries_rows<N>(
    motors: Seq<MotorCmd<N>>,
    q: Seq<N>,
    dq: Seq<N>,
    kp: Seq<N>,
    kd: Seq<N>,
    tau: Seq<N>,
) -> bool {
    forall|j: int|
        0 <= j < 12 ==> #[trigger] motors[j] == (MotorCmd {
            q: q[j],
            dq: dq[j],
            kp: kp[j],
            kd: kd[j],
            tau: tau[j],
        })
}

/// Whether a frame moves all motors to `q`, with one stiffness and one damping.
pub open spec fn holds_pose<N>(motors: Seq<MotorCmd<N>>, q: Seq<N>, kp: N, kd: N, zero: N) -> bool {
    forall|j: int|
        0 <= j < 12 ==> #[trigger] motors[j] == (MotorCmd {
            q: q[j],
            dq: zero,
            kp,
            kd,
            tau: zero,
        })
}

/// A frame from five rows in Go2 motor order.
pub fn raw_frame<N: Copy>(
    q: &[N; 12],
    dq: &[N; 12],
    kp: &[N; 12],
    kd: &[N; 12],
    tau: &[N; 12],
) -> (motors: [MotorCmd<N>; 12])
    ensures
        carries_rows(motors@, q@, dq@, kp@, kd@, tau@),
        forall|j: int|
            0 <= j < 12 ==> #[trigger] motors@[j] == (MotorCmd {
                q: q@[j],
                dq: dq@[j],
                kp: kp@[j],
                kd: kd@[j],
                tau: tau@[j],
            }),
{
    let first = MotorCmd { q: q[0], dq: dq[0], kp: kp[0], kd: kd[0], tau: tau[0] };
    let mut motors = [first; 12];
    for j in 0..12usize
        invariant
            forall|k: int|
                0 <= k < j ==> #[trigger] motors@[k] == (MotorCmd {
                    q: q@[k],
                    dq: dq@[k],
                    kp: kp@[k],
                    kd: kd@[k],
                    tau: tau@[k],
                }),
    {
        motors[j] = MotorCmd { q: q[j], dq: dq[j], kp: kp[j], kd: kd[j], tau: tau[j] };
    }
    motors
}

/// A frame that moves all motors to `q`, with one stiffness and one damping.
pub fn uniform_frame<N: Copy>(q: &[N; 12], kp: N, kd: N, zero: N) -> (motors: [MotorCmd<N>; 12])
    ensures
        holds_pose(motors@, q@, kp, kd, zero),
        forall|j: int|
            0 <= j < 12 ==> #[trigger] motors@[j] == (MotorCmd {
                q: q@[j],
                dq: zero,
                kp,
                kd,
                tau: zero,
            }),
{
    raw_frame(q, &[zero; 12], &[kp; 12], &[kd; 12], &[zero; 12])
}

/// What a policy commands, in Isaac order.
#[derive(Clone, Copy)]
pub struct PolicyTick<N> {
    pub q_des_isaac: [N; 12],
    pub kp_isaac: [N; 12],
    pub kd_isaac: [N; 12],
}

/// Whether joint commands (misa order) carry what a policy commands, with `tau`
/// (Isaac order) as the torques after clipping.
pub open spec fn commands_carry<N>(
    commands: Seq<AxisCommand<N>>,
    tick: PolicyTick<N>,
    tau: Seq<N>,
    zero: N,
) -> bool {
    &&& commands.len() == 12
    &&& forall|i: int|
        0 <= i < 12 ==> (#[trigger] commands[i]) == (AxisCommand {
            mode: ControlMode::Impedance,
            position_rad: tick.q_des_isaac@[isaac_index(i)],
            velocity_rad_s: zero,
            kp_nm_per_rad: tick.kp_isaac@[isaac_index(i)],
            kd_nm_s_per_rad: tick.kd_isaac@[isaac_index(i)],
            torque_ff_nm: tau[isaac_index(i)],
        })
}

/// Whether a motor frame carries what a policy commands, with `tau` (Isaac
/// order) as the torques after clipping.
pub open spec fn frame_carries<N>(
    motors: Seq<MotorCmd<N>>,
    tick: PolicyTick<N>,
    tau: Seq<N>,
    zero: N,
) -> bool {
    &&& motors.len() == 12
    &&& forall|i: int|
        0 <= i < 12 ==> motors[#[trigger] ISAAC_TO_GO2@[i] as int] == (MotorCmd {
            q: tick.q_des_isaac@[i],
            dq: zero,
            kp: tick.kp_isaac@[i],
            kd: tick.kd_isaac@[i],
            tau: tau[i],
        })
}

/// Whether `tau` holds the torques that `clip` gave on the robot: each for its own
/// feed-forward torque, the measured rate of its own motor, and its Isaac index.
pub open spec fn clipped_on_robot<N, C: Fn(N, N, usize) -> N>(
    clip: C,
    tau_isaac: Seq<N>,
    dq_go2: Seq<N>,
    tau: Seq<N>,
) -> bool {
    &&& tau.len() == 12
    &&& forall|i: int|
        0 <= i < 12 ==> call_ensures(
            clip,
            (tau_isaac[i], dq_go2[ISAAC_TO_GO2@[i] as int], i as usize),
            #[trigger] tau[i],
        )
}

/// Whether `tau` holds the torques that `clip` gave in the simulator: each for its
/// own feed-forward torque, the measured rate of its own axis, and its Isaac index.
pub open spec fn clipped_in_simulator<N, C: Fn(N, N, usize) -> N>(
    clip: C,
    tau_isaac: Seq<N>,
    dq_misa: Seq<N>,
    tau: Seq<N>,
) -> bool {
    &&& tau.len() == 12
    &&& forall|i: int|
        0 <= i < 12 ==> call_ensures(
            clip,
            (tau_isaac[isaac_index(i)], #[trigger] dq_misa[i], isaac_index(i) as usize),
            tau[isaac_index(i)],
        )
}

/// The frame of a walking cycle on the robot. The command goes from Isaac order
/// to motor order; each feed-forward torque passes `clip` together with the
/// measured rate of its own motor and its Isaac index.
pub fn walk_frame<N: Copy, C: Fn(N, N, usize) -> N>(
    tick: &PolicyTick<N>,
    tau_isaac: &[N; 12],
    dq_go2: &[N; 12],
    zero: N,
    clip: C,
) -> (motors: [MotorCmd<N>; 12])
    requires
        forall|tau: N, dq: N, i: usize| i < 12 ==> call_requires(clip, (tau, dq, i)),
    ensures
        exists|tau: Seq<N>| #[trigger]
            frame_carries(motors@, *tick, tau, zero) && clipped_on_robot(
                clip,
                tau_isaac@,
                dq_go2@,
                tau,
            ),
        forall|i: int|
            0 <= i < 12 ==> motors@[#[trigger] ISAAC_TO_GO2@[i] as int].q == tick.q_des_isaac@[i],
        forall|i: int|
            0 <= i < 12 ==> motors@[#[trigger] ISAAC_TO_GO2@[i] as int].dq == zero,
        forall|i: int|
            0 <= i < 12 ==> motors@[#[trigger] ISAAC_TO_GO2@[i] as int].kp == tick.kp_isaac@[i],
        forall|i: int|
            0 <= i < 12 ==> motors@[#[trigger] ISAAC_TO_GO2@[i] as int].kd == tick.kd_isaac@[i],
        forall|i: int|
            0 <= i < 12 ==> call_ensures(
                clip,
                (tau_isaac@[i], dq_go2@[ISAAC_TO_GO2@[i] as int], i as usize),
                motors@[#[trigger] ISAAC_TO_GO2@[i] as int].tau,
            ),
{
    let mut tau = *tau_isaac;
    for i in 0..12usize
        invariant
            forall|tau: N, dq: N, i: usize| i < 12 ==> call_requires(clip, (tau, dq, i)),
            forall|k: int|
                0 <= k < i ==> call_ensures(
                    clip,
                    (tau_isaac@[k], dq_go2@[ISAAC_TO_GO2@[k] as int], k as usize),
                    #[trigger] tau@[k],
                ),
    {
        tau[i] = clip(tau_isaac[i], dq_go2[ISAAC_TO_GO2[i]], i);
    }
    let q_go2 = isaac_to_go2_order(&tick.q_des_isaac);
    let kp_go2 = isaac_to_go2_order(&tick.kp_isaac);
    let kd_go2 = isaac_to_go2_order(&tick.kd_isaac);
    let tau_go2 = isaac_to_go2_order(&tau);
    let motors = raw_frame(&q_go2, &[zero; 12], &kp_go2, &kd_go2, &tau_go2);
    proof {
        assert forall|i: int| 0 <= i < 12 implies motors@[#[trigger] ISAAC_TO_GO2@[i] as int] == (
        MotorCmd {
            q: tick.q_des_isaac@[i],
            dq: zero,
            kp: tick.kp_isaac@[i],
            kd: tick.kd_isaac@[i],
            tau: tau@[i],
        }) by {
            let g = ISAAC_TO_GO2@[i] as int;
            assert(0 <= g < 12);
            assert(q_go2@[g] == tick.q_des_isaac@[i]);
            assert(kp_go2@[g] == tick.kp_isaac@[i]);
            assert(kd_go2@[g] == tick.kd_isaac@[i]);
            assert(tau_go2@[g] == tau@[i]);
        }
        assert(frame_carries(motors@, *tick, tau@, zero));
    }
    motors
}

/// The joint commands of a walking cycle in the simulator, in misa order; each
/// feed-forward torque passes `clip` together with the measured rate of its own
/// axis and its Isaac index.
pub fn walk_commands<N: Copy, C: Fn(N, N, usize) -> N>(
    tick: &PolicyTick<N>,
    tau_isaac: &[N; 12],
    dq_misa: &[N; 12],
    zero: N,
    clip: C,
) -> (commands: Vec<AxisCommand<N>>)
    requires
        forall|tau: N, dq: N, i: usize| i < 12 ==> call_requires(clip, (tau, dq, i)),
    ensures
        exists|tau: Seq<N>| #[trigger]
            commands_carry(commands@, *tick, tau, zero) && clipped_in_simulator(
                clip,
                tau_isaac@,
                dq_misa@,
                tau,
            ),
        commands.len() == 12,
        forall|i: int|
            0 <= i < 12 ==> (#[trigger] commands@[i]).mode == ControlMode::Impedance,
        forall|i: int|
            0 <= i < 12 ==> (#[trigger] commands@[i]).position_rad == tick.q_des_isaac@[(i % 3) * 4
                + i / 3],
        forall|i: int| 0 <= i < 12 ==> (#[trigger] commands@[i]).velocity_rad_s == zero,
        forall|i: int|
            0 <= i < 12 ==> (#[trigger] commands@[i]).kp_nm_per_rad == tick.kp_isaac@[(i % 3) * 4
                + i / 3],
        forall|i: int|
            0 <= i < 12 ==> (#[trigger] commands@[i]).kd_nm_s_per_rad == tick.kd_isaac@[(i % 3) * 4
                + i / 3],
        forall|i: int|
            0 <= i < 12 ==> call_ensures(
                clip,
                (
                    tau_isaac@[(i % 3) * 4 + i / 3],
                    dq_misa@[i],
                    ((i % 3) * 4 + i / 3) as usize,
                ),
                (#[trigger] commands@[i]).torque_ff_nm,
            ),
{
    let mut commands: Vec<AxisCommand<N>> = Vec::new();
    let ghost mut tau = tau_isaac@;
    for i in 0..12usize
        invariant
            forall|tau: N, dq: N, i: usize| i < 12 ==> call_requires(clip, (tau, dq, i)),
            commands.len() == i,
            tau.len() == 12,
            forall|k: int|
                0 <= k < i ==> call_ensures(
                    clip,
                    (tau_isaac@[isaac_index(k)], #[trigger] dq_misa@[k], isaac_index(k) as usize),
                    tau[isaac_index(k)],
                ),
            forall|k: int|
                0 <= k < i ==> (#[trigger] commands@[k]) == (AxisCommand {
                    mode: ControlMode::Impedance,
                    position_rad: tick.q_des_isaac@[isaac_index(k)],
                    velocity_rad_s: zero,
                    kp_nm_per_rad: tick.kp_isaac@[isaac_index(k)],
                    kd_nm_s_per_rad: tick.kd_isaac@[isaac_index(k)],
                    torque_ff_nm: tau[isaac_index(k)],
                }),
    {
        let isaac: usize = misa_to_isaac(i);
        let torque = clip(tau_isaac[isaac], dq_misa[i], isaac);
        proof {
            tau = tau.update(isaac as int, torque);
        }
        commands.push(
            AxisCommand {
                mode: ControlMode::Impedance,
                position_rad: tick.q_des_isaac[isaac],
                velocity_rad_s: zero,
                kp_nm_per_rad: tick.kp_isaac[isaac],
                kd_nm_s_per_rad: tick.kd_isaac[isaac],
                torque_ff_nm: torque,
            },
        );
    }
    proof {
        assert(commands_carry(commands@, *tick, tau, zero));
        assert forall|i: int| 0 <= i < 12 implies call_ensures(
            clip,
            (tau_isaac@[(i % 3) * 4 + i / 3], dq_misa@[i], ((i % 3) * 4 + i / 3) as usize),
            (#[trigger] commands@[i]).torque_ff_nm,
        ) by {
            assert(isaac_index(i) == (i % 3) * 4 + i / 3);
            assert(dq_misa@[i] == dq_misa@[i]);
        }
    }
    commands
}

/// The simulator and the robot decode a policy alike: the joint commands of a
/// simulated cycle, put into motors, are the frame that the robot is sent for
/// the same policy command and torques.
pub proof fn law_simulator_and_robot_decode_alike<N>(
    tick: PolicyTick<N>,
    tau: Seq<N>,
    commands: Seq<AxisCommand<N>>,
    motors: Seq<MotorCmd<N>>,
    gains: PositionGains<N>,
    levels: Levels<N>,
)
    requires
        commands_carry(commands, tick, tau, levels.zero),
        frame_carries(motors, tick, tau, levels.zero),
    ensures
        forall|i: int|
            0 <= i < 12 ==> motor_cmd_of(commands[i], i % 3, gains, levels) == Some(
                motors[#[trigger] MISA_TO_GO2@[i] as int],
            ),
{
    assert forall|i: int| 0 <= i < 12 implies motor_cmd_of(commands[i], i % 3, gains, levels)
        == Some(motors[#[trigger] MISA_TO_GO2@[i] as int]) by {
        crate::joints::law_orders_agree_on_the_robot(i);
        assert(ISAAC_TO_GO2@[isaac_index(i)] == MISA_TO_GO2@[i]);
    }
}

/// The simulator and the robot clip alike: where both measure the same rates,
/// each in its own order, the same torques answer to `clip` on either side.
pub proof fn law_simulator_and_robot_clip_alike<N, C: Fn(N, N, usize) -> N>(
    clip: C,
    tau_isaac: Seq<N>,
    dq_misa: Seq<N>,
    dq_go2: Seq<N>,
    tau: Seq<N>,
)
    requires
        reordered(MISA_TO_GO2@, dq_misa, dq_go2),
    ensures
        clipped_on_robot(clip, tau_isaac, dq_go2, tau) <==> clipped_in_simulator(
            clip,
            tau_isaac,
            dq_misa,
            tau,
        ),
{
    assert forall|m: int| 0 <= m < 12 implies dq_go2[ISAAC_TO_GO2@[isaac_index(m)] as int]
        == #[trigger] dq_misa[m] by {
        crate::joints::law_orders_agree_on_the_robot(m);
    }
    if clipped_on_robot(clip, tau_isaac, dq_go2, tau) {
        assert forall|m: int| 0 <= m < 12 implies call_ensures(
            clip,
            (tau_isaac[isaac_index(m)], #[trigger] dq_misa[m], isaac_index(m) as usize),
            tau[isaac_index(m)],
        ) by {
            assert(0 <= isaac_index(m) < 12);
            assert(dq_go2[ISAAC_TO_GO2@[isaac_index(m)] as int] == dq_misa[m]);
        }
    }
    if clipped_in_simulator(clip, tau_isaac, dq_misa, tau) {
        assert forall|i: int| 0 <= i < 12 implies call_ensures(
            clip,
            (tau_isaac[i], dq_go2[ISAAC_TO_GO2@[i] as int], i as usize),
            #[trigger] tau[i],
        ) by {
            let m = (i % 4) * 3 + i / 4;
            assert(isaac_index(m) == i);
            assert(dq_go2[ISAAC_TO_GO2@[isaac_index(m)] as int] == dq_misa[m]);
        }
    }
}

/// Going idle and going limp are the same: an idle command, whatever it carries,
/// leaves its motor without angle, rate, stiffness and torque.
pub proof fn law_idle_is_limp<N>(
    axis: AxisCommand<N>,
    kind: int,
    gains: PositionGains<N>,
    levels: Levels<N>,
)
    requires
        axis.mode == ControlMode::Idle,
    ensures
        motor_cmd_of(axis, kind, gains, levels) == Some(limp(levels.zero)),
{
}

/// A mode is refused exactly where the robot neither offers it nor goes limp
/// for it.
pub proof fn law_only_offered_modes_are_taken<N>(
    axis: AxisCommand<N>,
    kind: int,
    gains: PositionGains<N>,
    levels: Levels<N>,
)
    ensures
        motor_cmd_of(axis, kind, gains, levels) is Some <==> is_offered(axis.mode) || axis.mode
            == ControlMode::Idle,
{
}

/// Each motor of a walking frame is sent what the policy commands for its own joint:
/// the motor of an Isaac index gets the angle, the gains and the torque of that index,
/// and no rate.
pub proof fn law_each_motor_gets_its_own_joint<N>(
    tick: PolicyTick<N>,
    tau: Seq<N>,
    zero: N,
    motors: Seq<MotorCmd<N>>,
    i: int,
)
    requires
        frame_carries(motors, tick, tau, zero),
        0 <= i < 12,
    ensures
        motors.len() == 12,
        motors[ISAAC_TO_GO2@[i] as int].q == tick.q_des_isaac@[i],
        motors[ISAAC_TO_GO2@[i] as int].dq == zero,
        motors[ISAAC_TO_GO2@[i] as int].kp == tick.kp_isaac@[i],
        motors[ISAAC_TO_GO2@[i] as int].kd == tick.kd_isaac@[i],
        motors[ISAAC_TO_GO2@[i] as int].tau == tau[i],
{
    assert(ISAAC_TO_GO2@[i] < 12);
}

/// Each axis of a simulated cycle is commanded what the policy commands for its own
/// joint, by impedance: kind first, then leg.
pub proof fn law_each_axis_gets_its_own_joint<N>(
    tick: PolicyTick<N>,
    tau: Seq<N>,
    zero: N,
    commands: Seq<AxisCommand<N>>,
    leg: int,
    kind: int,
)
    requires
        commands_carry(commands, tick, tau, zero),
        0 <= leg < 4,
        0 <= kind < 3,
    ensures
        commands.len() == 12,
        commands[3 * leg + kind].mode == ControlMode::Impedance,
        commands[3 * leg + kind].position_rad == tick.q_des_isaac@[4 * kind + leg],
        commands[3 * leg + kind].velocity_rad_s == zero,
        commands[3 * leg + kind].kp_nm_per_rad == tick.kp_isaac@[4 * kind + leg],
        commands[3 * leg + kind].kd_nm_s_per_rad == tick.kd_isaac@[4 * kind + leg],
        commands[3 * leg + kind].torque_ff_nm == tau[4 * kind + leg],
{
    let i = 3 * leg + kind;
    assert(isaac_index(i) == 4 * kind + leg);
    assert(commands[i] == commands[i]);
}

/// One joint moves one motor: frames for policy commands that agree but for one joint
/// agree but for that joint's motor.
pub proof fn law_one_joint_moves_one_motor<N>(
    a: PolicyTick<N>,
    b: PolicyTick<N>,
    tau_a: Seq<N>,
    tau_b: Seq<N>,
    zero: N,
    frame_a: Seq<MotorCmd<N>>,
    frame_b: Seq<MotorCmd<N>>,
    joint: int,
    motor: int,
)
    requires
        frame_carries(frame_a, a, tau_a, zero),
        frame_carries(frame_b, b, tau_b, zero),
        0 <= joint < 12,
        forall|i: int|
            0 <= i < 12 && i != joint ==> {
                &&& #[trigger] a.q_des_isaac@[i] == b.q_des_isaac@[i]
                &&& a.kp_isaac@[i] == b.kp_isaac@[i]
                &&& a.kd_isaac@[i] == b.kd_isaac@[i]
                &&& tau_a[i] == tau_b[i]
            },
        0 <= motor < 12,
        motor != ISAAC_TO_GO2@[joint],
    ensures
        frame_a[motor] == frame_b[motor],
{
    let i = crate::joints::GO2_TO_ISAAC@[motor] as int;
    crate::joints::law_isaac_tables_are_inverse(motor);
    assert(0 <= i < 12);
    assert(ISAAC_TO_GO2@[i] == motor);
    assert(i != joint);
    assert(a.q_des_isaac@[i] == b.q_des_isaac@[i]);
}

/// On the robot each torque is clipped with the rate of the motor that it goes to.
pub proof fn law_robot_torques_meet_their_own_rate<N, C: Fn(N, N, usize) -> N>(
    clip: C,
    tau_isaac: Seq<N>,
    dq_go2: Seq<N>,
    tau: Seq<N>,
    i: int,
)
    requires
        clipped_on_robot(clip, tau_isaac, dq_go2, tau),
        0 <= i < 12,
    ensures
        tau.len() == 12,
        call_ensures(
            clip,
            (tau_isaac[i], dq_go2[ISAAC_TO_GO2@[i] as int], i as usize),
            tau[i],
        ),
{
    assert(tau[i] == tau[i]);
}

/// In the simulator each torque is clipped with the rate of the axis that it goes to.
pub proof fn law_simulated_torques_meet_their_own_rate<N, C: Fn(N, N, usize) -> N>(
    clip: C,
    tau_isaac: Seq<N>,
    dq_misa: Seq<N>,
    tau: Seq<N>,
    leg: int,
    kind: int,
)
    requires
        clipped_in_simulator(clip, tau_isaac, dq_misa, tau),
        0 <= leg < 4,
        0 <= kind < 3,
    ensures
        tau.len() == 12,
        call_ensures(
            clip,
            (tau_isaac[4 * kind + leg], dq_misa[3 * leg + kind], (4 * kind + leg) as usize),
            tau[4 * kind + leg],
        ),
{
    let i = 3 * leg + kind;
    assert(isaac_index(i) == 4 * kind + leg);
    assert(dq_misa[i] == dq_misa[i]);
}

/// Each mode sends its own numbers and no others: impedance sends the command whole,
/// position the angle with the gains of the joint's kind, torque the torque with angle
/// and rate switched off, and going idle nothing.
pub proof fn law_modes_send_their_own_numbers<N>(
    axis: AxisCommand<N>,
    kind: int,
    gains: PositionGains<N>,
    levels: Levels<N>,
    motor: MotorCmd<N>,
)
    requires
        motor_cmd_of(axis, kind, gains, levels) == Some(motor),
    ensures
        axis.mode != ControlMode::Velocity,
        axis.mode == ControlMode::Impedance ==> motor.q == axis.position_rad && motor.dq
            == axis.velocity_rad_s && motor.kp == axis.kp_nm_per_rad && motor.kd
            == axis.kd_nm_s_per_rad && motor.tau == axis.torque_ff_nm,
        axis.mode == ControlMode::Position ==> motor.q == axis.position_rad && motor.dq
            == levels.zero && motor.kp == gains.kp@[kind] && motor.kd == gains.kd@[kind] && motor.tau
            == levels.zero,
        axis.mode == ControlMode::Torque ==> motor.q == levels.pos_stop && motor.dq
            == levels.vel_stop && motor.kp == levels.zero && motor.kd == levels.zero && motor.tau
            == axis.torque_ff_nm,
        axis.mode == ControlMode::Idle ==> motor.q == levels.zero && motor.dq == levels.zero
            && motor.kp == levels.zero && motor.kd == levels.zero && motor.tau == levels.zero,
{
}

/// A limp motor is sent zero in every place.
pub proof fn law_limp_is_zero_everywhere<N>(zero: N)
    ensures
        limp(zero).q == zero,
        limp(zero).dq == zero,
        limp(zero).kp == zero,
        limp(zero).kd == zero,
        limp(zero).tau == zero,
{
}

/// Commands are taken up to the first that asks for a rate: none before it does, it
/// does itself where there is one, and without one all are taken.
pub proof fn law_commands_are_taken_up_to_the_first_rate<N>(commands: Seq<AxisCommand<N>>)
    ensures
        0 <= accepted(commands) <= commands.len(),
        forall|i: int|
            0 <= i < accepted(commands) ==> (#[trigger] commands[i]).mode != ControlMode::Velocity,
        accepted(commands) < commands.len() ==> commands[accepted(commands)].mode
            == ControlMode::Velocity,
    decreases commands.len(),
{
    if commands.len() > 0 {
        let front = commands.drop_last();
        law_commands_are_taken_up_to_the_first_rate(front);
        assert forall|i: int| 0 <= i < accepted(commands) implies (#[trigger] commands[i]).mode
            != ControlMode::Velocity by {
            if i < front.len() {
                assert(front[i] == commands[i]);
            }
        }
        if accepted(front) < front.len() {
            assert(front[accepted(front)] == commands[accepted(front)]);
        }
    }
}

/// The modes that the robot takes are position, impedance and torque.
pub proof fn law_position_impedance_and_torque_are_offered(mode: ControlMode)
    ensures
        is_offered(mode) <==> mode != ControlMode::Idle && mode != ControlMode::Velocity,
{
}

/// A joint's name tells its leg and its kind: no two joints share one.
pub proof fn law_joint_names_are_their_own(leg: int, joint: int)
    requires
        0 <= leg < 4,
        0 <= joint < 3,
    ensures
        joint_name(leg, joint)[0] == (if leg < 2 {
            'F'
        } else {
            'R'
        }),
        joint_name(leg, joint)[1] == (if leg % 2 == 0 {
            'L'
        } else {
            'R'
        }),
        joint_name(leg, joint).skip(2) == (if joint == 0 {
            "_hip_joint"@
        } else if joint == 1 {
            "_thigh_joint"@
        } else {
            "_calf_joint"@
        }),
{
    reveal_strlit("FL");
    reveal_strlit("FR");
    reveal_strlit("RL");
    reveal_strlit("RR");
    reveal_strlit("_");
    reveal_strlit("hip");
    reveal_strlit("thigh");
    reveal_strlit("calf");
    reveal_strlit("_joint");
    reveal_strlit("_hip_joint");
    reveal_strlit("_thigh_joint");
    reveal_strlit("_calf_joint");
    let name = joint_name(leg, joint);
    if joint == 0 {
        assert(name.skip(2) =~= "_hip_joint"@);
    } else if joint == 1 {
        assert(name.skip(2) =~= "_thigh_joint"@);
    } else {
        assert(name.skip(2) =~= "_calf_joint"@);
    }
}

/// Each number of the five rows reaches the motor of its own place and the entry of its
/// own row.
pub proof fn law_rows_reach_their_own_motors<N>(
    motors: Seq<MotorCmd<N>>,
    q: Seq<N>,
    dq: Seq<N>,
    kp: Seq<N>,
    kd: Seq<N>,
    tau: Seq<N>,
    j: int,
)
    requires
        carries_rows(motors, q, dq, kp, kd, tau),
        0 <= j < 12,
    ensures
        motors[j].q == q[j],
        motors[j].dq == dq[j],
        motors[j].kp == kp[j],
        motors[j].kd == kd[j],
        motors[j].tau == tau[j],
{
    assert(motors[j] == motors[j]);
}

/// A pose is held with one stiffness and one damping everywhere, without rate or torque,
/// each motor at its own angle; without stiffness and damping at the zero pose it is the
/// limp frame.
pub proof fn law_a_pose_is_held_evenly<N>(
    motors: Seq<MotorCmd<N>>,
    q: Seq<N>,
    kp: N,
    kd: N,
    zero: N,
    j: int,
    k: int,
)
    requires
        holds_pose(motors, q, kp, kd, zero),
        0 <= j < 12,
        0 <= k < 12,
    ensures
        motors[j].q == q[j],
        motors[j].kp == kp && motors[j].kd == kd,
        motors[j].dq == zero && motors[j].tau == zero,
        motors[j].kp == motors[k].kp && motors[j].kd == motors[k].kd,
        kp == zero && kd == zero && q[j] == zero ==> motors[j] == limp(zero),
{
    assert(motors[j] == motors[j]);
    assert(motors[k] == motors[k]);
}

/// The robot has one axis for each leg and kind, which knows its own place and name.
pub proof fn law_each_axis_knows_its_place(axes: Seq<Axis>, leg: int, kind: int)
    requires
        are_the_axes(axes),
        0 <= leg < 4,
        0 <= kind < 3,
    ensures
        axes.len() == 12,
        axes[3 * leg + kind].leg == leg,
        axes[3 * leg + kind].joint == kind,
        axes[3 * leg + kind].name@ == joint_name(leg, kind),
{
    assert(axes[3 * leg + kind] == axes[3 * leg + kind]);
}

/// A position command reaches the motor of its own leg and kind, with the gains of that
/// kind; the motors of commands behind a rate command, and of no command, keep what they
/// had.
pub proof fn law_commands_reach_their_own_motor<N>(
    before: Seq<MotorCmd<N>>,
    commands: Seq<AxisCommand<N>>,
    gains: PositionGains<N>,
    levels: Levels<N>,
    after: Seq<MotorCmd<N>>,
    leg: int,
    kind: int,
)
    requires
        fills(before, commands, gains, levels, after),
        commands.len() <= 12,
        0 <= leg < 4,
        0 <= kind < 3,
    ensures
        ({
            let i = 3 * leg + kind;
            let motor = after[3 * crate::joints::MISA_LEG_TO_GO2_FOOT@[leg] + kind];
            &&& i < commands.len() && commands[i].mode == ControlMode::Position && (forall|j: int|
                0 <= j < commands.len() ==> (#[trigger] commands[j]).mode
                    != ControlMode::Velocity) ==> motor.q == commands[i].position_rad && motor.kp
                == gains.kp@[kind] && motor.kd == gains.kd@[kind] && motor.tau == levels.zero
            &&& i >= commands.len() ==> motor
                == before[3 * crate::joints::MISA_LEG_TO_GO2_FOOT@[leg] + kind]
            &&& (exists|j: int|
                0 <= j <= i && j < commands.len() && (#[trigger] commands[j]).mode
                    == ControlMode::Velocity) ==> motor
                == before[3 * crate::joints::MISA_LEG_TO_GO2_FOOT@[leg] + kind]
        }),
{
    let i = 3 * leg + kind;
    crate::joints::law_misa_table_is_the_documented_one(leg, kind);
    assert(MISA_TO_GO2@[i] == MISA_TO_GO2@[i]);
    assert(i % 3 == kind);
    law_commands_are_taken_up_to_the_first_rate(commands);
    if forall|j: int|
        0 <= j < commands.len() ==> (#[trigger] commands[j]).mode != ControlMode::Velocity {
        lemma_accepted(commands, commands.len() as int);
    }
    if exists|j: int|
        0 <= j <= i && j < commands.len() && (#[trigger] commands[j]).mode == ControlMode::Velocity {
        let j = choose|j: int|
            0 <= j <= i && j < commands.len() && (#[trigger] commands[j]).mode
                == ControlMode::Velocity;
        crate::plant::law_rate_commands_are_refused(commands, j);
    }
}

} // verus!
