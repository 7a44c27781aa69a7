use go2_runner::joints::MISA_TO_GO2;
use go2_runner::motors::{
    fill_motors, go2_axes, limp_frame, offered_modes, raw_frame, uniform_frame, walk_commands,
    walk_frame, AxisCommand, ControlMode, Levels, MotorCmd, PolicyTick, PositionGains,
};

const LEVELS: Levels<i64> = Levels { zero: 0, pos_stop: 2146, vel_stop: 16000 };
const GAINS: PositionGains<i64> = PositionGains { kp: [11, 12, 13], kd: [1, 2, 3] };

fn row(m: MotorCmd<i64>) -> (i64, i64, i64, i64, i64) {
    (m.q, m.dq, m.kp, m.kd, m.tau)
}

fn axis(mode: ControlMode, i: i64) -> AxisCommand<i64> {
    AxisCommand {
        mode,
        position_rad: 100 + i,
        velocity_rad_s: 200 + i,
        kp_nm_per_rad: 300 + i,
        kd_nm_s_per_rad: 400 + i,
        torque_ff_nm: 500 + i,
    }
}

#[test]
fn axes_are_named_by_leg_and_joint() {
    let names: Vec<String> = go2_axes().into_iter().map(|a| a.name).collect();
    assert_eq!(
        names,
        vec![
            "FL_hip_joint", "FL_thigh_joint", "FL_calf_joint", "FR_hip_joint", "FR_thigh_joint",
            "FR_calf_joint", "RL_hip_joint", "RL_thigh_joint", "RL_calf_joint", "RR_hip_joint",
            "RR_thigh_joint", "RR_calf_joint",
        ]
    );
    let places: Vec<(u8, u8)> = go2_axes().into_iter().map(|a| (a.leg, a.joint)).collect();
    assert_eq!(places[4], (1, 1));
    assert_eq!(places[11], (3, 2));
}

#[test]
fn three_modes_are_offered() {
    assert_eq!(
        offered_modes(),
        vec![ControlMode::Position, ControlMode::Impedance, ControlMode::Torque]
    );
}

#[test]
fn each_mode_fills_the_motor_its_own_way() {
    let mut motors = raw_frame(&[9; 12], &[9; 12], &[9; 12], &[9; 12], &[9; 12]);
    let commands = vec![
        axis(ControlMode::Idle, 0),
        axis(ControlMode::Position, 1),
        axis(ControlMode::Impedance, 2),
        axis(ControlMode::Torque, 3),
        axis(ControlMode::Position, 4),
        axis(ControlMode::Position, 5),
    ];
    assert_eq!(fill_motors(&mut motors, &commands, &GAINS, &LEVELS), Ok(()));
    assert_eq!(row(motors[3]), (0, 0, 0, 0, 0));
    assert_eq!(row(motors[4]), (101, 0, 12, 2, 0));
    assert_eq!(row(motors[5]), (102, 202, 302, 402, 502));
    assert_eq!(row(motors[0]), (2146, 16000, 0, 0, 503));
    assert_eq!(row(motors[1]), (104, 0, 12, 2, 0));
    assert_eq!(row(motors[2]), (105, 0, 13, 3, 0));
    for g in 6..12 {
        assert_eq!(row(motors[g]), (9, 9, 9, 9, 9));
    }
}

#[test]
fn rate_commands_are_refused() {
    let mut motors = limp_frame(0);
    let commands = vec![
        axis(ControlMode::Impedance, 0),
        axis(ControlMode::Velocity, 1),
        axis(ControlMode::Impedance, 2),
    ];
    assert_eq!(
        fill_motors(&mut motors, &commands, &GAINS, &LEVELS),
        Err("Go2Plant は Velocity 制御を受け付けません".to_string())
    );
    assert_eq!(row(motors[3]), (100, 200, 300, 400, 500));
    assert_eq!(row(motors[4]), (0, 0, 0, 0, 0));
    assert_eq!(row(motors[5]), (0, 0, 0, 0, 0));
}

#[test]
fn frames_carry_their_rows() {
    let q: [i64; 12] = core::array::from_fn(|j| j as i64);
    let frame = uniform_frame(&q, 40, 2, 0);
    for j in 0..12 {
        assert_eq!(row(frame[j]), (j as i64, 0, 40, 2, 0));
        assert_eq!(row(limp_frame(0)[j]), (0, 0, 0, 0, 0));
    }
}

fn tick() -> PolicyTick<i64> {
    PolicyTick {
        q_des_isaac: core::array::from_fn(|i| 100 + i as i64),
        kp_isaac: core::array::from_fn(|i| 200 + i as i64),
        kd_isaac: core::array::from_fn(|i| 300 + i as i64),
    }
}

fn clip(tau: i64, dq: i64, isaac: usize) -> i64 {
    tau * 1000 + dq * 100 + isaac as i64
}

#[test]
fn a_walking_frame_reaches_the_motors() {
    let tau: [i64; 12] = core::array::from_fn(|i| 7 + i as i64);
    let dq: [i64; 12] = core::array::from_fn(|g| g as i64);
    let frame = walk_frame(&tick(), &tau, &dq, 0, clip);
    // Isaac 0 is the front left hip, motor 3; Isaac 9 the front right calf, motor 2.
    assert_eq!(row(frame[3]), (100, 0, 200, 300, 7000 + 300));
    assert_eq!(row(frame[2]), (109, 0, 209, 309, 16000 + 200 + 9));
}

#[test]
fn the_simulator_and_the_robot_decode_alike() {
    let tau: [i64; 12] = core::array::from_fn(|i| 7 + i as i64);
    let dq_misa: [i64; 12] = core::array::from_fn(|i| 3 * i as i64);
    let mut dq_go2 = [0i64; 12];
    for i in 0..12 {
        dq_go2[MISA_TO_GO2[i]] = dq_misa[i];
    }
    let robot = walk_frame(&tick(), &tau, &dq_go2, 0, clip);
    let commands = walk_commands(&tick(), &tau, &dq_misa, 0, clip);
    let mut simulated = limp_frame(0);
    assert_eq!(fill_motors(&mut simulated, &commands, &GAINS, &LEVELS), Ok(()));
    for g in 0..12 {
        assert_eq!(row(simulated[g]), row(robot[g]), "motor {g}");
    }
}
