use go2_runner::motors::{limp_frame, AxisCommand, ControlMode, Levels, PositionGains};
use go2_runner::plant::{
    await_state, feet_down, obs_input_from, obs_input_from_axes, robot_stance, silent_robot,
    Awaiting, Go2Plant, LowState,
};

fn state(n: i64) -> LowState<i64> {
    LowState {
        quaternion: [n, n + 1, n + 2, n + 3],
        rpy: [n + 4, n + 5, n + 6],
        gyroscope: [n + 7, n + 8, n + 9],
        accelerometer: [n + 10, n + 11, n + 12],
        q: core::array::from_fn(|g| n + 100 + g as i64),
        dq: core::array::from_fn(|g| n + 200 + g as i64),
        foot_force: [0, 21, 20, 300],
    }
}

fn plant() -> Go2Plant<i64> {
    Go2Plant::connect(
        PositionGains { kp: [1, 2, 3], kd: [4, 5, 6] },
        Levels { zero: 0, pos_stop: 2146, vel_stop: 16000 },
        limp_frame(9),
        1000,
    )
}

#[test]
fn feet_are_down_above_the_threshold() {
    // Forces come in the order FR, FL, RR, RL.
    assert_eq!(feet_down(&[0, 21, 20, 300]), [true, false, true, false]);
    assert_eq!(feet_down(&[-5, 20, 21, 0]), [false, false, false, true]);
}

#[test]
fn a_planned_swing_wins_over_the_sensors() {
    assert_eq!(
        robot_stance(Some([true, false, true, false]), &[0, 0, 0, 0]),
        [false, true, false, true]
    );
    assert_eq!(robot_stance(None, &[0, 21, 20, 300]), [true, false, true, false]);
}

#[test]
fn mute_feet_count_as_standing() {
    assert_eq!(robot_stance(None, &[0, 0, 0, 0]), [true; 4]);
    assert_eq!(robot_stance(None, &[0, 0, 1, 0]), [false; 4]);
    assert_eq!(robot_stance(Some([true; 4]), &[0, 0, 0, 0]), [false; 4]);
    assert_eq!(feet_down(&[0, 0, 0, 0]), [false; 4]);
}

#[test]
fn only_the_latest_state_is_kept() {
    let mut p = plant();
    assert!(p.last_state().is_none());
    assert_eq!(p.state_age(1500), 500);
    assert!(!p.poll_state(&vec![]));
    assert!(p.poll_state(&vec![(state(0), 1100), (state(50), 1200)]));
    assert_eq!(p.last_state().map(|s| s.q[0]), Some(150));
    assert_eq!(p.state_age(1500), 300);
    assert!(!p.poll_state(&vec![]));
    assert_eq!(p.last_state().map(|s| s.q[0]), Some(150));
    assert_eq!(p.state_age(1100), 0);
}

#[test]
fn the_first_state_is_awaited_for_five_seconds() {
    assert_eq!(await_state(true, 9_000_000_000), Awaiting::Connected);
    assert_eq!(await_state(false, 4_999_999_999), Awaiting::Wait);
    assert_eq!(await_state(false, 5_000_000_000), Awaiting::TimedOut);
    assert_eq!(
        silent_robot("RETRY "),
        "RETRY LowState が届きません（iface / 192.168.123.x / 配線を確認）"
    );
}

#[test]
fn an_observation_shows_the_latest_state() {
    let mut p = plant();
    assert!(p.fill_observation(2000).is_none());
    p.poll_state(&vec![(state(0), 1200)]);
    match p.fill_observation(2000) {
        None => panic!("nothing observed"),
        Some(obs) => {
            let q: Vec<i64> = obs.axes.iter().map(|a| a.position_rad).collect();
            assert_eq!(q, vec![103, 104, 105, 100, 101, 102, 109, 110, 111, 106, 107, 108]);
            assert_eq!(obs.axes[11].velocity_rad_s, 208);
            assert!(obs.axes.iter().all(|a| a.valid && a.age_ns == 800 && a.fault_raw == 0));
            assert!(obs.axes.iter().all(|a| a.torque_nm.is_none() && a.voltage_v.is_none()));
            assert_eq!(obs.imu.rpy_rad, [4, 5, 6]);
            assert_eq!(obs.imu.gyro_rad_s, [7, 8, 9]);
            assert_eq!(obs.imu.accel_m_s2, [10, 11, 12]);
            assert_eq!(obs.imu.age_ns, 800);
            assert_eq!(obs.contacts, [true, false, true, false]);
        }
    }
}

#[test]
fn a_policy_sees_the_motors_in_their_order() {
    let inp = obs_input_from(&state(0));
    assert_eq!(inp.quat_wxyz, [0, 1, 2, 3]);
    assert_eq!(inp.gyro_rad_s, [7, 8, 9]);
    assert_eq!(inp.accel_m_s2, [10, 11, 12]);
    assert_eq!(inp.joint_q_go2[3], 103);
    assert_eq!(inp.joint_dq_go2[11], 211);
    let misa: [i64; 12] = core::array::from_fn(|i| i as i64);
    let sim = obs_input_from_axes([1, 0, 0, 0], [2; 3], [3; 3], &misa, &misa);
    assert_eq!(sim.joint_q_go2, [3, 4, 5, 0, 1, 2, 9, 10, 11, 6, 7, 8]);
    assert_eq!(sim.joint_dq_go2, sim.joint_q_go2);
}

#[test]
fn disarming_goes_limp() {
    let mut p = plant();
    p.arm();
    assert!(p.armed);
    p.send_raw(&[1; 12], &[2; 12], &[3; 12], &[4; 12], &[5; 12]);
    assert_eq!((p.motors[7].q, p.motors[7].tau), (1, 5));
    p.disarm();
    assert!(!p.armed);
    assert!(p.motors.iter().all(|m| (m.q, m.dq, m.kp, m.kd, m.tau) == (0, 0, 0, 0, 0)));
}

#[test]
fn exchange_refuses_rates() {
    let mut p = plant();
    let command = |mode| AxisCommand {
        mode,
        position_rad: 1,
        velocity_rad_s: 2,
        kp_nm_per_rad: 3,
        kd_nm_s_per_rad: 4,
        torque_ff_nm: 5,
    };
    assert_eq!(p.exchange(&vec![command(ControlMode::Position)]), Ok(()));
    assert_eq!((p.motors[3].q, p.motors[3].kp, p.motors[3].kd), (1, 1, 4));
    assert!(p.exchange(&vec![command(ControlMode::Velocity)]).is_err());
    assert_eq!(p.motors[4].q, 9);
}
