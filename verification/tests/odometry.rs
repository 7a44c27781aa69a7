use go2_runner::joints::{isaac_to_go2_order, LegJoints};
use go2_runner::odometry::{velocity_input, LegOdometry, Reading};

// The robot's legs: hip at (+-HIP_X, +-HIP_Y), then a sideways link, thigh and calf.
const HIP_X: f64 = 0.1934;
const HIP_Y: f64 = 0.0465;
const SIDE: f64 = 0.0955;
const LINK: f64 = 0.213;

fn sides(l: usize) -> (f64, f64) {
    (if l < 2 { 1.0 } else { -1.0 }, if l % 2 == 0 { 1.0 } else { -1.0 })
}

fn foot(q: [f64; 3], l: usize) -> [f64; 3] {
    let (sx, sy) = sides(l);
    let x = -LINK * q[1].sin() - LINK * (q[1] + q[2]).sin();
    let down = LINK * q[1].cos() + LINK * (q[1] + q[2]).cos();
    let (c, s) = (q[0].cos(), q[0].sin());
    let y = sy * SIDE;
    [sx * HIP_X + x, sy * HIP_Y + y * c + down * s, y * s - down * c]
}

fn angles(p: [f64; 3], l: usize) -> [f64; 3] {
    let (sx, sy) = sides(l);
    let (x, y, z) = (p[0] - sx * HIP_X, p[1] - sy * HIP_Y, p[2]);
    let down = (y * y + z * z - SIDE * SIDE).sqrt();
    let hip = y.atan2(-z) - (sy * SIDE).atan2(down);
    let r2 = x * x + down * down;
    let knee = -((r2 - 2.0 * LINK * LINK) / (2.0 * LINK * LINK)).acos();
    let thigh = (-x).atan2(down) - (LINK * knee.sin()).atan2(LINK + LINK * knee.cos());
    [hip, thigh, knee]
}

fn row(joints: LegJoints<f64>) -> [f64; 3] {
    [joints.hip, joints.thigh, joints.calf]
}

fn stand(dx: f64) -> [f64; 12] {
    let mut q = [0.0; 12];
    for l in 0..4 {
        let (sx, sy) = sides(l);
        let a = angles([sx * HIP_X + dx, sy * (HIP_Y + SIDE), 0.023 - 0.30], l);
        for k in 0..3 {
            q[4 * k + l] = a[k];
        }
    }
    q
}

fn average(readings: &Vec<Reading<f64>>) -> Reading<f64> {
    let n = readings.len() as f64;
    Reading {
        vel: core::array::from_fn(|k| readings.iter().map(|r| r.vel[k]).sum::<f64>() / n),
        height: readings.iter().map(|r| r.height).sum::<f64>() / n,
    }
}

fn blend(before: Reading<f64>, now: Reading<f64>) -> Reading<f64> {
    let tau = 1.0 / (2.0 * std::f64::consts::PI * 10.0);
    let alpha = 0.002 / (tau + 0.002);
    Reading {
        vel: core::array::from_fn(|k| before.vel[k] + alpha * (now.vel[k] - before.vel[k])),
        height: before.height + alpha * (now.height - before.height),
    }
}

/// One period of an upright body that does not turn.
fn update(est: &mut LegOdometry<f64>, q_go2: &[f64; 12], dq_go2: &[f64; 12], stance: [bool; 4]) {
    est.update(
        q_go2,
        dq_go2,
        stance,
        |l: usize, q: LegJoints<f64>, dq: LegJoints<f64>| {
            let (a, r) = (row(q), row(dq));
            let h = 1e-6;
            let ahead = foot(core::array::from_fn(|k| a[k] + h * r[k]), l);
            let behind = foot(core::array::from_fn(|k| a[k] - h * r[k]), l);
            Reading {
                vel: core::array::from_fn(|k| -(ahead[k] - behind[k]) / (2.0 * h)),
                height: -foot(a, l)[2],
            }
        },
        average,
        blend,
    );
}

fn raw(vx: f64) -> f64 {
    vx
}

/// Standing still: no velocity, and the height of the body above the foot spheres.
#[test]
fn standing_still_reads_zero_velocity_and_the_stance_height() {
    let q_go2 = isaac_to_go2_order(&stand(0.0));
    let mut est = LegOdometry::new(0.0, 0.30);
    update(&mut est, &q_go2, &[0.0; 12], [true; 4]);
    let v = est.vel_world(raw);
    assert!(v.iter().all(|x| x.abs() < 1e-12), "{v:?}");
    assert!((est.height_m() - (0.30 - 0.023)).abs() < 1e-9, "{}", est.height_m());
}

/// A body that moves forward over standing feet is seen to move forward.
#[test]
fn forward_motion_is_recovered_from_joint_rates() {
    let q_isaac = stand(0.0);
    let vx = 0.1;
    let dt = 1e-6;
    let q2 = stand(-vx * dt);
    let dq_isaac: [f64; 12] = core::array::from_fn(|i| (q2[i] - q_isaac[i]) / dt);
    let q_go2 = isaac_to_go2_order(&q_isaac);
    let dq_go2 = isaac_to_go2_order(&dq_isaac);
    let mut est = LegOdometry::new(0.0, 0.30);
    update(&mut est, &q_go2, &dq_go2, [true; 4]);
    let v = est.vel_world(raw);
    assert!((v[0] - vx).abs() < 1e-4, "vx {}", v[0]);
    assert!(v[1].abs() < 1e-6 && v[2].abs() < 1e-4, "{v:?}");
}

fn told(est: &mut LegOdometry<i64>, stance: [bool; 4], base: i64) {
    est.update(
        &[0; 12],
        &[0; 12],
        stance,
        |l: usize, _: LegJoints<i64>, _: LegJoints<i64>| Reading { vel: [base + l as i64, 0, -1], height: 10 * (base + l as i64) },
        |rs: &Vec<Reading<i64>>| Reading {
            vel: core::array::from_fn(|k| rs.iter().map(|r| r.vel[k]).sum::<i64>()),
            height: rs.iter().map(|r| r.height).sum(),
        },
        |a: Reading<i64>, b: Reading<i64>| Reading {
            vel: core::array::from_fn(|k| 1000 * a.vel[k] + b.vel[k]),
            height: 1000 * a.height + b.height,
        },
    );
}

#[test]
fn only_standing_legs_are_read() {
    let mut est = LegOdometry::new(0, 5);
    told(&mut est, [false, true, false, true], 1);
    assert_eq!(est.candidates_world(), [None, Some([2, 0, -1]), None, Some([4, 0, -1])]);
    assert_eq!(est.vel_world(|v: i64| v), [6, 0, -2]);
    assert_eq!(est.height_m(), 60);
}

#[test]
fn the_first_reading_is_taken_and_later_ones_blended() {
    let mut est = LegOdometry::new(0, 5);
    told(&mut est, [true, false, false, false], 1);
    assert_eq!((est.vel_world(|v: i64| v), est.height_m()), ([1, 0, -1], 10));
    told(&mut est, [true, false, false, false], 2);
    assert_eq!((est.vel_world(|v: i64| v), est.height_m()), ([1002, 0, -1001], 10020));
}

#[test]
fn a_body_in_the_air_keeps_its_estimate() {
    let mut est = LegOdometry::new(0, 5);
    told(&mut est, [false; 4], 1);
    assert_eq!((est.vel_world(|v: i64| v), est.height_m()), ([0, 0, 0], 5));
    told(&mut est, [true; 4], 1);
    let (v, h) = (est.vel_world(|v: i64| v), est.height_m());
    told(&mut est, [false; 4], 9);
    assert_eq!((est.vel_world(|v: i64| v), est.height_m()), (v, h));
    assert_eq!(est.candidates_world(), [None; 4]);
}

#[test]
fn slip_correction_touches_only_the_forward_speed() {
    let mut est = LegOdometry::new_with_planar_slip_calibration(true, 0, 5);
    told(&mut est, [true, false, false, false], 3);
    assert_eq!(est.vel_world(|v: i64| 2 * v), [6, 0, -1]);
    assert_eq!(est.vel_world(|v: i64| 2 * v), [6, 0, -1]);
    let mut plain = LegOdometry::new_with_planar_slip_calibration(false, 0, 5);
    told(&mut plain, [true, false, false, false], 3);
    assert_eq!(plain.vel_world(|v: i64| 2 * v), [3, 0, -1]);
    assert_eq!(plain.height_m(), est.height_m());
    assert_eq!(plain.candidates_world(), est.candidates_world());
}

/// Each leg reads its own three motors, and swinging legs have no influence.
#[test]
fn legs_read_their_own_motors() {
    let q: [i64; 12] = core::array::from_fn(|g| g as i64);
    let dq: [i64; 12] = core::array::from_fn(|g| 100 + g as i64);
    let seen = |q_go2: &[i64; 12], dq_go2: &[i64; 12], stance: [bool; 4]| {
        let mut est = LegOdometry::new(0, 5);
        est.update(
            q_go2,
            dq_go2,
            stance,
            |_: usize, q: LegJoints<i64>, dq: LegJoints<i64>| Reading {
                vel: [q.hip, q.thigh, q.calf],
                height: dq.hip * 1_000_000 + dq.thigh * 1000 + dq.calf,
            },
            |rs: &Vec<Reading<i64>>| rs[0],
            |_: Reading<i64>, b: Reading<i64>| b,
        );
        (est.candidates_world(), est.height_m())
    };
    let (all, _) = seen(&q, &dq, [true; 4]);
    assert_eq!(all, [Some([3, 4, 5]), Some([0, 1, 2]), Some([9, 10, 11]), Some([6, 7, 8])]);
    let fl = seen(&q, &dq, [true, false, false, false]);
    assert_eq!(fl, ([Some([3, 4, 5]), None, None, None], 103_104_105));
    let mut other = q;
    for g in [0, 1, 2, 6, 7, 8, 9, 10, 11] {
        other[g] = -1;
    }
    assert_eq!(seen(&other, &dq, [true, false, false, false]), fl);
}

#[test]
fn the_bias_is_not_subtracted_at_rest() {
    let minus = |v: i64, b: i64| v - b;
    assert_eq!(velocity_input([300, 5, 7], Some(69), false, minus), [231, 5, 7]);
    assert_eq!(velocity_input([69, 5, 7], Some(69), true, minus), [69, 5, 7]);
    assert_eq!(velocity_input([300, 5, 7], None, false, minus), [300, 5, 7]);
}
