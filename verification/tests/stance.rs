use go2_runner::options::{parse, Args, Defaults, TrajectoryCfg};

fn number(text: &String) -> Result<f64, String> {
    text.parse::<f64>().map_err(|e| e.to_string())
}

/// The stance at a height: heights are bounded by what was measured, and the
/// turning gain falls with the height. The hips go along with it.
fn with_height(cfg: TrajectoryCfg<f64, f64>, height: f64) -> TrajectoryCfg<f64, f64> {
    let h = height.clamp(0.21, 0.31);
    TrajectoryCfg {
        yaw_stride_gain: Some(2.0 + 4.45 * (h - 0.30)),
        body_height: Some(h),
        other: h - 0.023,
        ..cfg
    }
}

fn defaults() -> Defaults<f64, f64> {
    let standard = TrajectoryCfg {
        stride_gain: 1.55,
        yaw_stride_gain: Some(2.0),
        body_height: Some(0.30),
        other: 0.277,
    };
    Defaults {
        standard,
        low_stance: with_height(standard, 0.22),
        zero: 0.0,
        viz_rate_hz: 100.0,
        cmd_accel: 0.5,
    }
}

fn read(args: &[&str]) -> Result<Args<f64, f64>, String> {
    let v: Vec<String> = args.iter().map(|s| s.to_string()).collect();
    parse(&v, None, &defaults(), number, with_height)
}

fn parse_ok(args: &[&str]) -> Args<f64, f64> {
    match read(args) {
        Ok(a) => a,
        Err(e) => panic!("{e}"),
    }
}

fn parse_err(args: &[&str]) -> String {
    match read(args) {
        Ok(_) => panic!("accepted"),
        Err(e) => e,
    }
}

/// Without a height flag the deploy standard is unchanged: 0.30 m, yaw 2.0.
#[test]
fn default_is_the_h30_standard() {
    let a = parse_ok(&["--model", "p.onnx"]);
    assert_eq!(a.cfg.body_height, Some(0.30));
    assert_eq!(a.cfg.yaw_stride_gain, Some(2.0));
}

/// --body-height recalibrates the yaw gain.
#[test]
fn body_height_recalibrates_the_yaw_gain() {
    let a = parse_ok(&["--model", "p.onnx", "--body-height", "0.24"]);
    assert_eq!(a.cfg.body_height, Some(0.24));
    assert!((a.cfg.yaw_stride_gain.unwrap() - 1.733).abs() < 1e-3);
    assert_eq!(a.cfg.stride_gain, 1.55);
}

/// --low-stance is the recommended 0.22 m configuration.
#[test]
fn low_stance_is_022() {
    let a = parse_ok(&["--model", "p.onnx", "--low-stance"]);
    assert_eq!(a.cfg.body_height, Some(0.22));
    assert!((a.cfg.yaw_stride_gain.unwrap() - 1.644).abs() < 1e-3);
}

/// An explicit --yaw-stride-gain wins over the schedule, in EITHER order.
#[test]
fn explicit_yaw_gain_wins_whatever_the_order() {
    for args in [
        vec!["--model", "p.onnx", "--body-height", "0.24", "--yaw-stride-gain", "2.0"],
        vec!["--model", "p.onnx", "--yaw-stride-gain", "2.0", "--body-height", "0.24"],
    ] {
        let a = parse_ok(&args);
        assert_eq!(a.cfg.body_height, Some(0.24), "{args:?}");
        assert_eq!(a.cfg.yaw_stride_gain, Some(2.0), "{args:?}");
    }
}

/// Heights outside the measured range are clamped, never extrapolated.
#[test]
fn out_of_range_height_is_clamped() {
    assert_eq!(
        parse_ok(&["--model", "p.onnx", "--body-height", "0.15"]).cfg.body_height,
        Some(0.21)
    );
    assert_eq!(
        parse_ok(&["--model", "p.onnx", "--body-height", "0.40"]).cfg.body_height,
        Some(0.31)
    );
}

#[test]
fn explicit_yaw_gain_outlives_the_low_stance() {
    let a = parse_ok(&["--yaw-stride-gain", "1.9", "--low-stance", "--model", "p.onnx"]);
    assert_eq!(a.cfg.body_height, Some(0.22));
    assert_eq!(a.cfg.yaw_stride_gain, Some(1.9));
}

#[test]
fn low_stance_keeps_the_stride_gain() {
    for args in [
        ["--model", "p.onnx", "--stride-gain", "1.2", "--low-stance"],
        ["--model", "p.onnx", "--low-stance", "--stride-gain", "1.2"],
    ] {
        let a = parse_ok(&args);
        assert_eq!(a.cfg.stride_gain, 1.2, "{args:?}");
        assert_eq!(a.cfg.body_height, Some(0.22), "{args:?}");
        assert!((a.cfg.yaw_stride_gain.unwrap() - 1.644).abs() < 1e-3, "{args:?}");
    }
}

#[test]
fn the_walking_command_line_is_read() {
    let a = parse_ok(&[
        "--model", "p.onnx", "--estimator-bias", "0.069", "--heading-hold", "2", "0.5", "--vx-max",
        "0.3",
    ]);
    assert_eq!(a.model, "p.onnx");
    assert_eq!(a.estimator_bias, Some(0.069));
    assert_eq!(a.heading_hold, Some((2.0, 0.5)));
    assert_eq!(a.vx_max, Some(0.3));
    assert_eq!(a.cmd_accel, 0.5);
    let b = parse_ok(&["--model", "p.onnx", "--cmd-accel", "0.8"]);
    assert_eq!(b.cmd_accel, 0.8);
    assert_eq!((b.estimator_bias, b.heading_hold), (None, None));
}

#[test]
fn the_heading_servo_needs_two_numbers() {
    let text = "--heading-hold に値がありません";
    assert_eq!(parse_err(&["--model", "p.onnx", "--heading-hold"]), text);
    assert_eq!(parse_err(&["--model", "p.onnx", "--heading-hold", "2"]), text);
    assert_eq!(
        parse_err(&["--model", "p.onnx", "--heading-hold", "x", "0.5"]),
        "--heading-hold: invalid float literal"
    );
    assert_eq!(
        parse_err(&["--model", "p.onnx", "--heading-hold", "2", "y"]),
        "--heading-hold: invalid float literal"
    );
    assert_eq!(
        parse_err(&["--estimator-bias", "x", "--cmd-accel"]),
        "--estimator-bias: invalid float literal"
    );
    assert_eq!(parse_err(&["--cmd-accel"]), "--cmd-accel に値がありません");
}

#[test]
fn the_yaw_gain_can_stand_anywhere() {
    let rest = ["--model", "p.onnx", "--stride-gain", "1.2", "--low-stance", "--body-height", "0.24"];
    let plain = parse_ok(&rest);
    for at in [0, 2, 4, 5, 7] {
        let mut args = rest.to_vec();
        args.insert(at, "1.9");
        args.insert(at, "--yaw-stride-gain");
        let a = parse_ok(&args);
        assert_eq!(a.cfg.yaw_stride_gain, Some(1.9), "{args:?}");
        assert_eq!(a.cfg.body_height, plain.cfg.body_height, "{args:?}");
        assert_eq!(a.cfg.stride_gain, plain.cfg.stride_gain, "{args:?}");
    }
}

#[test]
fn a_bare_model_leaves_the_defaults() {
    let a = parse_ok(&["--model", "p.onnx"]);
    assert_eq!(a.model, "p.onnx");
    assert_eq!(a.iface, None);
    assert_eq!((a.cmd0.vx, a.cmd0.vy, a.cmd0.wz), (0.0, 0.0, 0.0));
    assert_eq!(a.duration, None);
    assert!(!a.hold && a.keyboard && a.release && !a.sim && !a.viz);
    assert_eq!(a.misa, "models/unitree_go2/go2.misa");
    assert_eq!(a.viz_endpoint, None);
    assert_eq!(a.viz_rate_hz, 100.0);
    assert_eq!((a.friction, a.vx_max, a.impratio, a.joint_damping), (None, None, None, None));
    assert_eq!(a.cone, None);
    assert!(!a.odom_calibrated && !a.gru_host_velocity);
    assert_eq!(a.estimator, None);
}

#[test]
fn every_option_reaches_its_place() {
    let a = parse_ok(&[
        "--model", "a.onnx", "--iface", "eth0", "--vx", "0.1", "--vy", "-0.2", "--wz", "0.3",
        "--duration", "5", "--stride-gain", "1.4", "--yaw-stride-gain", "1.8", "--hold",
        "--no-keyboard", "--no-release", "--sim", "--misa", "m.misa", "--viz", "--viz-endpoint",
        "tcp/127.0.0.1:7447", "--viz-rate", "50", "--friction", "0.4", "--vx-max", "0.6",
        "--joint-damping", "2.0", "--odom-calibrated", "--estimator", "e.onnx",
        "--gru-host-velocity", "--impratio", "10", "--cone", "pyramidal",
    ]);
    assert_eq!(a.model, "a.onnx");
    assert_eq!(a.iface.as_deref(), Some("eth0"));
    assert_eq!((a.cmd0.vx, a.cmd0.vy, a.cmd0.wz), (0.1, -0.2, 0.3));
    assert_eq!(a.duration, Some(5.0));
    assert_eq!(a.cfg.stride_gain, 1.4);
    assert_eq!(a.cfg.yaw_stride_gain, Some(1.8));
    assert!(a.hold && !a.keyboard && !a.release && a.sim && a.viz);
    assert_eq!(a.misa, "m.misa");
    assert_eq!(a.viz_endpoint.as_deref(), Some("tcp/127.0.0.1:7447"));
    assert_eq!(a.viz_rate_hz, 50.0);
    assert_eq!(a.friction, Some(0.4));
    assert_eq!(a.vx_max, Some(0.6));
    assert_eq!(a.joint_damping, Some(2.0));
    assert!(a.odom_calibrated && a.gru_host_velocity);
    assert_eq!(a.estimator.as_deref(), Some("e.onnx"));
    assert_eq!(a.impratio, Some(10.0));
    assert_eq!(a.cone.as_deref(), Some("pyramidal"));
}

#[test]
fn the_given_interface_stands_in_for_the_option() {
    let v = vec!["--model".to_string(), "p.onnx".to_string()];
    let a = parse(&v, Some("eth1".to_string()), &defaults(), number, with_height);
    assert_eq!(a.ok().and_then(|a| a.iface).as_deref(), Some("eth1"));
}

#[test]
fn a_missing_value_is_named() {
    assert_eq!(parse_err(&["--model"]), "--model に値がありません");
    assert_eq!(parse_err(&["--model", "p.onnx", "--vx"]), "--vx に値がありません");
    assert_eq!(parse_err(&["--cone"]), "--cone に値がありません");
}

#[test]
fn a_value_that_is_no_number_is_named() {
    assert_eq!(
        parse_err(&["--model", "p.onnx", "--vx", "fast"]),
        "--vx: invalid float literal"
    );
}

#[test]
fn an_unknown_option_is_quoted() {
    assert_eq!(
        parse_err(&["--model", "p.onnx", "--fast\""]),
        "policy: 知らないオプション \"--fast\\\"\""
    );
}

#[test]
fn errors_come_in_the_order_of_the_command_line() {
    assert_eq!(parse_err(&["--vx", "fast", "--nope"]), "--vx: invalid float literal");
    assert_eq!(parse_err(&["--nope", "--vx", "fast"]), "policy: 知らないオプション \"--nope\"");
}

#[test]
fn a_model_is_required() {
    let text = "--model PATH は必須です（exported/policy.onnx。入力が 1 本なら幅で \
                39 = Natural / 73・76 = Pure、2 本なら GRU 契約（76 + 隠れ状態 128）。\
                GRU には --estimator も要ります）";
    assert_eq!(parse_err(&[]), text);
    assert_eq!(parse_err(&["--model", ""]), text);
}

#[test]
fn the_rest_of_the_stance_goes_with_the_height() {
    assert_eq!(parse_ok(&["--model", "p.onnx", "--stride-gain", "1.2"]).cfg.other, 0.277);
    let low = parse_ok(&["--model", "p.onnx", "--low-stance"]).cfg;
    assert_eq!(low.other, 0.22 - 0.023);
    let high = parse_ok(&["--model", "p.onnx", "--low-stance", "--body-height", "0.24"]).cfg;
    assert_eq!(high.other, 0.24 - 0.023);
}
