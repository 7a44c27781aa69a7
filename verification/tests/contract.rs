use go2_runner::contract::{
    check_options, check_sim_options, feed_forward, load, sim_speed_limit, Contract, Loaded,
    VelocitySource,
};

const ALL: [Contract; 5] = [
    Contract::Natural,
    Contract::Pure { wants_velocity: false },
    Contract::Pure { wants_velocity: true },
    Contract::Gru { host_velocity: false },
    Contract::Gru { host_velocity: true },
];

#[test]
fn contracts_have_names() {
    let names: Vec<&str> = ALL.iter().map(|c| c.name()).collect();
    assert_eq!(
        names,
        vec![
            "Natural (39 入力)",
            "Pure (73 入力)",
            "Pure (76 入力, 体速度推定つき)",
            "GRU (76 入力 + 隠れ状態 128, 凍結推定器)",
            "GRU (76 入力 + 隠れ状態 128, 脚オドメトリ)",
        ]
    );
}

#[test]
fn odometry_is_taken_by_two_contracts() {
    let takes: Vec<bool> = ALL.iter().map(|c| c.wants_velocity()).collect();
    assert_eq!(takes, vec![false, false, true, false, true]);
}

#[test]
fn all_but_the_natural_contract_crouch() {
    let crouch: Vec<bool> = ALL.iter().map(|c| c.is_crouch_contract()).collect();
    assert_eq!(crouch, vec![false, true, true, true, true]);
    assert_eq!(ALL[0].start_height(None, 30, 40), 40);
    assert_eq!(ALL[1].start_height(None, 30, 40), 30);
    assert_eq!(ALL[3].start_height(None, 30, 40), 30);
    assert_eq!(ALL[3].start_height(Some(22), 30, 40), 22);
}

#[test]
fn options_must_fit_the_contract() {
    assert_eq!(
        check_options(Contract::Natural, true, true),
        Err("--odom-calibrated は脚オドメトリを入力に使う契約専用です\
             （76 入力 Pure、または --gru-host-velocity の GRU）"
            .to_string())
    );
    assert_eq!(
        check_options(ALL[2], true, true),
        Err("--estimator は GRU 契約（2 入力グラフ）専用です".to_string())
    );
    assert_eq!(check_options(ALL[2], true, false), Ok(()));
    assert_eq!(check_options(ALL[3], false, true), Ok(()));
    assert_eq!(check_options(ALL[4], true, true), Ok(()));
    assert_eq!(check_options(ALL[0], false, false), Ok(()));
}

#[test]
fn simulated_calibration_must_fit_the_contract() {
    assert_eq!(
        check_sim_options(ALL[1], true),
        Err("--odom-calibrated は76入力Pureポリシー専用です".to_string())
    );
    assert_eq!(check_sim_options(ALL[2], true), Ok(()));
    assert_eq!(check_sim_options(ALL[1], false), Ok(()));
}

#[test]
fn the_simulator_limits_speed_only_when_heavily_damped() {
    assert_eq!(sim_speed_limit(Some(9), false, true, 6), Some(9));
    assert_eq!(sim_speed_limit(None, false, true, 6), Some(6));
    assert_eq!(sim_speed_limit(None, true, true, 6), None);
    assert_eq!(sim_speed_limit(None, false, false, 6), None);
}

type Outcome = Result<Loaded<&'static str, String, usize>, String>;

fn loaded(
    arity: Result<usize, String>,
    host: bool,
    estimator: Option<&str>,
    recurrent: Result<&'static str, String>,
    fits: &[usize],
) -> Outcome {
    load(
        arity,
        host,
        &estimator.map(|s| s.to_string()),
        || recurrent.clone(),
        |path: &String| {
            if path == "bad" {
                Err("bad estimator".to_string())
            } else {
                Ok(path.clone())
            }
        },
        |n: usize| if fits.contains(&n) { Ok(n) } else { Err(format!("no {n}")) },
    )
}

#[test]
fn two_inputs_are_recurrent_whatever_the_width() {
    assert!(matches!(
        loaded(Ok(2), false, Some("e"), Ok("net"), &[76]),
        Ok(Loaded::Gru("net", VelocitySource::Estimator(e))) if e == "e"
    ));
    assert!(matches!(
        loaded(Ok(2), true, None, Ok("net"), &[76]),
        Ok(Loaded::Gru("net", VelocitySource::Host))
    ));
}

#[test]
fn recurrent_policies_need_one_source_of_velocity() {
    assert_eq!(
        loaded(Ok(2), true, Some("e"), Ok("net"), &[]).err().as_deref(),
        Some("--gru-host-velocity と --estimator は同時に使えません")
    );
    assert_eq!(
        loaded(Ok(2), false, None, Ok("net"), &[]).err().as_deref(),
        Some(
            "GRU 契約（2 入力グラフ）には --estimator PATH が要ります\
             （6×73 → 3 の凍結速度推定器。脚オドメトリで代用するなら \
             --gru-host-velocity を明示してください）"
        )
    );
}

#[test]
fn loading_errors_come_through() {
    assert_eq!(loaded(Err("no file".into()), true, None, Ok("net"), &[]).err().as_deref(), Some("no file"));
    assert_eq!(
        loaded(Ok(2), true, Some("e"), Err("torn".into()), &[]).err().as_deref(),
        Some("torn")
    );
    assert_eq!(
        loaded(Ok(2), false, Some("bad"), Ok("net"), &[]).err().as_deref(),
        Some("bad estimator")
    );
}

#[test]
fn plain_networks_are_tried_narrowest_first() {
    assert!(matches!(loaded(Ok(1), false, None, Ok(""), &[39, 73]), Ok(Loaded::Natural(39))));
    assert!(matches!(loaded(Ok(1), false, None, Ok(""), &[73, 76]), Ok(Loaded::Pure(73))));
    assert!(matches!(loaded(Ok(1), false, None, Ok(""), &[76]), Ok(Loaded::Pure(76))));
    assert_eq!(
        loaded(Ok(3), false, None, Ok(""), &[]).err().as_deref(),
        Some(
            "--model は 39/73/76 入力のいずれとしても読めません — \
             39: no 39 / 73: no 73 / 76: no 76"
        )
    );
}

#[test]
fn only_a_walking_reference_gait_feeds_forward() {
    let support = || [7i32; 12];
    assert_eq!(feed_forward(Contract::Natural, false, 0, support), [7; 12]);
    assert_eq!(feed_forward(Contract::Natural, true, 0, support), [0; 12]);
    for contract in [
        Contract::Pure { wants_velocity: true },
        Contract::Pure { wants_velocity: false },
        Contract::Gru { host_velocity: false },
    ] {
        assert_eq!(feed_forward(contract, false, 0, support), [0; 12]);
    }
}
