use go2_runner::run::{
    judge, Event, Inference, Order, PolicyRun, Stage, CONTROL_PERIOD_NS, FOLD_TICKS, LIE_TICKS,
    MAX_FRAMES, RAMP_TICKS, SETTLE_TICKS,
};

fn fresh() -> Event<u32> {
    Event::Observed { age_ns: 1_000_000, tilt: None }
}

fn stale() -> Event<u32> {
    Event::Observed { age_ns: 20_000_001, tilt: None }
}

fn step(run: &mut PolicyRun<u32>, event: Event<u32>) {
    assert!(run.can_step());
    run.step(event);
}

/// A run that has just begun to walk, holding the command 7.
fn walking(hold: bool) -> PolicyRun<u32> {
    let mut run = PolicyRun::new(hold);
    while run.order() != Order::Enter {
        step(&mut run, Event::FrameSent);
    }
    step(&mut run, Event::Entered(7));
    run
}

/// One cycle; `outcome` answers an inference where one is asked for.
fn cycle(run: &mut PolicyRun<u32>, seen: Event<u32>, outcome: Inference<u32>) {
    assert_eq!(run.order(), Order::CheckStop);
    step(run, Event::CycleStart { quit: false, time_up: false });
    assert_eq!(run.order(), Order::Observe);
    step(run, seen);
    if run.order() == Order::Infer {
        step(run, Event::Inferred(outcome));
    }
    if run.order() == Order::WalkFrame {
        step(run, Event::FrameSent);
    }
}

/// Sends frames until nothing is left to do, and counts them.
fn finish(run: &mut PolicyRun<u32>) -> u64 {
    let before = run.sent;
    while run.order() != Order::LimpFrame {
        step(run, Event::FrameSent);
    }
    step(run, Event::LimpSent);
    assert_eq!(run.order(), Order::Finish);
    run.sent - before
}

#[test]
fn the_start_is_a_ramp_and_a_rest() {
    let mut run: PolicyRun<u32> = PolicyRun::new(false);
    for i in 0..1500 {
        assert_eq!(run.order(), Order::RampFrame { step: i, steps: 1500 });
        step(&mut run, Event::FrameSent);
    }
    for _ in 0..250 {
        assert_eq!(run.order(), Order::DefaultFrame);
        step(&mut run, Event::FrameSent);
    }
    assert_eq!(run.order(), Order::Enter);
    assert_eq!(run.sent, RAMP_TICKS + SETTLE_TICKS);
}

#[test]
fn the_policy_is_asked_every_tenth_cycle() {
    let mut run = walking(false);
    let mut asked = Vec::new();
    for k in 0..25u64 {
        step(&mut run, Event::CycleStart { quit: false, time_up: false });
        step(&mut run, fresh());
        if run.order() == Order::Infer {
            asked.push(k);
            step(&mut run, Event::Inferred(Inference::Clean(k as u32)));
        }
        assert_eq!(run.order(), Order::WalkFrame);
        step(&mut run, Event::FrameSent);
    }
    assert_eq!(asked, vec![0, 10, 20]);
    assert_eq!(run.held, Some(20));
    assert_eq!(run.cycles, 25);
}

#[test]
fn holding_never_asks_the_policy() {
    let mut run = walking(true);
    for _ in 0..30 {
        step(&mut run, Event::CycleStart { quit: false, time_up: false });
        step(&mut run, stale());
        assert_eq!(run.order(), Order::WalkFrame);
        step(&mut run, Event::FrameSent);
    }
    assert_eq!(run.held, Some(7));
    assert!(run.abort.is_none());
}

#[test]
fn nine_faults_are_forgiven_and_ten_are_not() {
    let mut run = walking(false);
    for k in 0..90 {
        cycle(&mut run, fresh(), if k % 20 == 0 { Inference::Failed } else { Inference::Anomalous });
    }
    assert_eq!(run.faults, 9);
    assert_eq!(run.held, Some(7));
    let mut forgiven = walking(false);
    for _ in 0..90 {
        cycle(&mut forgiven, fresh(), Inference::Failed);
    }
    cycle(&mut forgiven, fresh(), Inference::Clean(8));
    assert_eq!(forgiven.faults, 0);
    assert_eq!(forgiven.held, Some(8));
    cycle(&mut run, fresh(), Inference::Failed);
    assert_eq!(run.order(), Order::FoldFrame { step: 0, steps: FOLD_TICKS });
    assert_eq!(finish(&mut run), FOLD_TICKS + LIE_TICKS);
    assert_eq!(run.verdict(), Err("policy: 異常が連続したため中断しました".to_string()));
}

#[test]
fn stale_states_count_as_faults() {
    let mut run = walking(false);
    cycle(&mut run, stale(), Inference::Clean(1));
    assert_eq!(run.faults, 1);
    assert_eq!(run.held, Some(7));
    for _ in 0..8 {
        cycle(&mut run, stale(), Inference::Failed);
    }
    assert_eq!(run.faults, 9);
    cycle(&mut run, fresh(), Inference::Failed);
    cycle(&mut run, fresh(), Inference::Failed);
    assert!(matches!(run.stage, Stage::Fold(0)));
    let mut limit = walking(false);
    cycle(&mut limit, Event::Observed { age_ns: 20_000_000, tilt: None }, Inference::Clean(1));
    cycle(&mut limit, Event::Observed { age_ns: 20_000_000, tilt: None }, Inference::Clean(1));
    assert_eq!(limit.faults, 0);
}

#[test]
fn a_dead_observation_ends_the_walk() {
    let mut run = walking(false);
    for _ in 0..13 {
        cycle(&mut run, fresh(), Inference::Clean(1));
    }
    let mut cycles = 0;
    while run.abort.is_none() {
        cycle(&mut run, stale(), Inference::Clean(2));
        cycles += 1;
        assert!(cycles <= 20);
    }
    // Stale from cycle 13 on: eight faults at cycle 20, ten and more at cycle 30.
    assert_eq!(cycles, 18);
    assert_eq!(run.held, Some(1));
    assert_eq!(finish(&mut run), FOLD_TICKS + LIE_TICKS);
    assert_eq!(run.verdict(), Err("policy: 異常が連続したため中断しました".to_string()));
}

#[test]
fn a_fresh_state_forgives_stale_ones() {
    let mut run = walking(false);
    cycle(&mut run, fresh(), Inference::Clean(1));
    for _ in 0..9 {
        cycle(&mut run, stale(), Inference::Clean(2));
    }
    assert_eq!(run.faults, 9);
    cycle(&mut run, fresh(), Inference::Clean(3));
    assert_eq!(run.faults, 0);
    assert_eq!(run.held, Some(3));
    assert!(run.abort.is_none());
}

#[test]
fn a_tilt_goes_limp_at_once() {
    let mut run = walking(false);
    cycle(&mut run, fresh(), Inference::Clean(1));
    step(&mut run, Event::CycleStart { quit: false, time_up: false });
    step(&mut run, Event::Observed { age_ns: 0, tilt: Some("36".to_string()) });
    assert_eq!(run.order(), Order::LimpFrame);
    step(&mut run, Event::FrameSent);
    assert_eq!(run.order(), Order::LimpFrame);
    assert_eq!(finish(&mut run), 0);
    assert_eq!(run.verdict(), Err("policy: 傾き 36° — 脱力して中断しました".to_string()));
}

#[test]
fn stopping_lies_down_first() {
    for (quit, time_up) in [(true, false), (false, true)] {
        let mut run = walking(false);
        for _ in 0..3 {
            cycle(&mut run, fresh(), Inference::Clean(1));
        }
        step(&mut run, Event::CycleStart { quit, time_up });
        assert_eq!(finish(&mut run), FOLD_TICKS + LIE_TICKS);
        assert_eq!(run.sent, RAMP_TICKS + SETTLE_TICKS + 3 + FOLD_TICKS + LIE_TICKS);
        assert_eq!(run.verdict(), Ok(()));
    }
}

#[test]
fn deadlines_are_absolute() {
    let mut run: PolicyRun<u32> = PolicyRun::new(false);
    assert_eq!(run.sleep_ns(0), Some(0));
    for _ in 0..3 {
        step(&mut run, Event::FrameSent);
    }
    assert_eq!(CONTROL_PERIOD_NS, 2_000_000);
    assert_eq!(run.sleep_ns(4_500_000), Some(1_500_000));
    assert_eq!(run.sleep_ns(6_000_000), Some(0));
    assert_eq!(run.sleep_ns(6_000_001), None);
}

#[test]
fn events_out_of_place_change_nothing() {
    let mut run = walking(false);
    step(&mut run, Event::FrameSent);
    step(&mut run, Event::LimpSent);
    step(&mut run, Event::Inferred(Inference::Clean(9)));
    assert_eq!(run.order(), Order::CheckStop);
    assert_eq!(run.held, Some(7));
    assert_eq!(run.sent, RAMP_TICKS + SETTLE_TICKS);
}

#[test]
fn anomalies_are_faults() {
    assert!(matches!(judge(5, 0), Inference::Clean(5)));
    assert!(matches!(judge(5, 1), Inference::Anomalous));
    assert!(matches!(judge(5, 9), Inference::Anomalous));
}

#[test]
fn a_run_at_its_limit_still_lies_down() {
    let mut run = walking(false);
    assert!(!run.running_out());
    run.cycles = MAX_FRAMES - RAMP_TICKS - SETTLE_TICKS - FOLD_TICKS - LIE_TICKS - 2;
    run.sent = RAMP_TICKS + SETTLE_TICKS + run.cycles;
    assert!(!run.running_out());
    cycle(&mut run, fresh(), Inference::Clean(1));
    assert!(run.running_out());
    step(&mut run, Event::CycleStart { quit: false, time_up: true });
    assert_eq!(finish(&mut run), FOLD_TICKS + LIE_TICKS);
    assert_eq!(run.verdict(), Ok(()));
}

#[test]
fn a_holding_run_is_bounded_by_its_faults_alone() {
    let mut run = walking(true);
    run.cycles = u32::MAX as u64 + 5;
    run.sent = RAMP_TICKS + SETTLE_TICKS + run.cycles;
    assert!(run.can_step() && !run.running_out());
    run.faults = u32::MAX - 1;
    assert!(run.can_step() && run.running_out());
    run.faults = u32::MAX;
    assert!(!run.can_step());
}
