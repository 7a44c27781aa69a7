use go2_runner::run::Inference;
use go2_runner::sim::{contact_stance, home_pose, ContactTally, SimEvent, SimRun, SimStage};

fn step(run: &mut SimRun<u32>, event: SimEvent<u32>) {
    assert!(run.can_step());
    run.step(event);
}

fn cycle(run: &mut SimRun<u32>, outcome: Inference<u32>) {
    step(run, SimEvent::CycleStart { quit: false, time_up: false });
    step(run, SimEvent::Observed { fall: None });
    if run.order() == SimStage::Infer {
        step(run, SimEvent::Inferred(outcome));
    }
    if run.order() == SimStage::Exchange {
        step(run, SimEvent::Exchanged);
    }
}

#[test]
fn a_simulated_walk_asks_every_tenth_cycle() {
    let mut run = SimRun::new(0);
    for k in 0..21 {
        cycle(&mut run, Inference::Clean(k));
    }
    assert_eq!(run.held, 20);
    assert_eq!(run.cycles, 21);
    step(&mut run, SimEvent::CycleStart { quit: false, time_up: true });
    assert_eq!(run.order(), SimStage::Over);
    assert_eq!(run.verdict(), Ok(()));
}

#[test]
fn a_fall_ends_the_simulation() {
    let mut run = SimRun::new(0);
    step(&mut run, SimEvent::CycleStart { quit: false, time_up: false });
    step(&mut run, SimEvent::Observed { fall: Some("t=0.00s で転倒".to_string()) });
    assert_eq!(run.order(), SimStage::Over);
    step(&mut run, SimEvent::CycleStart { quit: false, time_up: false });
    assert_eq!(run.order(), SimStage::Over);
    assert_eq!(run.verdict(), Err("policy-sim: t=0.00s で転倒".to_string()));
}

#[test]
fn ten_faults_end_the_simulation() {
    let mut run = SimRun::new(5);
    for _ in 0..90 {
        cycle(&mut run, Inference::Anomalous);
    }
    assert_eq!((run.faults, run.held), (9, 5));
    cycle(&mut run, Inference::Failed);
    assert_eq!(run.order(), SimStage::Over);
    assert_eq!(run.verdict(), Err("policy-sim: 異常が連続したため中断".to_string()));
}

#[test]
fn the_summary_starts_after_two_seconds() {
    let mut run = SimRun::new(0);
    for _ in 0..1000 {
        assert!(!run.recording());
        cycle(&mut run, Inference::Clean(0));
    }
    assert!(run.recording());
}

#[test]
fn a_watched_simulation_keeps_real_time() {
    let mut run = SimRun::new(0);
    cycle(&mut run, Inference::Clean(0));
    assert_eq!(run.sleep_ns(1_000_000, true, false), Some(3_000_000));
    assert_eq!(run.sleep_ns(1_000_000, false, true), Some(3_000_000));
    assert_eq!(run.sleep_ns(1_000_000, false, false), None);
    assert_eq!(run.sleep_ns(4_000_001, true, true), None);
}

#[test]
fn missing_contacts_fall_back() {
    let contacts = vec![Some(false), None, Some(true)];
    assert_eq!(contact_stance(&contacts, true), [false, true, true, true]);
    assert_eq!(contact_stance(&contacts, false), [false, false, true, false]);
}

#[test]
fn the_physics_starts_in_the_default_pose() {
    let isaac: [u32; 12] = core::array::from_fn(|i| i as u32);
    let home = home_pose(&isaac);
    assert_eq!(home.len(), 12);
    assert_eq!(home[0], ("FL_hip_joint".to_string(), 0));
    assert_eq!(home[1], ("FL_thigh_joint".to_string(), 4));
    assert_eq!(home[2], ("FL_calf_joint".to_string(), 8));
    assert_eq!(home[3], ("FR_hip_joint".to_string(), 1));
    assert_eq!(home[11], ("RR_calf_joint".to_string(), 11));
}

#[test]
fn contacts_are_tallied_by_leg() {
    let mut tally = ContactTally::new();
    tally.count(&[Some(1), None, None, Some(2)]);
    tally.count(&[Some(1), Some(3), None, None]);
    assert_eq!(tally.cycles, 2);
    assert_eq!(tally.legs, [2, 1, 0, 1]);
}
