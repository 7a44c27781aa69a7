use go2_runner::backend::{
    iface_from_env, release_wanted, truth_velocity_wanted, GaitSelect, Go2Backend, HoldPilot,
    Listener, ModeRequest,
};

#[test]
fn only_the_go2_profile_is_served() {
    assert_eq!(Go2Backend.connect("go2", Some(5)), Some(5));
    assert_eq!(Go2Backend.connect("go1", Some(5)), None);
    assert_eq!(Go2Backend.connect::<i32>("go2", None), None);
}

#[test]
fn a_look_needs_gains() {
    assert_eq!(Go2Backend.diagnose("go2", Some(5)), Some(Ok(5)));
    assert_eq!(Go2Backend.diagnose("keel", Some(5)), None);
    assert_eq!(
        Go2Backend.diagnose::<i32>("go2", None),
        Some(Err("kind = \"ros2\" のプロファイルではありません".to_string()))
    );
}

#[test]
fn the_hold_pilot_stands() {
    let intent = HoldPilot.poll(17u64);
    assert_eq!(intent.time, 17);
    assert_eq!(intent.mode, ModeRequest::Stand);
    assert_eq!(intent.gait, GaitSelect::Crawl);
    assert!(intent.link_ok);
    assert_eq!(HoldPilot.status_line(), "HoldPilot（速度 0 保持。操縦は --pilot keys）");
}

#[test]
fn an_empty_interface_is_none() {
    assert_eq!(iface_from_env(Some("eth0".to_string())).as_deref(), Some("eth0"));
    assert_eq!(iface_from_env(Some(String::new())), None);
    assert_eq!(iface_from_env(None), None);
}

#[test]
fn only_one_forbids_the_release() {
    assert!(release_wanted(&None));
    assert!(!release_wanted(&Some("1".to_string())));
    assert!(release_wanted(&Some("0".to_string())));
    assert!(release_wanted(&Some(String::new())));
}

#[test]
fn only_one_asks_for_the_true_velocity() {
    assert!(truth_velocity_wanted(&Some("1".to_string())));
    assert!(!truth_velocity_wanted(&Some("true".to_string())));
    assert!(!truth_velocity_wanted(&Some(String::new())));
    assert!(!truth_velocity_wanted(&None));
}

#[test]
fn a_listener_counts_until_its_time_is_up() {
    let mut listener = Listener::new();
    assert!(listener.heard(true, 5, 10));
    assert!(listener.heard(false, 9, 10));
    assert!(!listener.heard(true, 10, 10));
    assert_eq!(listener.count, 2);
    assert!(!Listener::new().heard(false, 0, 0));
}
