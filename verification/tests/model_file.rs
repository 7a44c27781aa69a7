use go2_runner::model_file::{misa_with_damping, neighbour_name, temporary_name};

const MODEL: &str = "[[joint]]\nname = \"FL_hip_joint\"\ntype = \"revolute\"\n  damping = 2.0\n\n[[joint]]\nname = \"FL_foot_fixed\"\ntype = \"fixed\"\ndamping = 0\n[[geom]]\n\tfriction = [0.8, 0.02, 0.01]\ndamping=3";

#[test]
fn moving_joints_are_damped_anew() {
    match misa_with_damping("go2.misa", MODEL, "0.1", None) {
        Ok(out) => {
            assert_eq!(out.joints, 2);
            assert_eq!(
                out.text,
                "[[joint]]\nname = \"FL_hip_joint\"\ntype = \"revolute\"\n  damping = 0.1\n\n[[joint]]\nname = \"FL_foot_fixed\"\ntype = \"fixed\"\ndamping = 0\n[[geom]]\n\tfriction = [0.8, 0.02, 0.01]\ndamping = 0.1\n"
            );
        }
        Err(e) => panic!("{e}"),
    }
}

#[test]
fn the_sliding_friction_is_replaced() {
    match misa_with_damping("go2.misa", MODEL, "2", Some("0.4")) {
        Ok(out) => {
            assert!(out.text.contains("\n\tfriction = [0.4, 0.02, 0.01]\n"));
            assert!(out.text.contains("\n  damping = 2\n"));
        }
        Err(e) => panic!("{e}"),
    }
}

#[test]
fn a_file_without_damping_is_refused() {
    for text in ["", "name = \"x\"\n", "type = \"fixed\"\ndamping = 0\n", "damping 2\n"] {
        match misa_with_damping("m/x.misa", text, "0.1", None) {
            Ok(_) => panic!("accepted {text:?}"),
            Err(e) => assert_eq!(e, "m/x.misa に damping の行が見つかりません"),
        }
    }
}

#[test]
fn changing_twice_is_changing_once() {
    let first = misa_with_damping("go2.misa", MODEL, "0.1", Some("0.4")).ok().map(|o| o.text);
    let again = first
        .as_deref()
        .and_then(|t| misa_with_damping("go2.misa", t, "0.5", Some("0.9")).ok())
        .map(|o| o.text);
    let direct = misa_with_damping("go2.misa", MODEL, "0.5", Some("0.9")).ok().map(|o| o.text);
    assert!(again.is_some());
    assert_eq!(again, direct);
}

#[test]
fn a_damped_line_may_end_in_a_carriage_return() {
    let once = match misa_with_damping("m", "damping = 2\r\r\nname = 1\r\n", "0.1", None) {
        Ok(out) => out.text,
        Err(e) => panic!("{e}"),
    };
    assert_eq!(once, "damping = 0.1\nname = 1\n");
    match misa_with_damping("m", &once, "0.1", None) {
        Ok(out) => assert_eq!(out.text, once),
        Err(e) => panic!("{e}"),
    }
}

#[test]
fn changed_files_are_named_after_their_stem() {
    assert_eq!(temporary_name(Some("go2"), "0.1"), "go2_damp0.1.misa");
    assert_eq!(neighbour_name(Some("go2"), "0.1"), ".go2_damp0.1.misa");
    assert_eq!(temporary_name(None, "2"), "model_damp2.misa");
}
