use go2_runner::joints::{
    go2_to_isaac_order, isaac_to_go2_order, isaac_to_misa_order, legs_of, misa_to_go2_order,
    misa_to_isaac, GO2_TO_ISAAC, ISAAC_TO_GO2, MISA_LEG_TO_GO2_FOOT, MISA_TO_GO2,
};

/// FL is motors 3 to 5, FR 0 to 2, RL 9 to 11, RR 6 to 8.
#[test]
fn misa_to_go2_is_the_documented_table() {
    assert_eq!(MISA_TO_GO2[0..3], [3, 4, 5], "FL");
    assert_eq!(MISA_TO_GO2[3..6], [0, 1, 2], "FR");
    assert_eq!(MISA_TO_GO2[6..9], [9, 10, 11], "RL");
    assert_eq!(MISA_TO_GO2[9..12], [6, 7, 8], "RR");
    // No motor twice.
    let mut seen = [false; 12];
    for g in MISA_TO_GO2 {
        assert!(!seen[g]);
        seen[g] = true;
    }
}

#[test]
fn isaac_and_misa_tables_agree_on_the_robot() {
    let go2_to_misa = {
        let mut inv = [0usize; 12];
        for (m, g) in MISA_TO_GO2.iter().enumerate() {
            inv[*g] = m;
        }
        inv
    };
    for isaac in 0..12 {
        let misa = go2_to_misa[ISAAC_TO_GO2[isaac]];
        let (leg, kind) = (misa / 3, misa % 3);
        assert_eq!(kind, isaac / 4, "isaac {isaac} joint kind");
        assert_eq!(leg, isaac % 4, "isaac {isaac} leg");
    }
}

#[test]
fn isaac_tables_undo_each_other() {
    for i in 0..12 {
        assert_eq!(GO2_TO_ISAAC[ISAAC_TO_GO2[i]], i);
        assert_eq!(ISAAC_TO_GO2[GO2_TO_ISAAC[i]], i);
    }
}

#[test]
fn misa_axes_have_their_isaac_index() {
    let all: Vec<usize> = (0..12).map(misa_to_isaac).collect();
    assert_eq!(all, vec![0, 4, 8, 1, 5, 9, 2, 6, 10, 3, 7, 11]);
}

#[test]
fn feet_follow_their_legs() {
    assert_eq!(MISA_LEG_TO_GO2_FOOT, [1, 0, 3, 2]);
}

#[test]
fn isaac_order_reaches_the_motors_and_comes_back() {
    let isaac: [u32; 12] = core::array::from_fn(|i| i as u32);
    let go2 = isaac_to_go2_order(&isaac);
    assert_eq!(go2, [1, 5, 9, 0, 4, 8, 3, 7, 11, 2, 6, 10]);
    assert_eq!(go2_to_isaac_order(&go2), isaac);
}

#[test]
fn misa_order_reaches_the_motors() {
    let misa: [u32; 12] = core::array::from_fn(|i| i as u32);
    assert_eq!(misa_to_go2_order(&misa), [3, 4, 5, 0, 1, 2, 9, 10, 11, 6, 7, 8]);
}

#[test]
fn isaac_order_is_cut_into_legs() {
    let isaac: [u32; 12] = core::array::from_fn(|i| i as u32);
    let legs = legs_of(&isaac_to_misa_order(&isaac));
    assert_eq!(legs, [[0, 4, 8], [1, 5, 9], [2, 6, 10], [3, 7, 11]]);
}
