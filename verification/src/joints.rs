//! The joint orders of the robot and the way between them.
//!
//! Twelve joints, in three orders:
//!
//! - *misa*: legs FL, FR, RL, RR, each hip, thigh, calf;
//! - *Go2*: the motor order of the robot's own bus, legs FR, FL, RR, RL, each
//!   hip, thigh, calf;
//! - *Isaac*: the order of the learned policies, all hips, then all thighs, then
//!   all calves, each FL, FR, RL, RR.
//!
//! A slip of one place moves another leg, so the tables are fixed and every
//! reordering is stated element by element.

use vstd::prelude::*;

verus! {

/// misa axis index to Go2 motor index.
pub const MISA_TO_GO2: [usize; 12] = [3, 4, 5, 0, 1, 2, 9, 10, 11, 6, 7, 8];

/// misa leg (FL, FR, RL, RR) to the index in Go2's `foot_force` (FR, FL, RR, RL).
pub const MISA_LEG_TO_GO2_FOOT: [usize; 4] = [1, 0, 3, 2];

/// Isaac index to Go2 motor index.
pub const ISAAC_TO_GO2: [usize; 12] = [3, 0, 9, 6, 4, 1, 10, 7, 5, 2, 11, 8];

/// Go2 motor index to Isaac index.
pub const GO2_TO_ISAAC: [usize; 12] = [1, 5, 9, 0, 4, 8, 3, 7, 11, 2, 6, 10];

/// The Isaac index of a misa axis: joint kind first, then leg.
pub open spec fn isaac_index(misa: int) -> int {
    (misa % 3) * 4 + misa / 3
}

/// The Isaac index of a misa axis.
pub fn misa_to_isaac(i: usize) -> (isaac: usize)
    ensures
        isaac == isaac_index(i as int),
{
    (i % 3) * 4 + i / 3
}

/// Whether a table sends `0..n` onto `0..n`, one to one.
pub open spec fn is_permutation(table: Seq<usize>, n: int) -> bool {
    &&& table.len() == n
    &&& forall|i: int| 0 <= i < n ==> 0 <= #[trigger] table[i] < n
    &&& forall|i: int, j: int| 0 <= i < n && 0 <= j < n && i != j ==> table[i] != table[j]
}

/// Whether `to` holds at `table[i]` what `from` holds at `i`.
pub open spec fn reordered<N>(table: Seq<usize>, from: Seq<N>, to: Seq<N>) -> bool {
    &&& from.len() == table.len()
    &&& to.len() == table.len()
    &&& forall|i: int| 0 <= i < table.len() ==> to[table[i] as int] == #[trigger] from[i]
}

/// Values in Isaac order, put in Go2 motor order.
pub fn isaac_to_go2_order<N: Copy>(isaac: &[N; 12]) -> (go2: [N; 12])
    ensures
        reordered(ISAAC_TO_GO2@, isaac@, go2@),
{
    let mut go2 = *isaac;
    for i in 0..12usize
        invariant
            forall|j: int| 0 <= j < i ==> go2@[ISAAC_TO_GO2@[j] as int] == #[trigger] isaac@[j],
    {
        go2[ISAAC_TO_GO2[i]] = isaac[i];
    }
    go2
}

/// Values in Go2 motor order, put in Isaac order.
pub fn go2_to_isaac_order<N: Copy>(go2: &[N; 12]) -> (isaac: [N; 12])
    ensures
        reordered(GO2_TO_ISAAC@, go2@, isaac@),
{
    let mut isaac = *go2;
    for g in 0..12usize
        invariant
            forall|j: int| 0 <= j < g ==> isaac@[GO2_TO_ISAAC@[j] as int] == #[trigger] go2@[j],
    {
        isaac[GO2_TO_ISAAC[g]] = go2[g];
    }
    isaac
}

/// Values in misa order, put in Go2 motor order.
pub fn misa_to_go2_order<N: Copy>(misa: &[N; 12]) -> (go2: [N; 12])
    ensures
        reordered(MISA_TO_GO2@, misa@, go2@),
{
    let mut go2 = *misa;
    for i in 0..12usize
        invariant
            forall|j: int| 0 <= j < i ==> go2@[MISA_TO_GO2@[j] as int] == #[trigger] misa@[j],
    {
        go2[MISA_TO_GO2[i]] = misa[i];
    }
    go2
}

/// Whether values in Isaac order were put in misa order.
pub open spec fn in_misa_order<N>(isaac: Seq<N>, misa: Seq<N>) -> bool {
    forall|i: int| 0 <= i < 12 ==> #[trigger] misa[i] == isaac[isaac_index(i)]
}

/// Whether values in misa order were cut into legs of hip, thigh and calf.
pub open spec fn cut_into_legs<N>(misa: Seq<N>, legs: Seq<[N; 3]>) -> bool {
    forall|leg: int, j: int|
        0 <= leg < 4 && 0 <= j < 3 ==> #[trigger] legs[leg]@[j] == misa[3 * leg + j]
}

/// Values in Isaac order, put in misa order.
pub fn isaac_to_misa_order<N: Copy>(isaac: &[N; 12]) -> (misa: [N; 12])
    ensures
        in_misa_order(isaac@, misa@),
        forall|i: int| 0 <= i < 12 ==> #[trigger] misa@[i] == isaac@[isaac_index(i)],
{
    let mut misa = *isaac;
    for i in 0..12usize
        invariant
            forall|j: int| 0 <= j < i ==> #[trigger] misa@[j] == isaac@[isaac_index(j)],
    {
        misa[i] = isaac[misa_to_isaac(i)];
    }
    misa
}

/// Values in misa order, cut into legs of hip, thigh and calf.
pub fn legs_of<N: Copy>(misa: &[N; 12]) -> (legs: [[N; 3]; 4])
    ensures
        cut_into_legs(misa@, legs@),
        forall|leg: int, j: int|
            0 <= leg < 4 && 0 <= j < 3 ==> #[trigger] legs@[leg]@[j] == misa@[3 * leg + j],
{
    [
        [misa[0], misa[1], misa[2]],
        [misa[3], misa[4], misa[5]],
        [misa[6], misa[7], misa[8]],
        [misa[9], misa[10], misa[11]],
    ]
}

/// The joints of one leg.
#[derive(Clone, Copy)]
pub struct LegJoints<N> {
    pub hip: N,
    pub thigh: N,
    pub calf: N,
}

/// The joints of a leg (FL, FR, RL, RR), out of values in Go2 motor order.
pub open spec fn joints_of_leg<N>(go2: Seq<N>, leg: int) -> LegJoints<N> {
    LegJoints {
        hip: go2[MISA_TO_GO2@[3 * leg] as int],
        thigh: go2[MISA_TO_GO2@[3 * leg + 1] as int],
        calf: go2[MISA_TO_GO2@[3 * leg + 2] as int],
    }
}

/// The joints of a leg, out of values in Go2 motor order.
pub fn leg_joints<N: Copy>(go2: &[N; 12], leg: usize) -> (joints: LegJoints<N>)
    requires
        leg < 4,
    ensures
        joints == joints_of_leg(go2@, leg as int),
{
    LegJoints {
        hip: go2[MISA_TO_GO2[3 * leg]],
        thigh: go2[MISA_TO_GO2[3 * leg + 1]],
        calf: go2[MISA_TO_GO2[3 * leg + 2]],
    }
}

/// The documented bases: FL drives motors 3 to 5, FR 0 to 2, RL 9 to 11, RR 6
/// to 8, hip first.
pub proof fn law_misa_table_is_the_documented_one(leg: int, joint: int)
    requires
        0 <= leg < 4,
        0 <= joint < 3,
    ensures
        MISA_TO_GO2@[3 * leg + joint] == 3 * MISA_LEG_TO_GO2_FOOT@[leg] + joint,
{
}

/// Each table is a permutation: no two joints share a motor, no two legs a
/// force sensor.
pub proof fn law_tables_are_permutations()
    ensures
        is_permutation(MISA_TO_GO2@, 12),
        is_permutation(ISAAC_TO_GO2@, 12),
        is_permutation(GO2_TO_ISAAC@, 12),
        is_permutation(MISA_LEG_TO_GO2_FOOT@, 4),
{
}

/// The two Isaac tables undo each other.
pub proof fn law_isaac_tables_are_inverse(i: int)
    requires
        0 <= i < 12,
    ensures
        GO2_TO_ISAAC@[ISAAC_TO_GO2@[i] as int] == i,
        ISAAC_TO_GO2@[GO2_TO_ISAAC@[i] as int] == i,
{
}

/// The Isaac table and the misa table speak of the same robot: a misa axis and
/// its Isaac index reach the same motor, and the Isaac index splits into the
/// axis' joint kind and leg.
pub proof fn law_orders_agree_on_the_robot(misa: int)
    requires
        0 <= misa < 12,
    ensures
        0 <= isaac_index(misa) < 12,
        ISAAC_TO_GO2@[isaac_index(misa)] == MISA_TO_GO2@[misa],
        isaac_index(misa) / 4 == misa % 3,
        isaac_index(misa) % 4 == misa / 3,
{
}

/// Going from Isaac order to Go2 order and back changes nothing, and so does
/// the way round that starts in Go2 order.
pub proof fn law_reordering_round_trips<N>(a: Seq<N>, b: Seq<N>, c: Seq<N>)
    ensures
        reordered(ISAAC_TO_GO2@, a, b) && reordered(GO2_TO_ISAAC@, b, c) ==> c == a,
        reordered(GO2_TO_ISAAC@, a, b) && reordered(ISAAC_TO_GO2@, b, c) ==> c == a,
{
    if reordered(ISAAC_TO_GO2@, a, b) && reordered(GO2_TO_ISAAC@, b, c) {
        assert forall|i: int| 0 <= i < 12 implies c[i] == a[i] by {
            let g = ISAAC_TO_GO2@[i] as int;
            assert(b[g] == a[i]);
            assert(c[GO2_TO_ISAAC@[g] as int] == b[g]);
        }
        assert(c =~= a);
    }
    if reordered(GO2_TO_ISAAC@, a, b) && reordered(ISAAC_TO_GO2@, b, c) {
        assert forall|g: int| 0 <= g < 12 implies c[g] == a[g] by {
            let i = GO2_TO_ISAAC@[g] as int;
            assert(b[i] == a[g]);
            assert(c[ISAAC_TO_GO2@[i] as int] == b[i]);
        }
        assert(c =~= a);
    }
}

/// The feet are told apart by side: each pair of legs is swapped, left for right.
pub proof fn law_foot_table_swaps_the_sides(leg: int)
    requires
        0 <= leg < 4,
    ensures
        MISA_LEG_TO_GO2_FOOT@[leg] == (if leg % 2 == 0 {
            leg + 1
        } else {
            leg - 1
        }),
{
}

/// A reordering loses nothing and makes nothing up: each value is found at the place
/// that the table gives for its own.
pub proof fn law_reordering_moves_each_value<N>(
    table: Seq<usize>,
    from: Seq<N>,
    to: Seq<N>,
    i: int,
)
    requires
        reordered(table, from, to),
        0 <= i < table.len(),
    ensures
        to[table[i] as int] == from[i],
        from.len() == table.len(),
        to.len() == table.len(),
{
    assert(to[table[i] as int] == from[i]);
}

/// A leg's joints are three motors in a row, hip first: FL reads 3 to 5, FR 0 to 2, RL
/// 9 to 11, RR 6 to 8.
pub proof fn law_legs_read_their_own_motors<N>(go2: Seq<N>)
    ensures
        joints_of_leg(go2, 0) == (LegJoints { hip: go2[3], thigh: go2[4], calf: go2[5] }),
        joints_of_leg(go2, 1) == (LegJoints { hip: go2[0], thigh: go2[1], calf: go2[2] }),
        joints_of_leg(go2, 2) == (LegJoints { hip: go2[9], thigh: go2[10], calf: go2[11] }),
        joints_of_leg(go2, 3) == (LegJoints { hip: go2[6], thigh: go2[7], calf: go2[8] }),
{
}

/// The ways from Isaac order agree: what an axis gets directly is what its motor gets by
/// way of Go2 order.
pub proof fn law_both_ways_from_isaac_agree<N>(isaac: Seq<N>, misa: Seq<N>, go2: Seq<N>, axis: int)
    requires
        in_misa_order(isaac, misa),
        reordered(ISAAC_TO_GO2@, isaac, go2),
        0 <= axis < 12,
    ensures
        misa[axis] == go2[MISA_TO_GO2@[axis] as int],
        misa[axis] == isaac[(axis % 3) * 4 + axis / 3],
{
    law_orders_agree_on_the_robot(axis);
    assert(misa[axis] == isaac[isaac_index(axis)]);
}

/// Cutting into legs loses nothing: the legs put end to end are the row that was cut.
pub proof fn law_legs_put_end_to_end<N>(misa: Seq<N>, legs: Seq<[N; 3]>)
    requires
        misa.len() == 12,
        legs.len() == 4,
        cut_into_legs(misa, legs),
    ensures
        legs[0]@ + legs[1]@ + legs[2]@ + legs[3]@ == misa,
{
    let whole = legs[0]@ + legs[1]@ + legs[2]@ + legs[3]@;
    assert forall|i: int| 0 <= i < 12 implies whole[i] == misa[i] by {
        let leg = i / 3;
        let j = i % 3;
        assert(legs[leg]@[j] == misa[3 * leg + j]);
    }
    assert(whole =~= misa);
}

} // verus!
