//! Body velocity and height from the legs that stand.
//!
//! A foot that stands does not move in the world, so each standing leg tells the
//! body's velocity and height. The readings are averaged over the standing legs
//! and smoothed over time. The numbers and their arithmetic are the caller's;
//! which legs are read and from which motors, what happens while none stands, when
//! smoothing begins, and what a policy is told of the velocity is decided here.

use vstd::prelude::*;
use crate::joints::{joints_of_leg, leg_joints, LegJoints, MISA_TO_GO2};

verus! {

/// What one leg tells of the body: its velocity in the world and its height.
#[derive(Clone, Copy)]
pub struct Reading<N> {
    pub vel: [N; 3],
    pub height: N,
}

/// The estimate.
pub struct LegOdometry<N> {
    pub vel: [N; 3],
    pub height: N,
    /// Whether a leg has stood yet.
    pub vel_valid: bool,
    /// The velocity that each leg told at the latest update.
    pub candidates: [Option<[N; 3]>; 4],
    /// Whether the forward speed is corrected for slipping feet.
    pub planar_slip_calibration: bool,
}

/// The legs that stand among the first `n`, in order.
pub open spec fn standing_among(stance: Seq<bool>, n: int) -> Seq<int>
    decreases n,
{
    if n <= 0 {
        Seq::empty()
    } else if stance[n - 1] {
        standing_among(stance, n - 1).push(n - 1)
    } else {
        standing_among(stance, n - 1)
    }
}

/// The legs that stand, in order.
pub open spec fn standing(stance: Seq<bool>) -> Seq<int> {
    standing_among(stance, stance.len() as int)
}

/// Whether `readings` are what `leg` told for each of `legs`, from its own joints.
pub open spec fn told_by<N, K: Fn(usize, LegJoints<N>, LegJoints<N>) -> Reading<N>>(
    leg: K,
    q_go2: Seq<N>,
    dq_go2: Seq<N>,
    legs: Seq<int>,
    readings: Seq<Reading<N>>,
) -> bool {
    &&& readings.len() == legs.len()
    &&& forall|i: int|
        0 <= i < legs.len() ==> call_ensures(
            leg,
            (legs[i] as usize, joints_of_leg(q_go2, legs[i]), joints_of_leg(dq_go2, legs[i])),
            #[trigger] readings[i],
        )
}

/// Whether each leg that told something is a candidate with its velocity, and no
/// other leg is.
pub open spec fn candidates_are<N>(
    candidates: Seq<Option<[N; 3]>>,
    legs: Seq<int>,
    readings: Seq<Reading<N>>,
) -> bool {
    &&& forall|i: int|
        0 <= i < legs.len() ==> candidates[legs[i]] == Some((#[trigger] readings[i]).vel)
    &&& forall|l: int| 0 <= l < 4 && !legs.contains(l) ==> (#[trigger] candidates[l]) is None
}

proof fn lemma_standing(stance: Seq<bool>, n: int)
    requires
        0 <= n <= stance.len(),
    ensures
        forall|l: int| #[trigger]
            standing_among(stance, n).contains(l) <==> 0 <= l < n && stance[l],
        standing_among(stance, n).len() <= n,
    decreases n,
{
    if n > 0 {
        lemma_standing(stance, n - 1);
        let before = standing_among(stance, n - 1);
        assert forall|l: int| #[trigger] standing_among(stance, n).contains(l) <==> 0 <= l < n
            && stance[l] by {
            if stance[n - 1] {
                let now = before.push(n - 1);
                if l == n - 1 {
                    assert(now[now.len() - 1] == l);
                } else {
                    if now.contains(l) {
                        let i = now.index_of(l);
                        assert(before[i] == l);
                        assert(before.contains(l));
                    }
                    if before.contains(l) {
                        let i = before.index_of(l);
                        assert(now[i] == l);
                    }
                }
            }
        }
    }
}

/// Whether `vel` is the velocity in the world: the forward speed passes `correct` where
/// that is switched on, and nothing else is touched.
pub open spec fn is_world_velocity<N, C: Fn(N) -> N>(
    odom: LegOdometry<N>,
    correct: C,
    vel: Seq<N>,
) -> bool {
    &&& vel.len() == 3
    &&& vel[1] == odom.vel@[1]
    &&& vel[2] == odom.vel@[2]
    &&& if odom.planar_slip_calibration {
        call_ensures(correct, (odom.vel@[0],), vel[0])
    } else {
        vel[0] == odom.vel@[0]
    }
}

/// Whether readings of the standing legs lead from one estimate to the next: they
/// are averaged, and taken as they are at first, then blended in. Without a reading
/// the estimate stays.
pub open spec fn settles<
    N,
    A: Fn(&Vec<Reading<N>>) -> Reading<N>,
    B: Fn(Reading<N>, Reading<N>) -> Reading<N>,
>(
    before: LegOdometry<N>,
    readings: Vec<Reading<N>>,
    average: A,
    blend: B,
    after: LegOdometry<N>,
) -> bool {
    if readings.len() == 0 {
        &&& after.vel == before.vel
        &&& after.height == before.height
        &&& after.vel_valid == before.vel_valid
    } else {
        &&& after.vel_valid
        &&& exists|now: Reading<N>| #[trigger]
            call_ensures(average, (&readings,), now) && if !before.vel_valid {
                after.vel == now.vel && after.height == now.height
            } else {
                call_ensures(
                    blend,
                    (Reading { vel: before.vel, height: before.height }, now),
                    Reading { vel: after.vel, height: after.height },
                )
            }
    }
}

/// Whether one period leads from one estimate to the next.
pub open spec fn updates<
    N,
    K: Fn(usize, LegJoints<N>, LegJoints<N>) -> Reading<N>,
    A: Fn(&Vec<Reading<N>>) -> Reading<N>,
    B: Fn(Reading<N>, Reading<N>) -> Reading<N>,
>(
    before: LegOdometry<N>,
    q_go2: Seq<N>,
    dq_go2: Seq<N>,
    stance: Seq<bool>,
    leg: K,
    average: A,
    blend: B,
    after: LegOdometry<N>,
) -> bool {
    &&& after.planar_slip_calibration == before.planar_slip_calibration
    &&& exists|readings: Vec<Reading<N>>| #[trigger]
        told_by(leg, q_go2, dq_go2, standing(stance), readings@) && candidates_are(
            after.candidates@,
            standing(stance),
            readings@,
        ) && settles(before, readings, average, blend, after)
}

impl<N: Copy> LegOdometry<N> {
    /// An estimate at rest, at the given height, without slip correction.
    pub fn new(zero: N, height: N) -> (odom: Self)
        ensures
            odom.vel@ == seq![zero, zero, zero],
            odom.height == height,
            !odom.vel_valid,
            forall|l: int| 0 <= l < 4 ==> (#[trigger] odom.candidates@[l]) is None,
            !odom.planar_slip_calibration,
    {
        let vel = [zero; 3];
        assert(vel@ =~= seq![zero, zero, zero]);
        LegOdometry {
            vel,
            height,
            vel_valid: false,
            candidates: [None; 4],
            planar_slip_calibration: false,
        }
    }

    /// An estimate at rest, with or without slip correction.
    pub fn new_with_planar_slip_calibration(enabled: bool, zero: N, height: N) -> (odom: Self)
        ensures
            odom.vel@ == seq![zero, zero, zero],
            odom.height == height,
            !odom.vel_valid,
            forall|l: int| 0 <= l < 4 ==> (#[trigger] odom.candidates@[l]) is None,
            odom.planar_slip_calibration == enabled,
    {
        let mut odom = Self::new(zero, height);
        odom.planar_slip_calibration = enabled;
        odom
    }

    /// One period. `q_go2` and `dq_go2` are angles and rates in Go2 motor order, and
    /// `stance` goes by FL, FR, RL, RR. `leg` tells what a standing leg sees from its
    /// own angles and rates, `average` combines what the standing legs told, and
    /// `blend` smooths the estimate towards it. While no leg stands the estimate
    /// stays; the first reading is taken as it is.
    pub fn update<
        K: Fn(usize, LegJoints<N>, LegJoints<N>) -> Reading<N>,
        A: Fn(&Vec<Reading<N>>) -> Reading<N>,
        B: Fn(Reading<N>, Reading<N>) -> Reading<N>,
    >(
        &mut self,
        q_go2: &[N; 12],
        dq_go2: &[N; 12],
        stance: [bool; 4],
        leg: K,
        average: A,
        blend: B,
    )
        requires
            forall|l: usize, q: LegJoints<N>, dq: LegJoints<N>|
                l < 4 ==> call_requires(leg, (l, q, dq)),
            forall|readings: &Vec<Reading<N>>|
                readings.len() > 0 ==> call_requires(average, (readings,)),
            forall|a: Reading<N>, b: Reading<N>| call_requires(blend, (a, b)),
        ensures
            updates(
                *old(self),
                q_go2@,
                dq_go2@,
                stance@,
                leg,
                average,
                blend,
                *final(self),
            ),
            final(self).planar_slip_calibration == old(self).planar_slip_calibration,
            (forall|l: int| 0 <= l < 4 ==> !#[trigger] stance@[l]) ==> final(self).vel == old(
                self,
            ).vel && final(self).height == old(self).height && final(self).vel_valid == old(
                self,
            ).vel_valid,
            (exists|l: int| 0 <= l < 4 && #[trigger] stance@[l]) ==> final(self).vel_valid,
            forall|l: int|
                0 <= l < 4 ==> ((#[trigger] final(self).candidates@[l]) is Some <==> stance@[l]),
            forall|l: int|
                0 <= l < 4 && stance@[l] ==> told_velocity(
                    leg,
                    l,
                    q_go2@,
                    dq_go2@,
                    #[trigger] final(self).candidates@[l],
                ),
            (exists|l: int| 0 <= l < 4 && #[trigger] stance@[l]) ==> exists|
                readings: Vec<Reading<N>>,
                now: Reading<N>,
            |
                {
                    &&& #[trigger] call_ensures(average, (&readings,), now)
                    &&& #[trigger] told_by(leg, q_go2@, dq_go2@, standing(stance@), readings@)
                    &&& !old(self).vel_valid ==> final(self).vel == now.vel && final(self).height
                        == now.height
                    &&& old(self).vel_valid ==> call_ensures(
                        blend,
                        (Reading { vel: old(self).vel, height: old(self).height }, now),
                        Reading { vel: final(self).vel, height: final(self).height },
                    )
                },
    {
        let mut readings: Vec<Reading<N>> = Vec::new();
        let mut candidates: [Option<[N; 3]>; 4] = [None; 4];
        for l in 0..4usize
            invariant
                forall|l: usize, q: LegJoints<N>, dq: LegJoints<N>|
                    l < 4 ==> call_requires(leg, (l, q, dq)),
                told_by(leg, q_go2@, dq_go2@, standing_among(stance@, l as int), readings@),
                forall|i: int|
                    0 <= i < readings.len() ==> candidates@[standing_among(stance@, l as int)[i]]
                        == Some((#[trigger] readings@[i]).vel),
                forall|k: int|
                    0 <= k < 4 && !standing_among(stance@, l as int).contains(k) ==> (
                    #[trigger] candidates@[k]) is None,
        {
            proof {
                lemma_standing(stance@, l as int);
                lemma_standing(stance@, l + 1);
            }
            if stance[l] {
                let reading = leg(l, leg_joints(q_go2, l), leg_joints(dq_go2, l));
                let ghost legs = standing_among(stance@, l as int);
                candidates[l] = Some(reading.vel);
                readings.push(reading);
                proof {
                    let now = standing_among(stance@, l + 1);
                    assert(now =~= legs.push(l as int));
                    assert forall|i: int| 0 <= i < readings.len() implies candidates@[now[i]] == Some(
                        (#[trigger] readings@[i]).vel,
                    ) by {
                        if i < legs.len() {
                            assert(legs.contains(legs[i]));
                        }
                    }
                    assert forall|k: int| 0 <= k < 4 && !now.contains(k) implies (
                    #[trigger] candidates@[k]) is None by {
                        if k == l {
                            assert(now[now.len() - 1] == k);
                        } else if legs.contains(k) {
                            assert(now[legs.index_of(k)] == k);
                        }
                    }
                }
            }
        }
        self.candidates = candidates;
        assert(told_by(leg, q_go2@, dq_go2@, standing(stance@), readings@));
        if readings.len() == 0 {
            assert(settles(*old(self), readings, average, blend, *self));
            proof {
                lemma_told_by_stance(*self, q_go2@, dq_go2@, stance@, leg, readings@);
            }
            return;
        }
        let now = average(&readings);
        if !self.vel_valid {
            self.vel = now.vel;
            self.height = now.height;
            self.vel_valid = true;
            assert(settles(*old(self), readings, average, blend, *self));
            proof {
                lemma_told_by_stance(*self, q_go2@, dq_go2@, stance@, leg, readings@);
            }
            return;
        }
        let before = Reading { vel: self.vel, height: self.height };
        let after = blend(before, now);
        self.vel = after.vel;
        self.height = after.height;
        assert(settles(*old(self), readings, average, blend, *self));
        proof {
            lemma_told_by_stance(*self, q_go2@, dq_go2@, stance@, leg, readings@);
        }
    }

    /// The velocity in the world. `correct` undoes the slip in the forward speed;
    /// the other two speeds are left as they are.
    pub fn vel_world<C: Fn(N) -> N>(&self, correct: C) -> (vel: [N; 3])
        requires
            forall|vx: N| call_requires(correct, (vx,)),
        ensures
            is_world_velocity(*self, correct, vel@),
    {
        let mut vel = self.vel;
        if self.planar_slip_calibration {
            vel[0] = correct(vel[0]);
        }
        vel
    }

    /// The height of the body.
    pub fn height_m(&self) -> (height: N)
        ensures
            height == self.height,
    {
        self.height
    }

    /// The velocity that each leg told at the latest update.
    pub fn candidates_world(&self) -> (candidates: [Option<[N; 3]>; 4])
        ensures
            candidates == self.candidates,
    {
        self.candidates
    }
}

/// Exactly the standing legs are read: a leg is among them where it stands, and
/// there are none exactly where no leg stands.
pub proof fn law_exactly_the_standing_legs_are_read(stance: Seq<bool>)
    ensures
        forall|l: int| #[trigger]
            standing(stance).contains(l) <==> 0 <= l < stance.len() && stance[l],
        standing(stance).len() == 0 <==> forall|l: int|
            0 <= l < stance.len() ==> !#[trigger] stance[l],
{
    lemma_standing(stance, stance.len() as int);
    let legs = standing(stance);
    if legs.len() == 0 {
        assert forall|l: int| 0 <= l < stance.len() implies !#[trigger] stance[l] by {
            assert(!legs.contains(l));
        }
    } else {
        assert(legs.contains(legs[0]));
        assert(stance[legs[0]]);
    }
}

/// Whether two estimates agree in everything but the slip switch.
pub open spec fn same_but_switch<N>(a: LegOdometry<N>, b: LegOdometry<N>) -> bool {
    &&& a.vel == b.vel
    &&& a.height == b.height
    &&& a.vel_valid == b.vel_valid
    &&& a.candidates@ == b.candidates@
}

/// Whether two rows of joints, in Go2 motor order, agree on the legs that stand.
pub open spec fn same_where_standing<N>(a: Seq<N>, b: Seq<N>, stance: Seq<bool>) -> bool {
    forall|l: int, j: int|
        0 <= l < 4 && 0 <= j < 3 && #[trigger] stance[l] ==> a[#[trigger] MISA_TO_GO2@[3 * l + j] as int]
            == b[MISA_TO_GO2@[3 * l + j] as int]
}

/// Whether an average follows from the readings, and a blend from two estimates.
pub open spec fn combine_one_way<
    N,
    A: Fn(&Vec<Reading<N>>) -> Reading<N>,
    B: Fn(Reading<N>, Reading<N>) -> Reading<N>,
>(average: A, blend: B) -> bool {
    &&& forall|r: Vec<Reading<N>>, s: Vec<Reading<N>>, x: Reading<N>, y: Reading<N>|
        #[trigger] call_ensures(average, (&r,), x) && #[trigger] call_ensures(average, (&s,), y)
            && r@ == s@ ==> x == y
    &&& forall|a: Reading<N>, b: Reading<N>, x: Reading<N>, y: Reading<N>|
        #[trigger] call_ensures(blend, (a, b), x) && #[trigger] call_ensures(blend, (a, b), y)
            ==> x == y
}

/// Whether two functions tell the same of a leg, each from its own joints.
pub open spec fn tell_alike<
    N,
    K: Fn(usize, LegJoints<N>, LegJoints<N>) -> Reading<N>,
    L: Fn(usize, LegJoints<N>, LegJoints<N>) -> Reading<N>,
>(leg_a: K, q_a: Seq<N>, dq_a: Seq<N>, leg_b: L, q_b: Seq<N>, dq_b: Seq<N>, l: int) -> bool {
    forall|x: Reading<N>, y: Reading<N>|
        #[trigger] call_ensures(
            leg_a,
            (l as usize, joints_of_leg(q_a, l), joints_of_leg(dq_a, l)),
            x,
        ) && #[trigger] call_ensures(
            leg_b,
            (l as usize, joints_of_leg(q_b, l), joints_of_leg(dq_b, l)),
            y,
        ) ==> x == y
}

/// Only what the standing legs tell counts: estimates that are alike but for the slip
/// switch stay so over a period in which the standing legs tell the same.
pub proof fn law_only_standing_legs_count<
    N,
    K: Fn(usize, LegJoints<N>, LegJoints<N>) -> Reading<N>,
    L: Fn(usize, LegJoints<N>, LegJoints<N>) -> Reading<N>,
    A: Fn(&Vec<Reading<N>>) -> Reading<N>,
    B: Fn(Reading<N>, Reading<N>) -> Reading<N>,
>(
    a: LegOdometry<N>,
    b: LegOdometry<N>,
    q_a: Seq<N>,
    q_b: Seq<N>,
    dq_a: Seq<N>,
    dq_b: Seq<N>,
    stance: Seq<bool>,
    leg_a: K,
    leg_b: L,
    average: A,
    blend: B,
    a_next: LegOdometry<N>,
    b_next: LegOdometry<N>,
)
    requires
        stance.len() == 4,
        same_but_switch(a, b),
        forall|l: int|
            0 <= l < 4 && #[trigger] stance[l] ==> tell_alike(
                leg_a,
                q_a,
                dq_a,
                leg_b,
                q_b,
                dq_b,
                l,
            ),
        combine_one_way(average, blend),
        updates(a, q_a, dq_a, stance, leg_a, average, blend, a_next),
        updates(b, q_b, dq_b, stance, leg_b, average, blend, b_next),
    ensures
        same_but_switch(a_next, b_next),
        a_next.planar_slip_calibration == a.planar_slip_calibration,
        b_next.planar_slip_calibration == b.planar_slip_calibration,
{
    let legs = standing(stance);
    let r = choose|r: Vec<Reading<N>>| #[trigger]
        told_by(leg_a, q_a, dq_a, legs, r@) && candidates_are(a_next.candidates@, legs, r@)
            && settles(a, r, average, blend, a_next);
    let s = choose|s: Vec<Reading<N>>| #[trigger]
        told_by(leg_b, q_b, dq_b, legs, s@) && candidates_are(b_next.candidates@, legs, s@)
            && settles(b, s, average, blend, b_next);
    lemma_standing(stance, 4);
    assert forall|i: int| 0 <= i < legs.len() implies r@[i] == s@[i] by {
        assert(legs.contains(legs[i]));
        assert(stance[legs[i]]);
    }
    assert(r@ =~= s@);
    assert forall|l: int| 0 <= l < 4 implies a_next.candidates@[l] == b_next.candidates@[l] by {
        if legs.contains(l) {
            let i = legs.index_of(l);
            assert(a_next.candidates@[legs[i]] == Some(r@[i].vel));
            assert(b_next.candidates@[legs[i]] == Some(s@[i].vel));
        }
    }
    assert(a_next.candidates@ =~= b_next.candidates@);
}

/// Whether a leg tells one thing of the same joints.
pub open spec fn tells_one_way<N, K: Fn(usize, LegJoints<N>, LegJoints<N>) -> Reading<N>>(
    leg: K,
) -> bool {
    forall|l: usize, q: LegJoints<N>, dq: LegJoints<N>, x: Reading<N>, y: Reading<N>|
        #[trigger] call_ensures(leg, (l, q, dq), x) && #[trigger] call_ensures(leg, (l, q, dq), y)
            ==> x == y
}

/// Legs in the air have no influence: estimates that are alike but for the slip
/// switch stay so over a period in which the angles and rates agree on the motors of
/// the legs that stand, whatever the other motors report.
pub proof fn law_swinging_legs_have_no_influence<
    N,
    K: Fn(usize, LegJoints<N>, LegJoints<N>) -> Reading<N>,
    A: Fn(&Vec<Reading<N>>) -> Reading<N>,
    B: Fn(Reading<N>, Reading<N>) -> Reading<N>,
>(
    a: LegOdometry<N>,
    b: LegOdometry<N>,
    q_a: Seq<N>,
    q_b: Seq<N>,
    dq_a: Seq<N>,
    dq_b: Seq<N>,
    stance: Seq<bool>,
    leg: K,
    average: A,
    blend: B,
    a_next: LegOdometry<N>,
    b_next: LegOdometry<N>,
)
    requires
        stance.len() == 4,
        same_but_switch(a, b),
        same_where_standing(q_a, q_b, stance),
        same_where_standing(dq_a, dq_b, stance),
        tells_one_way(leg),
        combine_one_way(average, blend),
        updates(a, q_a, dq_a, stance, leg, average, blend, a_next),
        updates(b, q_b, dq_b, stance, leg, average, blend, b_next),
    ensures
        same_but_switch(a_next, b_next),
{
    assert forall|l: int| 0 <= l < 4 && #[trigger] stance[l] implies tell_alike(
        leg,
        q_a,
        dq_a,
        leg,
        q_b,
        dq_b,
        l,
    ) by {
        assert(MISA_TO_GO2@[3 * l + 0] == MISA_TO_GO2@[3 * l]);
        assert(joints_of_leg(q_a, l) == joints_of_leg(q_b, l));
        assert(joints_of_leg(dq_a, l) == joints_of_leg(dq_b, l));
    }
    law_only_standing_legs_count(
        a,
        b,
        q_a,
        q_b,
        dq_a,
        dq_b,
        stance,
        leg,
        leg,
        average,
        blend,
        a_next,
        b_next,
    );
}

/// One period's input.
pub struct Period<N, K> {
    pub q_go2: [N; 12],
    pub dq_go2: [N; 12],
    pub stance: [bool; 4],
    pub leg: K,
}

/// Whether each period leads from one estimate of a row to the next.
pub open spec fn updates_row<
    N,
    K: Fn(usize, LegJoints<N>, LegJoints<N>) -> Reading<N>,
    A: Fn(&Vec<Reading<N>>) -> Reading<N>,
    B: Fn(Reading<N>, Reading<N>) -> Reading<N>,
>(row: Seq<LegOdometry<N>>, periods: Seq<Period<N, K>>, average: A, blend: B) -> bool {
    &&& row.len() == periods.len() + 1
    &&& forall|i: int|
        0 <= i < periods.len() ==> updates(
            row[i],
            (#[trigger] periods[i]).q_go2@,
            periods[i].dq_go2@,
            periods[i].stance@,
            periods[i].leg,
            average,
            blend,
            row[i + 1],
        )
}

/// The slip switch never reaches the estimate: two estimates that begin alike but for
/// it, and that go through the same periods, have the same velocity before
/// correction, the same height and the same candidates after each.
pub proof fn law_slip_switch_never_reaches_the_estimate<
    N,
    K: Fn(usize, LegJoints<N>, LegJoints<N>) -> Reading<N>,
    A: Fn(&Vec<Reading<N>>) -> Reading<N>,
    B: Fn(Reading<N>, Reading<N>) -> Reading<N>,
>(
    a: Seq<LegOdometry<N>>,
    b: Seq<LegOdometry<N>>,
    periods: Seq<Period<N, K>>,
    average: A,
    blend: B,
    n: int,
)
    requires
        updates_row(a, periods, average, blend),
        updates_row(b, periods, average, blend),
        same_but_switch(a[0], b[0]),
        forall|i: int| 0 <= i < periods.len() ==> tells_one_way((#[trigger] periods[i]).leg),
        combine_one_way(average, blend),
        0 <= n <= periods.len(),
    ensures
        same_but_switch(a[n], b[n]),
        a[n].planar_slip_calibration == a[0].planar_slip_calibration,
        b[n].planar_slip_calibration == b[0].planar_slip_calibration,
    decreases n,
{
    if n > 0 {
        law_slip_switch_never_reaches_the_estimate(a, b, periods, average, blend, n - 1);
        let p = periods[n - 1];
        assert(tells_one_way(p.leg));
        law_only_standing_legs_count(
            a[n - 1],
            b[n - 1],
            p.q_go2@,
            p.q_go2@,
            p.dq_go2@,
            p.dq_go2@,
            p.stance@,
            p.leg,
            p.leg,
            average,
            blend,
            a[n],
            b[n],
        );
    }
}

/// The slip switch touches the forward speed alone: estimates that are alike but for
/// it tell the same sideways and upward speeds, the corrected one tells the
/// correction of the other's forward speed, and telling it again corrects the same
/// speed again, not the corrected one.
pub proof fn law_slip_is_corrected_once<N, C: Fn(N) -> N>(
    plain: LegOdometry<N>,
    corrected: LegOdometry<N>,
    correct: C,
    told_plain: Seq<N>,
    told: Seq<N>,
    told_again: Seq<N>,
)
    requires
        same_but_switch(plain, corrected),
        !plain.planar_slip_calibration,
        corrected.planar_slip_calibration,
        is_world_velocity(plain, correct, told_plain),
        is_world_velocity(corrected, correct, told),
        is_world_velocity(corrected, correct, told_again),
    ensures
        told[1] == told_plain[1] && told[2] == told_plain[2],
        call_ensures(correct, (told_plain[0],), told[0]),
        call_ensures(correct, (told_plain[0],), told_again[0]),
        told_again[1] == told[1] && told_again[2] == told[2],
        (forall|x: N, y: N, z: N| #[trigger]
            call_ensures(correct, (x,), y) && #[trigger] call_ensures(correct, (x,), z) ==> y == z)
            ==> told_again == told,
{
    if forall|x: N, y: N, z: N| #[trigger]
        call_ensures(correct, (x,), y) && #[trigger] call_ensures(correct, (x,), z) ==> y == z {
        assert(told_again[0] == told[0]);
        assert(told_again =~= told);
    }
}

/// Whether `input` is what a policy is told of the velocity `vel`.
pub open spec fn is_velocity_input<N, S: Fn(N, N) -> N>(
    vel: Seq<N>,
    bias: Option<N>,
    at_rest: bool,
    subtract: S,
    input: Seq<N>,
) -> bool {
    &&& input.len() == 3
    &&& input[1] == vel[1]
    &&& input[2] == vel[2]
    &&& match bias {
        Some(b) => if at_rest {
            input[0] == vel[0]
        } else {
            call_ensures(subtract, (vel[0], b), input[0])
        },
        None => input[0] == vel[0],
    }
}

/// What a policy is told of the body's velocity, from an estimate with a known bias of
/// the forward speed. At rest the bias is not subtracted: the policy would take the
/// difference for going backwards and creep forward.
pub fn velocity_input<N: Copy, S: Fn(N, N) -> N>(
    vel: [N; 3],
    bias: Option<N>,
    at_rest: bool,
    subtract: S,
) -> (input: [N; 3])
    requires
        forall|v: N, b: N| call_requires(subtract, (v, b)),
    ensures
        is_velocity_input(vel@, bias, at_rest, subtract, input@),
        input@[1] == vel@[1],
        input@[2] == vel@[2],
        match bias {
            Some(b) => if at_rest {
                input@[0] == vel@[0]
            } else {
                call_ensures(subtract, (vel@[0], b), input@[0])
            },
            None => input@[0] == vel@[0],
        },
{
    let mut input = vel;
    if let Some(b) = bias {
        if !at_rest {
            input[0] = subtract(vel[0], b);
        }
    }
    input
}

/// The standing legs come in their order, each once.
pub proof fn law_standing_legs_come_in_order(stance: Seq<bool>, i: int, j: int)
    requires
        0 <= i < j < standing(stance).len(),
    ensures
        0 <= standing(stance)[i] < standing(stance)[j] < stance.len(),
{
    lemma_standing_order(stance, stance.len() as int, i, j);
}

proof fn lemma_standing_order(stance: Seq<bool>, n: int, i: int, j: int)
    requires
        0 <= n <= stance.len(),
        0 <= i < j < standing_among(stance, n).len(),
    ensures
        0 <= standing_among(stance, n)[i] < standing_among(stance, n)[j] < n,
    decreases n,
{
    if n > 0 {
        let before = standing_among(stance, n - 1);
        lemma_standing(stance, n - 1);
        if stance[n - 1] && j == before.len() {
            assert(before.contains(before[i]));
        } else {
            lemma_standing_order(stance, n - 1, i, j);
        }
    }
}

/// Whether a candidate is the velocity that a leg told from its own joints.
pub open spec fn told_velocity<N, K: Fn(usize, LegJoints<N>, LegJoints<N>) -> Reading<N>>(
    leg: K,
    l: int,
    q_go2: Seq<N>,
    dq_go2: Seq<N>,
    candidate: Option<[N; 3]>,
) -> bool {
    exists|told: Reading<N>|
        #[trigger] call_ensures(
            leg,
            (l as usize, joints_of_leg(q_go2, l), joints_of_leg(dq_go2, l)),
            told,
        ) && candidate == Some(told.vel)
}

/// What the standing legs told, over the stance itself.
proof fn lemma_told_by_stance<N, K: Fn(usize, LegJoints<N>, LegJoints<N>) -> Reading<N>>(
    after: LegOdometry<N>,
    q_go2: Seq<N>,
    dq_go2: Seq<N>,
    stance: Seq<bool>,
    leg: K,
    readings: Seq<Reading<N>>,
)
    requires
        stance.len() == 4,
        told_by(leg, q_go2, dq_go2, standing(stance), readings),
        candidates_are(after.candidates@, standing(stance), readings),
    ensures
        readings.len() == 0 <==> forall|l: int| 0 <= l < 4 ==> !#[trigger] stance[l],
        forall|l: int|
            0 <= l < 4 ==> ((#[trigger] after.candidates@[l]) is Some <==> stance[l]),
        forall|l: int|
            0 <= l < 4 && stance[l] ==> told_velocity(
                leg,
                l,
                q_go2,
                dq_go2,
                #[trigger] after.candidates@[l],
            ),
{
    let legs = standing(stance);
    law_exactly_the_standing_legs_are_read(stance);
    assert forall|l: int| 0 <= l < 4 implies ((#[trigger] after.candidates@[l]) is Some
        <==> stance[l]) by {
        assert(legs.contains(l) <==> stance[l]);
        if stance[l] {
            let i = legs.index_of(l);
            assert(after.candidates@[legs[i]] == Some(readings[i].vel));
        }
    }
    assert forall|l: int| 0 <= l < 4 && stance[l] implies told_velocity(
        leg,
        l,
        q_go2,
        dq_go2,
        #[trigger] after.candidates@[l],
    ) by {
        assert(legs.contains(l));
        let i = legs.index_of(l);
        assert(after.candidates@[legs[i]] == Some(readings[i].vel));
        assert(call_ensures(
            leg,
            (l as usize, joints_of_leg(q_go2, l), joints_of_leg(dq_go2, l)),
            readings[i],
        ));
    }
}

/// The estimate stays only while no leg stands: then velocity, height and their
/// standing stay, and no leg is a candidate.
pub proof fn law_only_a_body_in_the_air_keeps_its_estimate<
    N,
    K: Fn(usize, LegJoints<N>, LegJoints<N>) -> Reading<N>,
    A: Fn(&Vec<Reading<N>>) -> Reading<N>,
    B: Fn(Reading<N>, Reading<N>) -> Reading<N>,
>(
    before: LegOdometry<N>,
    q_go2: Seq<N>,
    dq_go2: Seq<N>,
    stance: Seq<bool>,
    leg: K,
    average: A,
    blend: B,
    after: LegOdometry<N>,
)
    requires
        stance.len() == 4,
        updates(before, q_go2, dq_go2, stance, leg, average, blend, after),
        forall|l: int| 0 <= l < 4 ==> !#[trigger] stance[l],
    ensures
        after.vel == before.vel,
        after.height == before.height,
        after.vel_valid == before.vel_valid,
        forall|l: int| 0 <= l < 4 ==> (#[trigger] after.candidates@[l]) is None,
{
    let readings = choose|readings: Vec<Reading<N>>| #[trigger]
        told_by(leg, q_go2, dq_go2, standing(stance), readings@) && candidates_are(
            after.candidates@,
            standing(stance),
            readings@,
        ) && settles(before, readings, average, blend, after);
    lemma_told_by_stance(after, q_go2, dq_go2, stance, leg, readings@);
}

/// As soon as any leg stands, however many do, the estimate moves: all the standing
/// legs' readings are averaged, and the average is taken as it is the first time and
/// blended into the old estimate every later time.
pub proof fn law_any_standing_leg_moves_the_estimate<
    N,
    K: Fn(usize, LegJoints<N>, LegJoints<N>) -> Reading<N>,
    A: Fn(&Vec<Reading<N>>) -> Reading<N>,
    B: Fn(Reading<N>, Reading<N>) -> Reading<N>,
>(
    before: LegOdometry<N>,
    q_go2: Seq<N>,
    dq_go2: Seq<N>,
    stance: Seq<bool>,
    leg: K,
    average: A,
    blend: B,
    after: LegOdometry<N>,
    standing_leg: int,
)
    requires
        stance.len() == 4,
        updates(before, q_go2, dq_go2, stance, leg, average, blend, after),
        0 <= standing_leg < 4,
        stance[standing_leg],
    ensures
        after.vel_valid,
        exists|readings: Vec<Reading<N>>, now: Reading<N>|
            {
                &&& #[trigger] call_ensures(average, (&readings,), now)
                &&& #[trigger] told_by(leg, q_go2, dq_go2, standing(stance), readings@)
                &&& readings.len() > 0
                &&& !before.vel_valid ==> after.vel == now.vel && after.height == now.height
                &&& before.vel_valid ==> call_ensures(
                    blend,
                    (Reading { vel: before.vel, height: before.height }, now),
                    Reading { vel: after.vel, height: after.height },
                )
            },
        forall|l: int|
            0 <= l < 4 ==> ((#[trigger] after.candidates@[l]) is Some <==> stance[l]),
{
    let readings = choose|readings: Vec<Reading<N>>| #[trigger]
        told_by(leg, q_go2, dq_go2, standing(stance), readings@) && candidates_are(
            after.candidates@,
            standing(stance),
            readings@,
        ) && settles(before, readings, average, blend, after);
    lemma_told_by_stance(after, q_go2, dq_go2, stance, leg, readings@);
    let now = choose|now: Reading<N>| #[trigger]
        call_ensures(average, (&readings,), now) && if !before.vel_valid {
            after.vel == now.vel && after.height == now.height
        } else {
            call_ensures(
                blend,
                (Reading { vel: before.vel, height: before.height }, now),
                Reading { vel: after.vel, height: after.height },
            )
        };
    assert(call_ensures(average, (&readings,), now));
}

/// Each standing leg is a candidate with the velocity that it told from its own joints,
/// and no leg in the air is one.
pub proof fn law_candidates_are_what_the_legs_told<
    N,
    K: Fn(usize, LegJoints<N>, LegJoints<N>) -> Reading<N>,
    A: Fn(&Vec<Reading<N>>) -> Reading<N>,
    B: Fn(Reading<N>, Reading<N>) -> Reading<N>,
>(
    before: LegOdometry<N>,
    q_go2: Seq<N>,
    dq_go2: Seq<N>,
    stance: Seq<bool>,
    leg: K,
    average: A,
    blend: B,
    after: LegOdometry<N>,
    l: int,
) -> (told: Reading<N>)
    requires
        stance.len() == 4,
        updates(before, q_go2, dq_go2, stance, leg, average, blend, after),
        0 <= l < 4,
    ensures
        after.planar_slip_calibration == before.planar_slip_calibration,
        !stance[l] ==> after.candidates@[l] is None,
        stance[l] ==> after.candidates@[l] == Some(told.vel),
        stance[l] ==> call_ensures(
            leg,
            (l as usize, joints_of_leg(q_go2, l), joints_of_leg(dq_go2, l)),
            told,
        ),
{
    let readings = choose|readings: Vec<Reading<N>>| #[trigger]
        told_by(leg, q_go2, dq_go2, standing(stance), readings@) && candidates_are(
            after.candidates@,
            standing(stance),
            readings@,
        ) && settles(before, readings, average, blend, after);
    lemma_told_by_stance(after, q_go2, dq_go2, stance, leg, readings@);
    assert(after.candidates@[l] is Some <==> stance[l]);
    choose|told: Reading<N>|
        #[trigger] call_ensures(
            leg,
            (l as usize, joints_of_leg(q_go2, l), joints_of_leg(dq_go2, l)),
            told,
        ) && after.candidates@[l] == Some(told.vel)
}

/// There is one reading for each standing leg, in their order, and each comes from that
/// leg's own angles and rates.
pub proof fn law_each_reading_comes_from_its_own_leg<
    N,
    K: Fn(usize, LegJoints<N>, LegJoints<N>) -> Reading<N>,
>(
    leg: K,
    q_go2: Seq<N>,
    dq_go2: Seq<N>,
    stance: Seq<bool>,
    readings: Seq<Reading<N>>,
    i: int,
)
    requires
        told_by(leg, q_go2, dq_go2, standing(stance), readings),
        0 <= i < readings.len(),
    ensures
        readings.len() == standing(stance).len(),
        0 <= standing(stance)[i] < stance.len() && stance[standing(stance)[i]],
        call_ensures(
            leg,
            (
                standing(stance)[i] as usize,
                joints_of_leg(q_go2, standing(stance)[i]),
                joints_of_leg(dq_go2, standing(stance)[i]),
            ),
            readings[i],
        ),
{
    law_exactly_the_standing_legs_are_read(stance);
    assert(standing(stance).contains(standing(stance)[i]));
    assert(readings[i] == readings[i]);
}

/// An estimate that is blended is blended whatever the number of standing legs: two
/// periods that average to the same reading end alike, however many legs stood in
/// each.
pub proof fn law_the_number_of_legs_does_not_matter<
    N,
    K: Fn(usize, LegJoints<N>, LegJoints<N>) -> Reading<N>,
    A: Fn(&Vec<Reading<N>>) -> Reading<N>,
    B: Fn(Reading<N>, Reading<N>) -> Reading<N>,
>(
    before: LegOdometry<N>,
    q_a: Seq<N>,
    q_b: Seq<N>,
    dq_a: Seq<N>,
    dq_b: Seq<N>,
    stance_a: Seq<bool>,
    stance_b: Seq<bool>,
    leg: K,
    average: A,
    blend: B,
    now: Reading<N>,
    a: LegOdometry<N>,
    b: LegOdometry<N>,
    l_a: int,
    l_b: int,
)
    requires
        stance_a.len() == 4 && stance_b.len() == 4,
        0 <= l_a < 4 && stance_a[l_a],
        0 <= l_b < 4 && stance_b[l_b],
        updates(before, q_a, dq_a, stance_a, leg, average, blend, a),
        updates(before, q_b, dq_b, stance_b, leg, average, blend, b),
        combine_one_way(average, blend),
        forall|r: Vec<Reading<N>>, x: Reading<N>|
            #[trigger] call_ensures(average, (&r,), x) && (told_by(
                leg,
                q_a,
                dq_a,
                standing(stance_a),
                r@,
            ) || told_by(leg, q_b, dq_b, standing(stance_b), r@)) ==> x == now,
    ensures
        a.vel == b.vel,
        a.height == b.height,
        a.vel_valid && b.vel_valid,
{
    law_any_standing_leg_moves_the_estimate(
        before,
        q_a,
        dq_a,
        stance_a,
        leg,
        average,
        blend,
        a,
        l_a,
    );
    law_any_standing_leg_moves_the_estimate(
        before,
        q_b,
        dq_b,
        stance_b,
        leg,
        average,
        blend,
        b,
        l_b,
    );
}

/// The world hears the estimate as it is, but for the forward speed where slip is
/// corrected.
pub proof fn law_the_estimate_is_told_as_it_is<N, C: Fn(N) -> N>(
    odom: LegOdometry<N>,
    correct: C,
    vel: Seq<N>,
)
    requires
        is_world_velocity(odom, correct, vel),
    ensures
        vel.len() == 3,
        vel[1] == odom.vel@[1],
        vel[2] == odom.vel@[2],
        !odom.planar_slip_calibration ==> vel[0] == odom.vel@[0],
        odom.planar_slip_calibration ==> call_ensures(correct, (odom.vel@[0],), vel[0]),
{
}

/// A bias concerns the forward speed of a robot that moves: at rest, and without a bias,
/// the policy is told the velocity as it is, and the other two speeds always are.
pub proof fn law_a_resting_robot_is_told_its_velocity<N, S: Fn(N, N) -> N>(
    vel: Seq<N>,
    bias: Option<N>,
    at_rest: bool,
    subtract: S,
    input: Seq<N>,
)
    requires
        vel.len() == 3,
        is_velocity_input(vel, bias, at_rest, subtract, input),
    ensures
        at_rest ==> input == vel,
        bias is None ==> input == vel,
        input[1] == vel[1] && input[2] == vel[2],
        bias is Some && !at_rest ==> call_ensures(subtract, (vel[0], bias->0), input[0]),
{
    if at_rest || bias is None {
        assert(input =~= vel);
    }
}

} // verus!
