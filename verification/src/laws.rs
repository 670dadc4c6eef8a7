//! General properties of the tank model and the allocator, stated over the
//! specification functions and proved once and for all.

use crate::plan::{
    lemma_alloc_len, spec_alloc, spec_apply, spec_divide, spec_filter_bottom, spec_filter_stop,
    spec_gas_plan, spec_rock_bottom, kit_wf, q_safety_stop_depth, VolumeStrategy,
};
use crate::rat::{
    lemma_norm_props, lemma_pos_mul_pos, lemma_q_add_eq, lemma_q_add_eq_right, lemma_q_eq_trans,
    lemma_q_le_trans, lemma_q_mul_eq, lemma_q_mul_eq_right, n_add, n_div, n_mul, q_add, q_div,
    q_eq, q_fits, q_le, q_mul, q_norm, Frac,
};
use crate::tank::{
    spec_add_volume, spec_breathable, spec_gas_volume, spec_pO2, spec_tank_factor,
    spec_with_volume, tank_wf, TankV,
};
use crate::{InfeasibleKind, RockBottomError};
use vstd::prelude::*;

verus! {

/// The sum of a sequence of fractions.
pub open spec fn q_sum(s: Seq<Frac>) -> Frac
    decreases s.len(),
{
    if s.len() == 0 {
        Frac { num: 0, den: 1 }
    } else {
        q_add(q_sum(s.drop_last()), s.last())
    }
}

/// Volume round trip: setting a tank's volume and reading it back yields
/// exactly the volume that was set, whenever both operations succeed.
pub proof fn lemma_with_volume_round_trip(t: TankV, v: Frac, t2: TankV, gv: Frac)
    requires
        tank_wf(t),
        q_fits(v),
        spec_with_volume(t, v) == Some(t2),
        spec_gas_volume(t2) == Some(gv),
    ensures
        q_eq(gv, v),
{
    match spec_tank_factor(t) {
        Some(tf) => {
            let sp = Frac { num: t.service_pressure, den: 1 };
            let dq = q_div(t.capacity_cuft, sp);
            lemma_pos_mul_pos(t.capacity_cuft.den, t.service_pressure);
            lemma_norm_props(dq);
            assert(tf == q_norm(dq));
            assert(1 <= tf.den && 1 <= tf.num);
            match n_div(v, tf) {
                Some(g) => {
                    assert(t2 == TankV { gauge_pressure: g, ..t });
                    let vq = q_div(v, tf);
                    lemma_pos_mul_pos(v.den, tf.num);
                    lemma_norm_props(vq);
                    assert(g == q_norm(vq));
                    assert(q_eq(g, vq));
                    assert(spec_tank_factor(t2) == spec_tank_factor(t));
                    match n_mul(g, tf) {
                        Some(gv2) => {
                            assert(gv2 == gv);
                            let mq = q_mul(g, tf);
                            lemma_pos_mul_pos(g.den, tf.den);
                            lemma_norm_props(mq);
                            assert(q_eq(gv, mq));
                            lemma_q_mul_eq(g, vq, tf);
                            let x = v.num;
                            let y = v.den;
                            let p = tf.num;
                            let w = tf.den;
                            assert(((x * w) * p) * y == x * ((y * p) * w)) by (nonlinear_arith);
                            assert(q_eq(q_mul(vq, tf), v));
                            lemma_pos_mul_pos(vq.den, tf.den);
                            lemma_q_eq_trans(gv, mq, q_mul(vq, tf));
                            lemma_q_eq_trans(gv, q_mul(vq, tf), v);
                        },
                        None => {
                            assert(false);
                        },
                    }
                },
                None => {
                    assert(false);
                },
            }
        },
        None => {
            assert(false);
        },
    }
}

/// Additivity: adding a volume delta to a tank raises the readable gas
/// volume by exactly that delta, whenever every step succeeds.
pub proof fn lemma_add_volume_additivity(t: TankV, d: Frac, gv0: Frac, t2: TankV, gv2: Frac)
    requires
        tank_wf(t),
        q_fits(d),
        spec_gas_volume(t) == Some(gv0),
        spec_add_volume(t, d) == Some(t2),
        spec_gas_volume(t2) == Some(gv2),
    ensures
        q_eq(gv2, q_add(gv0, d)),
{
    match spec_tank_factor(t) {
        Some(_) => {
            assert(q_fits(gv0));
        },
        None => {
            assert(false);
        },
    }
    match n_add(gv0, d) {
        Some(nv) => {
            lemma_pos_mul_pos(gv0.den, d.den);
            lemma_norm_props(q_add(gv0, d));
            assert(q_eq(nv, q_add(gv0, d)));
            assert(spec_with_volume(t, nv) == Some(t2));
            lemma_with_volume_round_trip(t, nv, t2, gv2);
            lemma_q_eq_trans(gv2, nv, q_add(gv0, d));
        },
        None => {
            assert(false);
        },
    }
}

/// The partial pressure of oxygen grows with depth (for a non-negative
/// oxygen fraction).
pub proof fn lemma_pO2_monotone(t: TankV, d1: Frac, d2: Frac)
    requires
        tank_wf(t),
        1 <= d1.den,
        1 <= d2.den,
        q_le(d1, d2),
    ensures
        q_le(spec_pO2(t, d1), spec_pO2(t, d2)),
{
    let a1 = d1.num + 10 * d1.den;
    let a2 = d2.num + 10 * d2.den;
    let fn_ = t.f_o2.num;
    let fd = t.f_o2.den;
    assert(a1 * d2.den <= a2 * d1.den) by (nonlinear_arith)
        requires
            a1 == d1.num + 10 * d1.den,
            a2 == d2.num + 10 * d2.den,
            d1.num * d2.den <= d2.num * d1.den,
    ;
    assert((a1 * fn_) * ((10 * d2.den) * fd) == (a1 * d2.den) * (10 * (fn_ * fd)))
        by (nonlinear_arith);
    assert((a2 * fn_) * ((10 * d1.den) * fd) == (a2 * d1.den) * (10 * (fn_ * fd)))
        by (nonlinear_arith);
    assert((a1 * d2.den) * (10 * (fn_ * fd)) <= (a2 * d1.den) * (10 * (fn_ * fd)))
        by (nonlinear_arith)
        requires
            a1 * d2.den <= a2 * d1.den,
            fn_ >= 0,
            fd >= 1,
    ;
}

/// Breathability is monotone: a mix breathable at some depth is breathable
/// at every shallower depth.
pub proof fn lemma_breathable_monotone(t: TankV, d1: Frac, d2: Frac)
    requires
        tank_wf(t),
        1 <= d1.den,
        1 <= d2.den,
        q_le(d1, d2),
        spec_breathable(t, d2),
    ensures
        spec_breathable(t, d1),
{
    lemma_pO2_monotone(t, d1, d2);
    lemma_pos_mul_pos(10 * d1.den, t.f_o2.den);
    lemma_pos_mul_pos(10 * d2.den, t.f_o2.den);
    lemma_q_le_trans(spec_pO2(t, d1), spec_pO2(t, d2), Frac { num: 7, den: 5 });
}

/// Every well-formed mix (oxygen fraction at most 1) is breathable at the
/// surface.
pub proof fn lemma_breathable_at_surface(t: TankV)
    requires
        tank_wf(t),
    ensures
        spec_breathable(t, Frac { num: 0, den: 1 }),
{
    assert((10 * t.f_o2.num) * 5 <= 7 * (10 * t.f_o2.den));
}

/// A mix with a positive oxygen fraction stops being breathable at the
/// depth `14 * f_o2.den / f_o2.num` metres (where its partial pressure of
/// oxygen passes the limit), and so at every greater depth.
pub proof fn lemma_breathable_fails_deep(t: TankV)
    requires
        tank_wf(t),
        1 <= t.f_o2.num,
    ensures
        !spec_breathable(t, Frac { num: 14 * t.f_o2.den, den: t.f_o2.num }),
{
    let fn_ = t.f_o2.num;
    let fd = t.f_o2.den;
    assert(((14 * fd + 10 * fn_) * fn_) * 5 > 7 * ((10 * fn_) * fd)) by (nonlinear_arith)
        requires
            fn_ >= 1,
            fd >= 1,
    ;
}

/// Beyond the threshold depth of its oxygen fraction, a mix is never
/// breathable.
pub proof fn lemma_not_breathable_beyond(t: TankV, d: Frac)
    requires
        tank_wf(t),
        1 <= t.f_o2.num,
        1 <= d.den,
        q_le(Frac { num: 14 * t.f_o2.den, den: t.f_o2.num }, d),
    ensures
        !spec_breathable(t, d),
{
    let w = Frac { num: 14 * t.f_o2.den, den: t.f_o2.num };
    if spec_breathable(t, d) {
        lemma_breathable_monotone(t, w, d);
        lemma_breathable_fails_deep(t);
        assert(false);
    }
}

/// A successful allocation updates each tank with its share, in order.
pub proof fn lemma_alloc_pointwise(s: Seq<TankV>, share: Frac, strat: VolumeStrategy, rs: Seq<
    TankV,
>)
    requires
        spec_alloc(s, share, strat) == Some(rs),
    ensures
        rs.len() == s.len(),
        forall|i: int|
            0 <= i < s.len() ==> spec_apply(strat, #[trigger] s[i], share) == Some(rs[i]),
    decreases s.len(),
{
    if s.len() > 0 {
        match spec_alloc(s.drop_last(), share, strat) {
            Some(rest) => {
                lemma_alloc_pointwise(s.drop_last(), share, strat, rest);
                assert forall|i: int|
                    0 <= i < s.len() implies spec_apply(strat, #[trigger] s[i], share) == Some(
                    rs[i],
                ) by {
                    if i < s.len() - 1 {
                        assert(s.drop_last()[i] == s[i]);
                        assert(rs[i] == rest[i]);
                    } else {
                        assert(s[i] == s.last());
                    }
                }
            },
            None => {
                assert(false);
            },
        }
    }
}

/// The sum of values all equal to one share is the share scaled by the
/// count.
pub proof fn lemma_sum_of_equal_shares(vols: Seq<Frac>, share: Frac)
    requires
        1 <= share.den,
        forall|i: int|
            0 <= i < vols.len() ==> 1 <= (#[trigger] vols[i]).den && q_eq(vols[i], share),
    ensures
        1 <= q_sum(vols).den,
        q_eq(q_sum(vols), q_mul(Frac { num: vols.len() as int, den: 1 }, share)),
    decreases vols.len(),
{
    if vols.len() == 0 {
        assert(q_sum(vols) == Frac { num: 0, den: 1 });
        assert(0 * (1 * share.den) == (0 * share.num) * 1) by (nonlinear_arith);
        assert(q_eq(q_sum(vols), q_mul(Frac { num: vols.len() as int, den: 1 }, share)));
    } else {
        let pre = vols.drop_last();
        assert(forall|i: int| 0 <= i < pre.len() ==> pre[i] == #[trigger] vols[i]);
        lemma_sum_of_equal_shares(pre, share);
        let n1 = pre.len() as int;
        let sumpre = q_sum(pre);
        let last = vols.last();
        assert(vols[vols.len() - 1] == last);
        assert(1 <= last.den && q_eq(last, share));
        assert(q_sum(vols) == q_add(sumpre, last));
        lemma_pos_mul_pos(sumpre.den, last.den);
        let target1 = q_mul(Frac { num: n1, den: 1 }, share);
        lemma_q_add_eq(sumpre, target1, last);
        lemma_q_add_eq_right(target1, last, share);
        let sn = share.num;
        let sd = share.den;
        let target2 = q_mul(Frac { num: vols.len() as int, den: 1 }, share);
        assert(((n1 * sn) * sd + sn * (1 * sd)) * (1 * sd) == ((n1 + 1) * sn) * ((1 * sd) * sd))
            by (nonlinear_arith);
        assert(q_eq(q_add(target1, share), target2));
        lemma_pos_mul_pos(1 * sd, last.den);
        lemma_pos_mul_pos(1 * sd, sd);
        lemma_q_eq_trans(q_sum(vols), q_add(target1, last), q_add(target1, share));
        lemma_q_eq_trans(q_sum(vols), q_add(target1, share), target2);
    }
}

/// Allocation conservation: after dividing a needed volume across a
/// non-empty set of tanks with absolute shares, the readable gas volumes
/// of the resulting tanks sum to exactly the needed volume.
pub proof fn lemma_allocation_conservation(
    s: Seq<TankV>,
    needed: Frac,
    phase: InfeasibleKind,
    rs: Seq<TankV>,
    vols: Seq<Frac>,
)
    requires
        kit_wf(s),
        q_fits(needed),
        spec_divide(s, needed, VolumeStrategy::SetAbsolute, phase) == Ok::<
            Seq<TankV>,
            RockBottomError,
        >(rs),
        vols.len() == rs.len(),
        forall|i: int| 0 <= i < rs.len() ==> spec_gas_volume(#[trigger] rs[i]) == Some(vols[i]),
    ensures
        q_eq(q_sum(vols), needed),
{
    let cnt = Frac { num: s.len() as int, den: 1 };
    match n_div(needed, cnt) {
        Some(share) => {
            match spec_alloc(s, share, VolumeStrategy::SetAbsolute) {
                Some(rs2) => {
                    assert(rs2 == rs);
                    lemma_alloc_pointwise(s, share, VolumeStrategy::SetAbsolute, rs);
                    let dq = q_div(needed, cnt);
                    lemma_pos_mul_pos(needed.den, s.len() as int);
                    lemma_norm_props(dq);
                    assert(q_eq(share, dq));
                    assert forall|i: int|
                        0 <= i < vols.len() implies 1 <= (#[trigger] vols[i]).den && q_eq(
                        vols[i],
                        share,
                    ) by {
                        assert(spec_apply(VolumeStrategy::SetAbsolute, s[i], share) == Some(
                            rs[i],
                        ));
                        match spec_tank_factor(rs[i]) {
                            Some(_) => {
                                assert(q_fits(vols[i]));
                            },
                            None => {
                                assert(false);
                            },
                        }
                        lemma_with_volume_round_trip(s[i], share, rs[i], vols[i]);
                    }
                    lemma_sum_of_equal_shares(vols, share);
                    let ln = s.len() as int;
                    let nn = needed.num;
                    let nd = needed.den;
                    assert((ln * (nn * 1)) * nd == nn * (1 * (nd * ln))) by (nonlinear_arith);
                    assert(q_eq(q_mul(cnt, dq), needed));
                    lemma_q_mul_eq_right(cnt, share, dq);
                    lemma_pos_mul_pos(nd, ln);
                    lemma_q_eq_trans(q_sum(vols), q_mul(cnt, share), q_mul(cnt, dq));
                    lemma_q_eq_trans(q_sum(vols), q_mul(cnt, dq), needed);
                },
                None => {
                    assert(false);
                },
            }
        },
        None => {
            assert(false);
        },
    }
}

/// Everything the bottom filter keeps comes from the source and is
/// breathable at the target depth.
pub proof fn lemma_filter_bottom_sound(s: Seq<TankV>, depth: Frac, t: TankV)
    requires
        spec_filter_bottom(s, depth).contains(t),
    ensures
        s.contains(t),
        spec_breathable(t, depth),
    decreases s.len(),
{
    let f = spec_filter_bottom(s, depth);
    if s.len() == 0 {
        assert(false);
    } else {
        let rest = spec_filter_bottom(s.drop_last(), depth);
        if spec_breathable(s.last(), depth) && t == s.last() {
            assert(s[s.len() - 1] == t);
        } else {
            let i = choose|i: int| 0 <= i < f.len() && f[i] == t;
            if spec_breathable(s.last(), depth) {
                assert(f == rest.push(s.last()));
                assert(i < rest.len());
                assert(rest[i] == t);
            }
            assert(rest.contains(t));
            lemma_filter_bottom_sound(s.drop_last(), depth, t);
            let j = choose|j: int| 0 <= j < s.drop_last().len() && s.drop_last()[j] == t;
            assert(s[j] == t);
        }
    }
}

/// Everything the stop filter keeps comes from the source, is breathable
/// at the safety stop, and is not breathable at the target depth.
pub proof fn lemma_filter_stop_sound(s: Seq<TankV>, depth: Frac, t: TankV)
    requires
        spec_filter_stop(s, depth).contains(t),
    ensures
        s.contains(t),
        spec_breathable(t, q_safety_stop_depth()),
        !spec_breathable(t, depth),
    decreases s.len(),
{
    let f = spec_filter_stop(s, depth);
    if s.len() == 0 {
        assert(false);
    } else {
        let keep_last = spec_breathable(s.last(), q_safety_stop_depth()) && !spec_breathable(
            s.last(),
            depth,
        );
        let rest = spec_filter_stop(s.drop_last(), depth);
        if keep_last && t == s.last() {
            assert(s[s.len() - 1] == t);
        } else {
            let i = choose|i: int| 0 <= i < f.len() && f[i] == t;
            if keep_last {
                assert(f == rest.push(s.last()));
                assert(i < rest.len());
                assert(rest[i] == t);
            }
            assert(rest.contains(t));
            lemma_filter_stop_sound(s.drop_last(), depth, t);
            let j = choose|j: int| 0 <= j < s.drop_last().len() && s.drop_last()[j] == t;
            assert(s[j] == t);
        }
    }
}

/// Partition disjointness: the bottom tanks and the stop tanks are
/// disjoint, and both are drawn from the diver's tanks.
pub proof fn lemma_partition_disjoint(s: Seq<TankV>, depth: Frac)
    ensures
        forall|t: TankV|
            #[trigger] spec_filter_bottom(s, depth).contains(t) ==> s.contains(t)
                && !spec_filter_stop(s, depth).contains(t),
        forall|t: TankV|
            #[trigger] spec_filter_stop(s, depth).contains(t) ==> s.contains(t)
                && !spec_filter_bottom(s, depth).contains(t),
{
    assert forall|t: TankV|
        #[trigger] spec_filter_bottom(s, depth).contains(t) implies s.contains(t)
        && !spec_filter_stop(s, depth).contains(t) by {
        lemma_filter_bottom_sound(s, depth, t);
        if spec_filter_stop(s, depth).contains(t) {
            lemma_filter_stop_sound(s, depth, t);
            assert(false);
        }
    }
    assert forall|t: TankV|
        #[trigger] spec_filter_stop(s, depth).contains(t) implies s.contains(t)
        && !spec_filter_bottom(s, depth).contains(t) by {
        lemma_filter_stop_sound(s, depth, t);
        if spec_filter_bottom(s, depth).contains(t) {
            lemma_filter_bottom_sound(s, depth, t);
            assert(false);
        }
    }
}

/// Dividing gas among no tanks is infeasible, never a success and never a
/// conversion error.
pub proof fn lemma_empty_allocation_infeasible(
    needed: Frac,
    strat: VolumeStrategy,
    phase: InfeasibleKind,
)
    ensures
        spec_divide(Seq::empty(), needed, strat, phase) == Err::<Seq<TankV>, RockBottomError>(
            RockBottomError::InfeasibleAllocation(phase),
        ),
{
}

/// A diver with no tanks never gets a plan: the computation fails, and
/// when the gas requirements themselves are representable it fails with
/// the bottom-phase infeasibility error.
pub proof fn lemma_rock_bottom_empty_kit(rmv: Frac, tanks: Seq<TankV>, depth: Frac)
    requires
        tanks.len() == 0,
    ensures
        spec_rock_bottom(rmv, tanks, depth) is Err,
        spec_gas_plan(rmv, depth) is Some ==> spec_rock_bottom(rmv, tanks, depth) == Err::<
            Seq<TankV>,
            RockBottomError,
        >(RockBottomError::InfeasibleAllocation(InfeasibleKind::NoBottomTanks)),
{
}

/// A successful plan always contains at least one tank: an empty result is
/// never returned as a success.
pub proof fn lemma_rock_bottom_no_empty_success(rmv: Frac, tanks: Seq<TankV>, depth: Frac)
    ensures
        spec_rock_bottom(rmv, tanks, depth) matches Ok(rs) ==> rs.len() >= 1,
{
    match spec_gas_plan(rmv, depth) {
        None => {
        },
        Some((bottom_gas, stop_gas)) => {
            let bottom = spec_filter_bottom(tanks, depth);
            let stop = spec_filter_stop(tanks, depth);
            match spec_divide(
                bottom,
                bottom_gas,
                VolumeStrategy::SetAbsolute,
                InfeasibleKind::NoBottomTanks,
            ) {
                Err(_) => {
                },
                Ok(ba) => {
                    let combined = ba + stop;
                    if combined.len() > 0 && combined.len() <= i64::MAX as int {
                        match n_div(stop_gas, Frac { num: combined.len() as int, den: 1 }) {
                            Some(share) => {
                                lemma_alloc_len(combined, share, VolumeStrategy::AddDelta);
                            },
                            None => {
                            },
                        }
                    }
                },
            }
        },
    }
}

} // verus!
