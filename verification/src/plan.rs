//! The gas budget and allocator: computes the rock-bottom reserve for a
//! diver at a target depth and distributes it across the usable cylinders.
//!
//! The executable functions are verified against a specification mirror
//! ([`spec_rock_bottom`], [`spec_divide`]) that states, step by step, the
//! exact rational value of every computed quantity and the exact condition
//! for each error.

use crate::rat::{n_add, n_div, n_mul, n_sub, q_abs, q_div, q_fits, q_modest, q_small, q_sub, Frac, Rat};
use crate::tank::{
    atmospheres, spec_atmospheres, spec_breathable, spec_add_volume, spec_with_volume, tank_wf,
    Tank, TankV,
};
use crate::{InfeasibleKind, RockBottomError};
use vstd::prelude::*;

verus! {

/// Depth of the mandatory safety stop, in metres: `4.5`.
pub open spec fn q_safety_stop_depth() -> Frac {
    Frac { num: 9, den: 2 }
}

/// Ascent rate, in metres per minute: `9.14`.
pub open spec fn q_ascent_rate() -> Frac {
    Frac { num: 457, den: 50 }
}

/// Duration of the safety stop, in minutes.
pub open spec fn q_safety_stop_minutes() -> Frac {
    Frac { num: 3, den: 1 }
}

/// The stress multiplier applied to all breathing rates.
pub open spec fn q_breathing_factor() -> Frac {
    Frac { num: 2, den: 1 }
}

/// The fixed problem-solving allowance at depth, in minutes.
pub open spec fn q_problem_minutes() -> Frac {
    Frac { num: 4, den: 1 }
}

/// A named grouping of the tanks a diver carries.
#[derive(Clone, Debug)]
pub struct Kit {
    pub tanks: Vec<Tank>,
}

/// A diver: a label, a surface breathing rate (respiratory minute volume),
/// and a kit of tanks.
#[derive(Clone, Debug)]
pub struct Diver {
    pub name: String,
    pub rmv: Rat,
    pub kit: Kit,
}

/// How [`divide_gas_among`] writes each tank's share: as the tank's whole
/// contents, or on top of what the tank already holds.
#[derive(Clone, Copy, Debug, PartialEq, Eq, Structural)]
pub enum VolumeStrategy {
    /// The share becomes the tank's entire contained volume.
    SetAbsolute,
    /// The share is added to the tank's contained volume.
    AddDelta,
}

/// The views of a sequence of tanks.
pub open spec fn tanks_view(s: Seq<Tank>) -> Seq<TankV> {
    s.map(|i: int, t: Tank| t@)
}

/// All tanks of the sequence are well-formed.
pub open spec fn kit_wf(s: Seq<TankV>) -> bool {
    forall|i: int| 0 <= i < s.len() ==> tank_wf(#[trigger] s[i])
}

/// The tanks breathable at the target depth.
pub open spec fn spec_filter_bottom(s: Seq<TankV>, depth: Frac) -> Seq<TankV>
    decreases s.len(),
{
    if s.len() == 0 {
        Seq::empty()
    } else {
        let rest = spec_filter_bottom(s.drop_last(), depth);
        if spec_breathable(s.last(), depth) {
            rest.push(s.last())
        } else {
            rest
        }
    }
}

/// The tanks breathable at the safety stop but not at the target depth.
pub open spec fn spec_filter_stop(s: Seq<TankV>, depth: Frac) -> Seq<TankV>
    decreases s.len(),
{
    if s.len() == 0 {
        Seq::empty()
    } else {
        let rest = spec_filter_stop(s.drop_last(), depth);
        if spec_breathable(s.last(), q_safety_stop_depth()) && !spec_breathable(s.last(), depth) {
            rest.push(s.last())
        } else {
            rest
        }
    }
}

/// One tank updated with its share, by the chosen strategy.
pub open spec fn spec_apply(strat: VolumeStrategy, t: TankV, share: Frac) -> Option<TankV> {
    match strat {
        VolumeStrategy::SetAbsolute => spec_with_volume(t, share),
        VolumeStrategy::AddDelta => spec_add_volume(t, share),
    }
}

/// Every tank updated with its share; `None` when any update fails.
pub open spec fn spec_alloc(s: Seq<TankV>, share: Frac, strat: VolumeStrategy) -> Option<
    Seq<TankV>,
>
    decreases s.len(),
{
    if s.len() == 0 {
        Some(Seq::empty())
    } else {
        match spec_alloc(s.drop_last(), share, strat) {
            None => None,
            Some(rest) => match spec_apply(strat, s.last(), share) {
                None => None,
                Some(t2) => Some(rest.push(t2)),
            },
        }
    }
}

/// Divides `needed` evenly by tank count and applies each share: the exact
/// result of [`divide_gas_among`].
pub open spec fn spec_divide(
    s: Seq<TankV>,
    needed: Frac,
    strat: VolumeStrategy,
    phase: InfeasibleKind,
) -> Result<Seq<TankV>, RockBottomError> {
    if s.len() == 0 {
        Err(RockBottomError::InfeasibleAllocation(phase))
    } else if s.len() > i64::MAX as int {
        Err(RockBottomError::ConversionFailure)
    } else {
        match n_div(needed, Frac { num: s.len() as int, den: 1 }) {
            None => Err(RockBottomError::ConversionFailure),
            Some(share) => match spec_alloc(s, share, strat) {
                None => Err(RockBottomError::ConversionFailure),
                Some(rs) => Ok(rs),
            },
        }
    }
}

/// The three gas requirements, combined into the bottom-phase total
/// (problem gas plus ascent gas) and the safety-stop gas; `None` when any
/// step of the chain is not representable.
pub open spec fn spec_gas_plan(rmv: Frac, depth: Frac) -> Option<(Frac, Frac)> {
    match n_sub(depth, q_safety_stop_depth()) {
        None => None,
        Some(half_diff) => match n_div(half_diff, q_breathing_factor()) {
            None => None,
            Some(mid) => {
                let ascent_ata = spec_atmospheres(mid);
                let bottom_ata = spec_atmospheres(depth);
                match n_div(depth, q_ascent_rate()) {
                    None => None,
                    Some(ascent_minutes) => match n_mul(rmv, q_breathing_factor()) {
                        None => None,
                        Some(p1) => match n_mul(p1, bottom_ata) {
                            None => None,
                            Some(p2) => match n_mul(p2, q_problem_minutes()) {
                                None => None,
                                Some(problem_gas) => match n_mul(ascent_ata, ascent_minutes) {
                                    None => None,
                                    Some(a1) => match n_mul(a1, rmv) {
                                        None => None,
                                        Some(a2) => match n_mul(a2, q_breathing_factor()) {
                                            None => None,
                                            Some(ascent_gas) => match n_mul(
                                                spec_atmospheres(q_safety_stop_depth()),
                                                q_safety_stop_minutes(),
                                            ) {
                                                None => None,
                                                Some(s1) => match n_mul(s1, rmv) {
                                                    None => None,
                                                    Some(s2) => match n_mul(
                                                        s2,
                                                        q_breathing_factor(),
                                                    ) {
                                                        None => None,
                                                        Some(stop_gas) => match n_add(
                                                            problem_gas,
                                                            ascent_gas,
                                                        ) {
                                                            None => None,
                                                            Some(bottom_gas) => Some(
                                                                (bottom_gas, stop_gas),
                                                            ),
                                                        },
                                                    },
                                                },
                                            },
                                        },
                                    },
                                },
                            },
                        },
                    },
                }
            },
        },
    }
}

/// The exact rock-bottom plan: gas requirements, tank partition, bottom
/// allocation, and safety-stop allocation, with the exact error otherwise.
pub open spec fn spec_rock_bottom(rmv: Frac, tanks: Seq<TankV>, depth: Frac) -> Result<
    Seq<TankV>,
    RockBottomError,
> {
    match spec_gas_plan(rmv, depth) {
        None => Err(RockBottomError::ConversionFailure),
        Some((bottom_gas, stop_gas)) => {
            let bottom = spec_filter_bottom(tanks, depth);
            let stop = spec_filter_stop(tanks, depth);
            match spec_divide(
                bottom,
                bottom_gas,
                VolumeStrategy::SetAbsolute,
                InfeasibleKind::NoBottomTanks,
            ) {
                Err(e) => Err(e),
                Ok(ba) => spec_divide(
                    ba + stop,
                    stop_gas,
                    VolumeStrategy::AddDelta,
                    InfeasibleKind::SafetyStopTanks,
                ),
            }
        },
    }
}

/// A failed update anywhere makes the whole allocation fail.
pub proof fn lemma_alloc_prefix_none(s: Seq<TankV>, share: Frac, strat: VolumeStrategy, j: int)
    requires
        0 <= j <= s.len(),
        spec_alloc(s.take(j), share, strat) is None,
    ensures
        spec_alloc(s, share, strat) is None,
    decreases s.len() - j,
{
    if j == s.len() {
        assert(s.take(j) =~= s);
    } else {
        assert(s.take(j + 1).drop_last() =~= s.take(j));
        assert(spec_alloc(s.take(j + 1), share, strat) is None);
        lemma_alloc_prefix_none(s, share, strat, j + 1);
    }
}

/// A successful allocation writes one tank per input tank.
pub proof fn lemma_alloc_len(s: Seq<TankV>, share: Frac, strat: VolumeStrategy)
    ensures
        spec_alloc(s, share, strat) matches Some(rs) ==> rs.len() == s.len(),
    decreases s.len(),
{
    if s.len() > 0 {
        lemma_alloc_len(s.drop_last(), share, strat);
    }
}

/// Divides `needed_gas` evenly among the given tanks — by count, never by
/// capacity — and writes each tank's share by `strategy`. Fails with an
/// infeasible-allocation error naming `phase` when there is no tank, and
/// with `ConversionFailure` when a count or an updated volume is not
/// representable.
pub fn divide_gas_among(
    tanks: Vec<Tank>,
    needed_gas: Rat,
    strategy: VolumeStrategy,
    phase: InfeasibleKind,
) -> (r: Result<Vec<Tank>, RockBottomError>)
    requires
        q_fits(needed_gas@),
        kit_wf(tanks_view(tanks@)),
    ensures
        (r is Ok) == (spec_divide(tanks_view(tanks@), needed_gas@, strategy, phase) is Ok),
        r matches Ok(v) ==> spec_divide(tanks_view(tanks@), needed_gas@, strategy, phase)
            == Ok::<Seq<TankV>, RockBottomError>(tanks_view(v@)) && kit_wf(tanks_view(v@)),
        r matches Err(e) ==> spec_divide(tanks_view(tanks@), needed_gas@, strategy, phase)
            == Err::<Seq<TankV>, RockBottomError>(e),
{
    let ghost sv = tanks_view(tanks@);
    let n = tanks.len();
    if n == 0 {
        return Err(RockBottomError::InfeasibleAllocation(phase));
    }
    if n as u64 > i64::MAX as u64 {
        return Err(RockBottomError::ConversionFailure);
    }
    let count = Rat { num: n as i64, den: 1 };
    let share = match needed_gas.div(count) {
        Ok(s) => s,
        Err(e) => {
            return Err(e);
        },
    };
    let mut out: Vec<Tank> = Vec::new();
    let mut i: usize = 0;
    while i < n
        invariant
            n == tanks@.len(),
            0 <= i <= n,
            sv == tanks_view(tanks@),
            sv.len() == n,
            1 <= n,
            n as int <= i64::MAX as int,
            q_fits(needed_gas@),
            q_fits(share@),
            n_div(needed_gas@, Frac { num: n as int, den: 1 }) == Some(share@),
            kit_wf(sv),
            out@.len() == i,
            spec_alloc(sv.take(i as int), share@, strategy) == Some(tanks_view(out@)),
            kit_wf(tanks_view(out@)),
        decreases n - i,
    {
        let t = tanks[i];
        assert(t@ == sv[i as int]);
        let res = match strategy {
            VolumeStrategy::SetAbsolute => t.with_volume(share),
            VolumeStrategy::AddDelta => t.add_volume(share),
        };
        match res {
            Ok(t2) => {
                let ghost prev = tanks_view(out@);
                out.push(t2);
                proof {
                    assert(sv.take(i as int + 1).drop_last() =~= sv.take(i as int));
                    assert(sv.take(i as int + 1).last() == sv[i as int]);
                    assert(spec_apply(strategy, sv[i as int], share@) == Some(t2@));
                    assert(tanks_view(out@) =~= prev.push(t2@));
                }
            },
            Err(e) => {
                proof {
                    assert(sv.take(i as int + 1).drop_last() =~= sv.take(i as int));
                    assert(sv.take(i as int + 1).last() == sv[i as int]);
                    assert(spec_apply(strategy, sv[i as int], share@) is None);
                    assert(spec_alloc(sv.take(i as int + 1), share@, strategy) is None);
                    lemma_alloc_prefix_none(sv, share@, strategy, i as int + 1);
                }
                return Err(e);
            },
        }
        i += 1;
    }
    proof {
        assert(sv.take(n as int) =~= sv);
    }
    Ok(out)
}

impl Diver {
    /// The rock-bottom plan for this diver at `depth_m` metres: the tanks
    /// usable at depth carry the problem and ascent gas, divided evenly, and
    /// every remaining tank of the plan carries an even share of the
    /// safety-stop gas on top. Returns the adjusted tanks; tanks breathable
    /// at neither depth are dropped. The result is exactly
    /// [`spec_rock_bottom`] on the diver's values.
    pub fn rock_bottom_pressure_rec(&self, depth_m: Rat) -> (r: Result<
        Vec<Tank>,
        RockBottomError,
    >)
        requires
            q_fits(self.rmv@),
            q_modest(depth_m@),
            kit_wf(tanks_view(self.kit.tanks@)),
        ensures
            (r is Ok) == (spec_rock_bottom(self.rmv@, tanks_view(self.kit.tanks@), depth_m@)
                is Ok),
            r matches Ok(v) ==> spec_rock_bottom(self.rmv@, tanks_view(self.kit.tanks@), depth_m@)
                == Ok::<Seq<TankV>, RockBottomError>(tanks_view(v@)) && kit_wf(tanks_view(v@)),
            r matches Err(e) ==> spec_rock_bottom(self.rmv@, tanks_view(self.kit.tanks@), depth_m@)
                == Err::<Seq<TankV>, RockBottomError>(e),
    {
        let ghost sv = tanks_view(self.kit.tanks@);
        let ssd = Rat { num: 9, den: 2 };
        let two = Rat { num: 2, den: 1 };
        let three = Rat { num: 3, den: 1 };
        let four = Rat { num: 4, den: 1 };
        let rate = Rat { num: 457, den: 50 };

        let half_diff = match depth_m.sub(ssd) {
            Ok(v) => v,
            Err(e) => {
                return Err(e);
            },
        };
        let mid = match half_diff.div(two) {
            Ok(v) => v,
            Err(e) => {
                return Err(e);
            },
        };
        proof {
            assert(q_abs(q_sub(depth_m@, ssd@).num) <= 11 * 0x10_0000);
            assert(q_abs(q_div(half_diff@, two@).num) == q_abs(half_diff@.num * 1));
            assert(q_small(mid@));
        }
        let ascent_ata = atmospheres(mid);
        let bottom_ata = atmospheres(depth_m);
        let ascent_minutes = match depth_m.div(rate) {
            Ok(v) => v,
            Err(e) => {
                return Err(e);
            },
        };
        let p1 = match self.rmv.mul(two) {
            Ok(v) => v,
            Err(e) => {
                return Err(e);
            },
        };
        let p2 = match p1.mul(bottom_ata) {
            Ok(v) => v,
            Err(e) => {
                return Err(e);
            },
        };
        let problem_gas = match p2.mul(four) {
            Ok(v) => v,
            Err(e) => {
                return Err(e);
            },
        };
        let a1 = match ascent_ata.mul(ascent_minutes) {
            Ok(v) => v,
            Err(e) => {
                return Err(e);
            },
        };
        let a2 = match a1.mul(self.rmv) {
            Ok(v) => v,
            Err(e) => {
                return Err(e);
            },
        };
        let ascent_gas = match a2.mul(two) {
            Ok(v) => v,
            Err(e) => {
                return Err(e);
            },
        };
        let stop_atm = atmospheres(ssd);
        let s1 = match stop_atm.mul(three) {
            Ok(v) => v,
            Err(e) => {
                return Err(e);
            },
        };
        let s2 = match s1.mul(self.rmv) {
            Ok(v) => v,
            Err(e) => {
                return Err(e);
            },
        };
        let stop_gas = match s2.mul(two) {
            Ok(v) => v,
            Err(e) => {
                return Err(e);
            },
        };
        let bottom_gas = match problem_gas.add(ascent_gas) {
            Ok(v) => v,
            Err(e) => {
                return Err(e);
            },
        };
        assert(spec_gas_plan(self.rmv@, depth_m@) == Some((bottom_gas@, stop_gas@)));

        let mut bottom_tanks: Vec<Tank> = Vec::new();
        let mut i: usize = 0;
        let kit_len = self.kit.tanks.len();
        while i < kit_len
            invariant
                kit_len == self.kit.tanks@.len(),
                0 <= i <= kit_len,
                sv == tanks_view(self.kit.tanks@),
                kit_wf(sv),
                q_modest(depth_m@),
                tanks_view(bottom_tanks@) == spec_filter_bottom(sv.take(i as int), depth_m@),
                kit_wf(tanks_view(bottom_tanks@)),
            decreases kit_len - i,
        {
            let t = self.kit.tanks[i];
            assert(t@ == sv[i as int]);
            let ghost prev = tanks_view(bottom_tanks@);
            if t.breathable_at(depth_m) {
                bottom_tanks.push(t);
                proof {
                    assert(tanks_view(bottom_tanks@) =~= prev.push(t@));
                }
            }
            proof {
                assert(sv.take(i as int + 1).drop_last() =~= sv.take(i as int));
                assert(sv.take(i as int + 1).last() == sv[i as int]);
            }
            i += 1;
        }
        let mut stop_tanks: Vec<Tank> = Vec::new();
        let mut j: usize = 0;
        while j < kit_len
            invariant
                kit_len == self.kit.tanks@.len(),
                0 <= j <= kit_len,
                sv == tanks_view(self.kit.tanks@),
                kit_wf(sv),
                q_modest(depth_m@),
                tanks_view(stop_tanks@) == spec_filter_stop(sv.take(j as int), depth_m@),
                kit_wf(tanks_view(stop_tanks@)),
            decreases kit_len - j,
        {
            let t = self.kit.tanks[j];
            assert(t@ == sv[j as int]);
            let ghost prev = tanks_view(stop_tanks@);
            let ssd_local = Rat { num: 9, den: 2 };
            if t.breathable_at(ssd_local) && !t.breathable_at(depth_m) {
                stop_tanks.push(t);
                proof {
                    assert(tanks_view(stop_tanks@) =~= prev.push(t@));
                }
            }
            proof {
                assert(sv.take(j as int + 1).drop_last() =~= sv.take(j as int));
                assert(sv.take(j as int + 1).last() == sv[j as int]);
            }
            j += 1;
        }
        proof {
            assert(sv.take(kit_len as int) =~= sv);
        }

        let mut all_tanks = match divide_gas_among(
            bottom_tanks,
            bottom_gas,
            VolumeStrategy::SetAbsolute,
            InfeasibleKind::NoBottomTanks,
        ) {
            Ok(v) => v,
            Err(e) => {
                return Err(e);
            },
        };
        let ghost ba = tanks_view(all_tanks@);
        let ghost stv = tanks_view(stop_tanks@);
        all_tanks.append(&mut stop_tanks);
        proof {
            assert(tanks_view(all_tanks@) =~= ba + stv);
        }
        divide_gas_among(all_tanks, stop_gas, VolumeStrategy::AddDelta, InfeasibleKind::SafetyStopTanks)
    }
}

} // verus!
