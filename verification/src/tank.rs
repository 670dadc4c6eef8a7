//! The cylinder model: physical state, derived quantities, and pure
//! volume-change operations.
//!
//! A tank never changes in place: [`Tank::with_volume`] and
//! [`Tank::add_volume`] return a new record with an adjusted gauge pressure.
//! Every derived quantity is specified exactly over the tank's view
//! [`TankV`], whose fields are mathematical fractions.

use crate::rat::{
    lemma_mul_bounds, lemma_pos_mul_pos, n_add, n_div, n_mul, q_fits, q_le, q_modest, q_mul,
    q_small, Frac, Rat,
};
use crate::RockBottomError;
use vstd::prelude::*;

verus! {

/// Mathematical view of a [`Tank`].
pub ghost struct TankV {
    pub service_pressure: int,
    pub capacity_cuft: Frac,
    pub gauge_pressure: Frac,
    pub f_o2: Frac,
    pub f_n2: Frac,
}

/// One gas cylinder: rated pressure and volume, current gauge pressure, and
/// the oxygen and nitrogen fractions of its mix.
#[derive(Clone, Copy, Debug, PartialEq, Eq, Structural)]
pub struct Tank {
    pub service_pressure: u16,
    pub capacity_cuft: Rat,
    pub gauge_pressure: Rat,
    pub f_o2: Rat,
    pub f_n2: Rat,
}

impl View for Tank {
    type V = TankV;

    open spec fn view(&self) -> TankV {
        TankV {
            service_pressure: self.service_pressure as int,
            capacity_cuft: self.capacity_cuft@,
            gauge_pressure: self.gauge_pressure@,
            f_o2: self.f_o2@,
            f_n2: self.f_n2@,
        }
    }
}

/// A well-formed tank: positive rated pressure and capacity, representable
/// gauge pressure, and gas fractions in `[0, 1]` of modest size.
pub open spec fn tank_wf(t: TankV) -> bool {
    &&& 1 <= t.service_pressure <= u16::MAX as int
    &&& q_fits(t.capacity_cuft) && 1 <= t.capacity_cuft.num
    &&& q_fits(t.gauge_pressure)
    &&& q_modest(t.f_o2) && 0 <= t.f_o2.num <= t.f_o2.den
    &&& q_modest(t.f_n2) && 0 <= t.f_n2.num <= t.f_n2.den
}

/// Absolute pressure, in atmospheres, at `depth` metres of seawater:
/// `1 + depth / 10`.
pub open spec fn spec_atmospheres(depth: Frac) -> Frac {
    Frac { num: depth.num + 10 * depth.den, den: 10 * depth.den }
}

/// Partial pressure of oxygen for the tank's mix at `depth` metres:
/// `atmospheres(depth) * f_o2`.
pub open spec fn spec_pO2(t: TankV, depth: Frac) -> Frac {
    q_mul(spec_atmospheres(depth), t.f_o2)
}

/// Whether the tank's mix is breathable at `depth` metres: partial pressure
/// of oxygen at most `1.4` atmospheres.
pub open spec fn spec_breathable(t: TankV, depth: Frac) -> bool {
    q_le(spec_pO2(t, depth), Frac { num: 7, den: 5 })
}

/// Volume of gas delivered per unit of gauge pressure:
/// `capacity_cuft / service_pressure`.
pub open spec fn spec_tank_factor(t: TankV) -> Option<Frac> {
    n_div(t.capacity_cuft, Frac { num: t.service_pressure, den: 1 })
}

/// Gas volume currently contained: `gauge_pressure * tank_factor`.
pub open spec fn spec_gas_volume(t: TankV) -> Option<Frac> {
    match spec_tank_factor(t) {
        Some(tf) => n_mul(t.gauge_pressure, tf),
        None => None,
    }
}

/// The tank with its gauge pressure set so that the contained volume is
/// exactly `volume`; all other fields unchanged.
pub open spec fn spec_with_volume(t: TankV, volume: Frac) -> Option<TankV> {
    match spec_tank_factor(t) {
        None => None,
        Some(tf) => match n_div(volume, tf) {
            None => None,
            Some(g) => Some(TankV { gauge_pressure: g, ..t }),
        },
    }
}

/// The tank with `delta` added to its contained volume.
pub open spec fn spec_add_volume(t: TankV, delta: Frac) -> Option<TankV> {
    match spec_gas_volume(t) {
        None => None,
        Some(gv) => match n_add(gv, delta) {
            None => None,
            Some(nv) => spec_with_volume(t, nv),
        },
    }
}

/// Absolute pressure in atmospheres at `depth_m` metres of seawater.
pub fn atmospheres(depth_m: Rat) -> (r: Rat)
    requires
        q_small(depth_m@),
    ensures
        r@ == spec_atmospheres(depth_m@),
        q_fits(r@),
{
    Rat { num: depth_m.num + 10 * depth_m.den, den: 10 * depth_m.den }
}

impl Tank {
    /// Volume per unit of gauge pressure. Fails with `ConversionFailure`
    /// exactly when the reduced ratio does not fit the rational type.
    pub fn tank_factor(&self) -> (r: Result<Rat, RockBottomError>)
        requires
            tank_wf(self@),
        ensures
            (r is Ok) == (spec_tank_factor(self@) is Some),
            r matches Ok(tf) ==> spec_tank_factor(self@) == Some(tf@) && q_fits(tf@) && 1
                <= tf@.num,
            r matches Err(e) ==> e == RockBottomError::ConversionFailure,
    {
        let sp = Rat { num: self.service_pressure as i64, den: 1 };
        match self.capacity_cuft.div(sp) {
            Ok(tf) => {
                proof {
                    lemma_pos_mul_pos(self@.capacity_cuft.den, self@.service_pressure);
                    assert(1 <= tf@.num) by (nonlinear_arith)
                        requires
                            tf@.num * (self@.capacity_cuft.den * self@.service_pressure)
                                == self@.capacity_cuft.num * tf@.den,
                            1 <= self@.capacity_cuft.den * self@.service_pressure,
                            1 <= self@.capacity_cuft.num,
                            1 <= tf@.den,
                    ;
                }
                Ok(tf)
            },
            Err(e) => Err(e),
        }
    }

    /// The contained gas volume, `gauge_pressure * tank_factor`.
    pub fn gas_volume_cuft(&self) -> (r: Result<Rat, RockBottomError>)
        requires
            tank_wf(self@),
        ensures
            (r is Ok) == (spec_gas_volume(self@) is Some),
            r matches Ok(v) ==> spec_gas_volume(self@) == Some(v@) && q_fits(v@),
            r matches Err(e) ==> e == RockBottomError::ConversionFailure,
    {
        match self.tank_factor() {
            Ok(tf) => self.gauge_pressure.mul(tf),
            Err(e) => Err(e),
        }
    }

    /// Partial pressure of oxygen at `depth_m` metres. Total: the result of
    /// the formula on a small depth always fits the rational type.
    #[allow(non_snake_case)]
    pub fn pO2(&self, depth_m: Rat) -> (r: Rat)
        requires
            tank_wf(self@),
            q_small(depth_m@),
        ensures
            r@ == spec_pO2(self@, depth_m@),
            q_fits(r@),
    {
        let atm = atmospheres(depth_m);
        proof {
            lemma_mul_bounds(atm@.num, self@.f_o2.num, (11 * 0x800_0000) as int, 0x10_0000 as int);
            lemma_mul_bounds(atm@.den, self@.f_o2.den, (10 * 0x800_0000) as int, 0x10_0000 as int);
            lemma_pos_mul_pos(atm@.den, self@.f_o2.den);
        }
        Rat { num: atm.num * self.f_o2.num, den: atm.den * self.f_o2.den }
    }

    /// Whether this tank's mix may be breathed at `depth_m` metres: the
    /// partial pressure of oxygen is at most `1.4` atmospheres.
    pub fn breathable_at(&self, depth_m: Rat) -> (r: bool)
        requires
            tank_wf(self@),
            q_small(depth_m@),
        ensures
            r == spec_breathable(self@, depth_m@),
    {
        self.pO2(depth_m).le(Rat { num: 7, den: 5 })
    }

    /// A new tank whose contained volume is exactly `volume`, the gauge
    /// pressure adjusted accordingly; every other field is kept. The target
    /// may drive the gauge pressure above the service pressure.
    pub fn with_volume(self, volume: Rat) -> (r: Result<Tank, RockBottomError>)
        requires
            tank_wf(self@),
            q_fits(volume@),
        ensures
            (r is Ok) == (spec_with_volume(self@, volume@) is Some),
            r matches Ok(t2) ==> spec_with_volume(self@, volume@) == Some(t2@) && tank_wf(t2@),
            r matches Err(e) ==> e == RockBottomError::ConversionFailure,
    {
        match self.tank_factor() {
            Ok(tf) => match volume.div(tf) {
                Ok(g) => Ok(Tank { gauge_pressure: g, ..self }),
                Err(e) => Err(e),
            },
            Err(e) => Err(e),
        }
    }

    /// A new tank with `volume` added to the contained gas volume.
    pub fn add_volume(self, volume: Rat) -> (r: Result<Tank, RockBottomError>)
        requires
            tank_wf(self@),
            q_fits(volume@),
        ensures
            (r is Ok) == (spec_add_volume(self@, volume@) is Some),
            r matches Ok(t2) ==> spec_add_volume(self@, volume@) == Some(t2@) && tank_wf(t2@),
            r matches Err(e) ==> e == RockBottomError::ConversionFailure,
    {
        match self.gas_volume_cuft() {
            Ok(gv) => match gv.add(volume) {
                Ok(nv) => self.with_volume(nv),
                Err(e) => Err(e),
            },
            Err(e) => Err(e),
        }
    }
}

} // verus!
