use rock_bottom::plan::{divide_gas_among, Diver, Kit, VolumeStrategy};
use rock_bottom::rat::Rat;
use rock_bottom::tank::{atmospheres, Tank};
use rock_bottom::{InfeasibleKind, RockBottomError};

#[test]
fn test_with_volume_round_trip() {
    let t = Tank {
        service_pressure: 3442,
        capacity_cuft: Rat::new(1013, 10).unwrap(),
        gauge_pressure: Rat::new(750, 1).unwrap(),
        f_o2: Rat::new(21, 100).unwrap(),
        f_n2: Rat::new(79, 100).unwrap(),
    };
    let v = Rat::new(37, 3).unwrap();
    let t2 = t.with_volume(v).unwrap();
    assert!(t2.gas_volume_cuft().unwrap().eq_value(v));
    // Other fields are untouched.
    assert_eq!(t2.service_pressure, 3442);
    assert!(t2.capacity_cuft.eq_value(Rat::new(1013, 10).unwrap()));
    assert!(t2.f_o2.eq_value(Rat::new(21, 100).unwrap()));
}

#[test]
fn test_add_volume_additivity() {
    let t = Tank {
        service_pressure: 3442,
        capacity_cuft: Rat::new(1013, 10).unwrap(),
        gauge_pressure: Rat::new(750, 1).unwrap(),
        f_o2: Rat::new(21, 100).unwrap(),
        f_n2: Rat::new(79, 100).unwrap(),
    };
    let before = t.gas_volume_cuft().unwrap();
    let delta = Rat::new(5, 2).unwrap();
    let t2 = t.add_volume(delta).unwrap();
    let after = t2.gas_volume_cuft().unwrap();
    assert!(after.eq_value(before.add(delta).unwrap()));
}

#[test]
fn test_allocation_conservation() {
    // Two different tanks; shares are divided by count, so the readable
    // volumes sum back to exactly the needed volume.
    let t1 = Tank {
        service_pressure: 3442,
        capacity_cuft: Rat::new(1013, 10).unwrap(),
        gauge_pressure: Rat::new(750, 1).unwrap(),
        f_o2: Rat::new(21, 100).unwrap(),
        f_n2: Rat::new(79, 100).unwrap(),
    };
    let t2 = Tank {
        service_pressure: 3000,
        capacity_cuft: Rat::new(80, 1).unwrap(),
        gauge_pressure: Rat::new(500, 1).unwrap(),
        f_o2: Rat::new(21, 100).unwrap(),
        f_n2: Rat::new(79, 100).unwrap(),
    };
    let needed = Rat::new(10, 1).unwrap();
    let out = divide_gas_among(
        vec![t1, t2],
        needed,
        VolumeStrategy::SetAbsolute,
        InfeasibleKind::NoBottomTanks,
    )
    .unwrap();
    assert_eq!(out.len(), 2);
    let v1 = out[0].gas_volume_cuft().unwrap();
    let v2 = out[1].gas_volume_cuft().unwrap();
    assert!(v1.eq_value(Rat::new(5, 1).unwrap()));
    assert!(v2.eq_value(Rat::new(5, 1).unwrap()));
    assert!(v1.add(v2).unwrap().eq_value(needed));
}

#[test]
fn test_divide_among_none_is_infeasible() {
    let needed = Rat::new(5, 1).unwrap();
    let r = divide_gas_among(
        Vec::new(),
        needed,
        VolumeStrategy::SetAbsolute,
        InfeasibleKind::NoBottomTanks,
    );
    assert_eq!(
        r,
        Err(RockBottomError::InfeasibleAllocation(InfeasibleKind::NoBottomTanks))
    );
    let r2 = divide_gas_among(
        Vec::new(),
        needed,
        VolumeStrategy::AddDelta,
        InfeasibleKind::SafetyStopTanks,
    );
    assert_eq!(
        r2,
        Err(RockBottomError::InfeasibleAllocation(InfeasibleKind::SafetyStopTanks))
    );
}

#[test]
fn test_empty_kit_is_infeasible() {
    let d = Diver {
        name: String::from("Noah"),
        rmv: Rat::new(7, 10).unwrap(),
        kit: Kit { tanks: Vec::new() },
    };
    let r = d.rock_bottom_pressure_rec(Rat::new(30, 1).unwrap());
    assert_eq!(
        r,
        Err(RockBottomError::InfeasibleAllocation(InfeasibleKind::NoBottomTanks))
    );
}

#[test]
fn test_no_breathable_bottom_tank_is_infeasible() {
    // Pure oxygen is breathable at neither 30 m nor the 4.5 m stop, so the
    // tank is silently excluded and the bottom partition is empty.
    let d = Diver {
        name: String::from("Mia"),
        rmv: Rat::new(7, 10).unwrap(),
        kit: Kit {
            tanks: vec![Tank {
                service_pressure: 3442,
                capacity_cuft: Rat::new(1013, 10).unwrap(),
                gauge_pressure: Rat::new(750, 1).unwrap(),
                f_o2: Rat::new(1, 1).unwrap(),
                f_n2: Rat::new(0, 1).unwrap(),
            }],
        },
    };
    let r = d.rock_bottom_pressure_rec(Rat::new(30, 1).unwrap());
    assert_eq!(
        r,
        Err(RockBottomError::InfeasibleAllocation(InfeasibleKind::NoBottomTanks))
    );
}

#[test]
fn test_conversion_failure_propagates() {
    // A capacity with a huge denominator cannot be divided by the service
    // pressure inside the rational type: the failure is a conversion
    // failure, distinct from infeasibility, and reaches the caller.
    let awkward = Tank {
        service_pressure: 3442,
        capacity_cuft: Rat::new(1, i64::MAX).unwrap(),
        gauge_pressure: Rat::new(750, 1).unwrap(),
        f_o2: Rat::new(21, 100).unwrap(),
        f_n2: Rat::new(79, 100).unwrap(),
    };
    assert_eq!(awkward.tank_factor(), Err(RockBottomError::ConversionFailure));
    assert_eq!(awkward.gas_volume_cuft(), Err(RockBottomError::ConversionFailure));
    let d = Diver {
        name: String::from("Ada"),
        rmv: Rat::new(7, 10).unwrap(),
        kit: Kit { tanks: vec![awkward] },
    };
    let r = d.rock_bottom_pressure_rec(Rat::new(30, 1).unwrap());
    assert_eq!(r, Err(RockBottomError::ConversionFailure));
}

#[test]
fn test_partition_stop_tank_gets_stop_share() {
    // An air tank works at 30 m; a rich mix (f_o2 = 0.9) only at the stop.
    // The air tank takes the whole bottom reserve; the stop gas is divided
    // between both.
    let air = Tank {
        service_pressure: 3442,
        capacity_cuft: Rat::new(1013, 10).unwrap(),
        gauge_pressure: Rat::new(750, 1).unwrap(),
        f_o2: Rat::new(21, 100).unwrap(),
        f_n2: Rat::new(79, 100).unwrap(),
    };
    let deco = Tank {
        service_pressure: 2400,
        capacity_cuft: Rat::new(40, 1).unwrap(),
        gauge_pressure: Rat::new(2400, 1).unwrap(),
        f_o2: Rat::new(9, 10).unwrap(),
        f_n2: Rat::new(1, 10).unwrap(),
    };
    let rmv = Rat::new(7, 10).unwrap();
    let d = Diver {
        name: String::from("Joss"),
        rmv,
        kit: Kit { tanks: vec![air, deco] },
    };
    let out = d.rock_bottom_pressure_rec(Rat::new(30, 1).unwrap()).unwrap();
    assert_eq!(out.len(), 2);
    // Bottom tanks come first, then the stop tanks.
    assert!(out[0].f_o2.eq_value(Rat::new(21, 100).unwrap()));
    assert!(out[1].f_o2.eq_value(Rat::new(9, 10).unwrap()));
    // The stop tank carries exactly half of the stop gas:
    // stop_gas = atmospheres(4.5) * 3 * rmv * 2.
    let ssd = Rat::new(9, 2).unwrap();
    let stop_gas = atmospheres(ssd)
        .mul(Rat::new(3, 1).unwrap())
        .unwrap()
        .mul(rmv)
        .unwrap()
        .mul(Rat::new(2, 1).unwrap())
        .unwrap();
    let half_stop = stop_gas.div(Rat::new(2, 1).unwrap()).unwrap();
    // ... added on top of the 40 cubic feet the full deco tank already holds.
    let expected = deco.gas_volume_cuft().unwrap().add(half_stop).unwrap();
    assert!(out[1].gas_volume_cuft().unwrap().eq_value(expected));
}

#[test]
fn test_rat_arithmetic() {
    let third = Rat::new(1, 3).unwrap();
    let sixth = Rat::new(1, 6).unwrap();
    let half = Rat::new(1, 2).unwrap();
    assert!(third.add(sixth).unwrap().eq_value(half));
    assert!(Rat::new(2, 4).unwrap().eq_value(half));
    assert!(half.sub(third).unwrap().eq_value(sixth));
    assert!(third.mul(half).unwrap().eq_value(sixth));
    assert!(third.div(half).unwrap().eq_value(Rat::new(2, 3).unwrap()));
    assert!(sixth.le(third));
    assert!(!third.le(sixth));
    // A non-positive denominator is rejected.
    assert!(Rat::new(1, 0).is_none());
    assert!(Rat::new(1, -2).is_none());
}
