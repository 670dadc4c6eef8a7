use rock_bottom::plan::{Diver, Kit};
use rock_bottom::rat::Rat;
use rock_bottom::tank::Tank;

#[test]
fn test_tank_volume() {
    let tank1 = Tank {
        service_pressure: 3442,
        capacity_cuft: Rat::new(1013, 10).unwrap(),
        gauge_pressure: Rat::new(750, 1).unwrap(),
        f_o2: Rat::new(21, 100).unwrap(),
        f_n2: Rat::new(79, 100).unwrap(),
    };
    let vol = tank1.gas_volume_cuft();
    match vol {
        Ok(v) => {
            // Exactly 750 * 101.3 / 3442 cubic feet.
            assert!(v.eq_value(Rat::new(75975, 3442).unwrap()));
            // Close to the reference value 22.0729.
            assert!(Rat::new(220, 10).unwrap().le(v));
            assert!(v.le(Rat::new(222, 10).unwrap()));
        }
        Err(_) => panic!("Values don't convert cleanly"),
    }
}

#[test]
fn test_tank_breathable() {
    let t50 = Tank {
        service_pressure: 3442,
        capacity_cuft: Rat::new(1013, 10).unwrap(),
        gauge_pressure: Rat::new(3200, 1).unwrap(),
        f_o2: Rat::new(5, 10).unwrap(),
        f_n2: Rat::new(5, 10).unwrap(),
    };
    assert_eq!(t50.breathable_at(Rat::new(19, 1).unwrap()), false);
    assert_eq!(t50.breathable_at(Rat::new(18, 1).unwrap()), true);
}

#[test]
fn test_rock_bottom() {
    let d = Diver {
        name: String::from("Tyler"),
        rmv: Rat::new(7, 10).unwrap(),
        kit: Kit {
            tanks: vec![Tank {
                service_pressure: 3442,
                capacity_cuft: Rat::new(1013, 10).unwrap(),
                gauge_pressure: Rat::new(750, 1).unwrap(),
                f_o2: Rat::new(21, 100).unwrap(),
                f_n2: Rat::new(79, 100).unwrap(),
            }],
        },
    };
    let rb_tanks = d
        .rock_bottom_pressure_rec(Rat::new(30, 1).unwrap())
        .expect("Rock bottom shouldn't fail with a rec diving config");
    assert_eq!(rb_tanks.len(), 1);
}

#[test]
fn test_rock_bottom_reserve_value() {
    // The single resulting tank carries the whole reserve: problem gas,
    // ascent gas, and safety-stop gas.
    let rmv = Rat::new(7, 10).unwrap();
    let d = Diver {
        name: String::from("Tyler"),
        rmv,
        kit: Kit {
            tanks: vec![Tank {
                service_pressure: 3442,
                capacity_cuft: Rat::new(1013, 10).unwrap(),
                gauge_pressure: Rat::new(750, 1).unwrap(),
                f_o2: Rat::new(21, 100).unwrap(),
                f_n2: Rat::new(79, 100).unwrap(),
            }],
        },
    };
    let rb_tanks = d.rock_bottom_pressure_rec(Rat::new(30, 1).unwrap()).unwrap();
    let got = rb_tanks[0].gas_volume_cuft().unwrap();

    // problem_gas = rmv * 2 * atmospheres(30) * 4 = 0.7 * 2 * 4 * 4 = 22.4
    let problem = Rat::new(224, 10).unwrap();
    // ascent_ata = atmospheres((30 - 4.5) / 2) = 1 + 12.75 / 10 = 2.275
    // ascent_minutes = 30 / 9.14 = 1500 / 457
    // ascent_gas = 2.275 * (1500/457) * 0.7 * 2 = 4777.5 / 457
    let ascent = Rat::new(47775, 4570).unwrap();
    // stop_gas = atmospheres(4.5) * 3 * 0.7 * 2 = 1.45 * 4.2 = 6.09
    let stop = Rat::new(609, 100).unwrap();
    let expected = problem.add(ascent).unwrap().add(stop).unwrap();
    assert!(got.eq_value(expected));
}

#[test]
fn test_breathability_threshold() {
    // With f_o2 = 0.5 the oxygen limit is reached at exactly 18 m:
    // breathable at and above that depth, not below it.
    let t = Tank {
        service_pressure: 3000,
        capacity_cuft: Rat::new(80, 1).unwrap(),
        gauge_pressure: Rat::new(3000, 1).unwrap(),
        f_o2: Rat::new(1, 2).unwrap(),
        f_n2: Rat::new(1, 2).unwrap(),
    };
    assert!(t.breathable_at(Rat::new(0, 1).unwrap()));
    assert!(t.breathable_at(Rat::new(10, 1).unwrap()));
    assert!(t.breathable_at(Rat::new(18, 1).unwrap()));
    assert!(!t.breathable_at(Rat::new(18001, 1000).unwrap()));
    assert!(!t.breathable_at(Rat::new(100, 1).unwrap()));
}
