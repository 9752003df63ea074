use flight_combat::coalition::{Coalition, CoalitionType};
use flight_combat::geometry::Vec3i;
use flight_combat::radar::{
    aspect_factor, distance_factor, effective_gain, expire_reflected_energy, high_altitude_curve,
    low_altitude_curve, return_energy, update_radar, update_rcs, RadarDetectable, RadarEmitter,
    RadarEmitterType, RadarTarget,
};

fn target(side: CoalitionType, position: Vec3i, heading_angle: u64) -> RadarTarget {
    RadarTarget {
        detectable: RadarDetectable { radar_cross_section: 200, ..RadarDetectable::default() },
        position,
        coalition: Coalition { side },
        heading_angle,
    }
}

fn origin() -> Vec3i {
    Vec3i { x: 0, y: 0, z: 0 }
}

#[test]
fn low_altitude_curve_ramps_to_one_at_a_thousand_units() {
    assert_eq!(low_altitude_curve(0), 0);
    assert_eq!(low_altitude_curve(-5_000), 0);
    assert_eq!(low_altitude_curve(500_000), 500);
    assert_eq!(low_altitude_curve(999_999), 999);
    assert_eq!(low_altitude_curve(1_000_000), 1000);
    assert_eq!(low_altitude_curve(5_000_000), 1000);
    let mut last = 0;
    for alt in (0..=1_000_000i64).step_by(12_345) {
        let c = low_altitude_curve(alt);
        assert!(c >= last);
        last = c;
    }
}

#[test]
fn high_altitude_curve_fades_to_its_floor() {
    assert_eq!(high_altitude_curve(0), 1000);
    assert_eq!(high_altitude_curve(8_000_000), 1000);
    assert_eq!(high_altitude_curve(12_000_000), 800);
    assert_eq!(high_altitude_curve(18_000_000), 500);
    assert_eq!(high_altitude_curve(20_000_000), 400);
    assert_eq!(high_altitude_curve(28_000_000), 400);
    assert_eq!(high_altitude_curve(i64::MAX), 400);
    let mut last = 1000;
    for alt in (8_000_000..=40_000_000i64).step_by(333_333) {
        let c = high_altitude_curve(alt);
        assert!(c <= last && c >= 400);
        last = c;
    }
}

#[test]
fn rcs_grows_with_altitude_and_attitude() {
    let mut d = RadarDetectable::default();
    update_rcs(&mut d, 500_000, 0, 0);
    assert_eq!(d.radar_cross_section, 100);
    update_rcs(&mut d, 500_000, 1000, 500);
    assert_eq!(d.radar_cross_section, 700);
    update_rcs(&mut d, 0, 0, 0);
    assert_eq!(d.radar_cross_section, 0);
    assert_eq!(d.base_radar_cross_section, 200);
}

#[test]
fn aspect_is_folded_into_a_right_angle() {
    assert_eq!(aspect_factor(0), 0);
    assert_eq!(aspect_factor(45_000), 500);
    assert_eq!(aspect_factor(90_000), 1000);
    assert_eq!(aspect_factor(135_000), 500);
    assert_eq!(aspect_factor(180_000), 0);
}

#[test]
fn distance_factor_is_clamped_to_one() {
    assert_eq!(distance_factor(50_000_000, 100), 500);
    assert_eq!(distance_factor(500_000_000, 100), 1000);
    assert_eq!(distance_factor(0, 100), 0);
    assert_eq!(distance_factor(12, 0), 1000);
}

#[test]
fn pulse_and_doppler_gains_are_complements() {
    for aspect in [0u64, 1, 333, 500, 999, 1000] {
        let p = effective_gain(RadarEmitterType::PULSE, 100_000, aspect);
        let d = effective_gain(RadarEmitterType::DOPPLER, 100_000, aspect);
        assert_eq!(p + d, 100_000 * 1000);
    }
    assert_eq!(effective_gain(RadarEmitterType::PULSE, 100_000, 250), 25_000_000);
    assert_eq!(effective_gain(RadarEmitterType::DOPPLER, 100_000, 250), 75_000_000);
}

#[test]
fn return_energy_of_a_side_on_target() {
    let e = RadarEmitter::default();
    let t = target(CoalitionType::RED, Vec3i { x: 0, y: 0, z: 50_000_000 }, 90_000);
    assert_eq!(return_energy(&e, origin(), &t), 5_020_000);
    let t2 = target(CoalitionType::RED, Vec3i { x: 0, y: 0, z: 50_000_000 }, 135_000);
    assert_eq!(return_energy(&e, origin(), &t2), 2_510_000);
    let doppler = RadarEmitter { radar_type: RadarEmitterType::DOPPLER, ..RadarEmitter::default() };
    assert_eq!(return_energy(&doppler, origin(), &t), 0);
    assert_eq!(return_energy(&doppler, origin(), &t2), 2_510_000);
}

#[test]
fn sweep_updates_only_the_opposing_coalition() {
    let mut e = RadarEmitter::default();
    let blue = Coalition { side: CoalitionType::BLUE };
    let far = Vec3i { x: 0, y: 0, z: 50_000_000 };
    let mut targets = vec![
        target(CoalitionType::RED, far, 90_000),
        target(CoalitionType::BLUE, far, 90_000),
    ];
    assert!(update_radar(&mut e, 3000, origin(), blue, &mut targets));
    assert_eq!(e.last_scan_time, 3000);
    assert_eq!(targets[0].detectable.reflected_energy, 5_020_000);
    assert_eq!(targets[0].detectable.last_impulse_time, 3000);
    assert_eq!(targets[1], target(CoalitionType::BLUE, far, 90_000));

    let red = Coalition { side: CoalitionType::RED };
    let mut e2 = RadarEmitter::default();
    let mut reds = vec![target(CoalitionType::RED, far, 90_000)];
    assert!(update_radar(&mut e2, 3000, origin(), red, &mut reds));
    assert_eq!(reds[0], target(CoalitionType::RED, far, 90_000));
}

#[test]
fn sweep_waits_for_the_scan_interval() {
    let mut e = RadarEmitter::default();
    let blue = Coalition { side: CoalitionType::BLUE };
    let far = Vec3i { x: 0, y: 0, z: 50_000_000 };
    let mut targets = vec![target(CoalitionType::RED, far, 90_000)];
    assert!(!update_radar(&mut e, 2999, origin(), blue, &mut targets));
    assert_eq!(e.last_scan_time, 0);
    assert_eq!(targets[0].detectable.reflected_energy, 0);
    assert_eq!(targets[0].detectable.last_impulse_time, 0);
    assert!(update_radar(&mut e, 3000, origin(), blue, &mut targets));
    let mut now = 3000;
    for _ in 0..187 {
        now += 16;
        assert!(!update_radar(&mut e, now, origin(), blue, &mut targets));
        assert_eq!(e.last_scan_time, 3000);
    }
    assert_eq!(now, 5992);
    assert!(update_radar(&mut e, 6000, origin(), blue, &mut targets));
    assert_eq!(e.last_scan_time, 6000);
}

#[test]
fn reflected_energy_expires_after_the_pulse_timeout() {
    let mut d = RadarDetectable { reflected_energy: 77, last_impulse_time: 1000, ..RadarDetectable::default() };
    expire_reflected_energy(&mut d, 1300);
    assert_eq!(d.reflected_energy, 77);
    expire_reflected_energy(&mut d, 1301);
    assert_eq!(d.reflected_energy, 0);
    assert_eq!(d.last_impulse_time, 1000);
}
