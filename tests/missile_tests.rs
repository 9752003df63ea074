use flight_combat::command::{detonation_commands, Command, EntityId, Targetable};
use flight_combat::geometry::Vec3i;
use flight_combat::missile::{
    handle_collision_entity, handle_collision_events, CollisionEvent, MissileBody,
    proximity_detonation, ramp, update_missile, update_missiles, update_single_missile, Missile,
    MissileFrame,
};

fn v(x: i64, y: i64, z: i64) -> Vec3i {
    Vec3i { x, y, z }
}

fn missile_at_target(target_position: Vec3i) -> Missile {
    Missile::launch(0, EntityId { bits: 1 }, EntityId { bits: 2 }, target_position)
}

#[test]
fn ramps_rise_to_their_maximum() {
    assert_eq!(ramp(0, 50_000, 1000, 16), 800);
    assert_eq!(ramp(49_900, 50_000, 1000, 16), 50_000);
    assert_eq!(ramp(50_000, 50_000, 1000, 16), 50_000);
    assert_eq!(ramp(0, 500, 200, 16), 40);
    assert_eq!(ramp(0, 500, 0, 16), 500);
}

#[test]
fn thrust_and_turn_rate_never_fall() {
    let mut m = missile_at_target(v(1_000_000, 0, 0));
    let mut now = 300;
    let (mut thrust, mut turn) = (0, 0);
    for _ in 0..200 {
        update_single_missile(&mut m, now, 16, v(0, 0, 0));
        assert!(m.thrust >= thrust && m.thrust <= m.max_thrust);
        assert!(m.turn_rate >= turn && m.turn_rate <= m.max_turn_rate);
        thrust = m.thrust;
        turn = m.turn_rate;
        now += 16;
    }
    assert_eq!(m.thrust, 50_000);
    assert_eq!(m.turn_rate, 500);
}

#[test]
fn no_force_before_ignition_then_guidance() {
    let mut m = missile_at_target(v(1_000_000, 0, 0));
    let before = m;
    let u = update_single_missile(&mut m, 200, 16, v(0, 0, 0));
    assert_eq!(u.force, None);
    assert!(!u.detonate);
    assert_eq!(m, before);
    let u = update_single_missile(&mut m, 400, 16, v(0, 0, 0));
    assert_eq!(u.force, Some(v(800, 0, 0)));
    assert_eq!(m.thrust, 800);
    assert_eq!(m.turn_rate, 40);
    assert_eq!(m.line_of_sight, v(1_000_000, 0, 0));
    assert_eq!(m.acceleration, v(800, 0, 0));
    assert_eq!(m.last_target_distance_squared, Some(1_000_000_000_000));
}

#[test]
fn a_near_target_still_gets_a_force_after_ignition() {
    let mut m = missile_at_target(v(100, 0, 0));
    let u = update_single_missile(&mut m, 200, 16, v(0, 0, 0));
    assert_eq!(u.force, None);
    let u = update_single_missile(&mut m, 400, 16, v(0, 0, 0));
    assert_eq!(u.force, Some(v(1, 0, 0)));
}

#[test]
fn missiles_report_their_bounds() {
    let m = missile_at_target(v(1_000_000, 0, 0));
    assert!(m.is_well_formed());
    assert!(!Missile { thrust: 60_000, ..m }.is_well_formed());
    assert!(!Missile { target_position: v(0, 2_000_000_000, 0), ..m }.is_well_formed());
}

#[test]
fn force_never_exceeds_thrust() {
    let mut m = missile_at_target(v(3_000_000, -4_000_000, 700_000));
    let mut now = 300;
    for k in 0..100i64 {
        let u = update_single_missile(&mut m, now, 16, v(k * 1000, k * 500, -k * 200));
        let f = u.force.unwrap();
        let n2 = (f.x as i128).pow(2) + (f.y as i128).pow(2) + (f.z as i128).pow(2);
        assert!(n2 <= (m.thrust as i128).pow(2));
        now += 16;
    }
}

#[test]
fn closest_approach_fuze_fires_once() {
    let mut m = missile_at_target(v(5_000_000, 0, 0));
    let distances = [5_000_000i64, 2_000_000, 500_000, 10_000, 500, 600, 700, 800];
    let mut now = 6000;
    let mut fired = Vec::new();
    for d in distances {
        let u = update_missile(&mut m, now, 16, v(0, 0, 0), Some(v(d, 0, 0)));
        fired.push(u.detonate);
        now += 16;
    }
    assert_eq!(fired, vec![false, false, false, false, false, true, false, false]);
    assert!(m.detonated);
}

#[test]
fn fuze_waits_for_arming() {
    let mut m = missile_at_target(v(500, 0, 0));
    let a = update_single_missile(&mut m, 1000, 16, v(0, 0, 0));
    m.target_position = v(600, 0, 0);
    let b = update_single_missile(&mut m, 1016, 16, v(0, 0, 0));
    assert!(!a.detonate && !b.detonate);
    m.target_position = v(700, 0, 0);
    let c = update_single_missile(&mut m, 5000, 16, v(0, 0, 0));
    assert!(c.detonate);
}

#[test]
fn fuze_needs_the_previous_distance_inside_the_radius() {
    let mut m = missile_at_target(v(1500, 0, 0));
    update_single_missile(&mut m, 6000, 16, v(0, 0, 0));
    m.target_position = v(1600, 0, 0);
    let u = update_single_missile(&mut m, 6016, 16, v(0, 0, 0));
    assert!(!u.detonate);
}

#[test]
fn lost_target_keeps_the_last_position() {
    let mut m = missile_at_target(v(1_000_000, 0, 0));
    update_missile(&mut m, 400, 16, v(0, 0, 0), None);
    assert_eq!(m.target_position, v(1_000_000, 0, 0));
    update_missile(&mut m, 416, 16, v(0, 0, 0), Some(v(2_000_000, 0, 0)));
    assert_eq!(m.target_position, v(2_000_000, 0, 0));
    assert_eq!(m.line_of_sight, v(2_000_000, 0, 0));
}

#[test]
fn every_missile_flies_its_own_frame() {
    let mut ms = vec![missile_at_target(v(1_000_000, 0, 0)), missile_at_target(v(0, 1_000_000, 0))];
    let frames = vec![
        MissileFrame { position: v(0, 0, 0), seen: None },
        MissileFrame { position: v(0, 0, 0), seen: Some(v(0, -1_000_000, 0)) },
    ];
    let ups = update_missiles(&mut ms, &frames, 400, 16);
    assert_eq!(ups.len(), 2);
    assert_eq!(ups[0].force, Some(v(800, 0, 0)));
    assert_eq!(ups[1].force, Some(v(0, -800, 0)));
    assert_eq!(ms[1].target_position, v(0, -1_000_000, 0));
}

#[test]
fn detonation_destroys_what_is_inside_the_radius() {
    let a = Targetable { entity: EntityId { bits: 10 }, position: v(500, 0, 0) };
    let b = Targetable { entity: EntityId { bits: 11 }, position: v(0, 2000, 0) };
    let c = Targetable { entity: EntityId { bits: 12 }, position: v(0, 0, -999) };
    let edge = Targetable { entity: EntityId { bits: 13 }, position: v(1000, 0, 0) };
    let cmds = detonation_commands(EntityId { bits: 1 }, v(0, 0, 0), 1000, &vec![a, b, c, edge]);
    assert_eq!(
        cmds,
        vec![
            Command::Despawn { entity: EntityId { bits: 10 } },
            Command::SpawnExplosion { position: v(500, 0, 0) },
            Command::Despawn { entity: EntityId { bits: 12 } },
            Command::SpawnExplosion { position: v(0, 0, -999) },
            Command::PlayDetonationSound,
            Command::Despawn { entity: EntityId { bits: 1 } },
        ]
    );
    let m = missile_at_target(v(0, 0, 0));
    let none = proximity_detonation(EntityId { bits: 3 }, &m, v(0, 5000, 0), &vec![a, c]);
    assert_eq!(none, vec![Command::PlayDetonationSound, Command::Despawn { entity: EntityId { bits: 3 } }]);
}

#[test]
fn contact_detonates_missiles_only() {
    let missile = EntityId { bits: 1 };
    let terrain = EntityId { bits: 99 };
    let near = Targetable { entity: EntityId { bits: 10 }, position: v(100, 0, 0) };
    let far = Targetable { entity: EntityId { bits: 11 }, position: v(100_000, 0, 0) };
    let bodies = vec![MissileBody { entity: missile, missile: missile_at_target(v(0, 0, 0)), position: v(0, 0, 0) }];
    let targets = vec![near, far];
    let blast = vec![
        Command::Despawn { entity: EntityId { bits: 10 } },
        Command::SpawnExplosion { position: v(100, 0, 0) },
        Command::PlayDetonationSound,
        Command::Despawn { entity: missile },
    ];
    assert_eq!(handle_collision_entity(missile, &bodies, &targets), blast);
    assert_eq!(handle_collision_entity(terrain, &bodies, &targets), vec![]);
    let events = vec![
        CollisionEvent::Started(terrain, missile),
        CollisionEvent::Stopped(terrain, missile),
        CollisionEvent::Started(EntityId { bits: 10 }, terrain),
    ];
    assert_eq!(handle_collision_events(&events, &bodies, &targets), blast);
}

#[test]
fn default_missile_is_launched_now() {
    let m = Missile::default();
    assert!(m.start_time > 1_600_000_000_000);
    assert_eq!(m.max_thrust, 50_000);
    assert_eq!(m.gain, 3000);
    assert_eq!(m.max_turn_rate, 500);
    assert_eq!(m.thrust_ramp, 1000);
    assert_eq!(m.turn_ramp, 200);
    assert_eq!(m.last_target_distance_squared, None);
    assert_eq!(m.acceleration, v(0, 0, 0));
    assert!(!m.detonated);
}
