//! Missile flight: staged ignition, thrust and turn-rate ramps, augmented
//! proportional navigation and the closest-approach proximity fuze.
//!
//! Times are in milliseconds, lengths in millimetres; thrust, turn rate and
//! navigation gain are in thousandths of their nominal units.
use crate::command::{detonation_spec, Command, EntityId, Targetable, detonation_commands};
use crate::geometry::{
    abs,
    bounded,
    clamp_length,
    clamp_length_spec,
    dist2,
    distance_squared,
    div_toward_zero,
    in_world,
    lemma_mul_bound,
    lemma_tdiv_bound,
    perpendicular,
    perpendicular_spec,
    difference,
    tdiv,
    vsub,
    Vec3i,
    WORLD_LIMIT,
};
use vstd::prelude::*;

verus! {

/// Largest maximal thrust of a missile, in thousandths.
pub const THRUST_LIMIT: u64 = 10_000_000;

/// Largest maximal turn rate of a missile, in thousandths per second.
pub const TURN_RATE_LIMIT: u64 = 10_000_000;

/// Largest navigation gain, in thousandths.
pub const NAV_GAIN_LIMIT: u64 = 100_000;

/// Longest frame, in milliseconds.
pub const FRAME_LIMIT: u64 = 10_000;

/// A missile in flight.
#[derive(Clone, Copy, Debug, PartialEq, Eq, Structural)]
pub struct Missile {
    /// Launch time.
    pub start_time: u64,
    pub launching_vehicle: EntityId,
    pub target: EntityId,
    /// Last known position of the target.
    pub target_position: Vec3i,
    pub max_turn_rate: u64,
    pub thrust: u64,
    pub max_thrust: u64,
    /// Time the thrust takes to ramp from nothing to its maximum.
    pub thrust_ramp: u64,
    pub turn_rate: u64,
    /// Time the turn rate takes to ramp from nothing to its maximum.
    pub turn_ramp: u64,
    /// Navigation gain.
    pub gain: u64,
    /// Time after launch before the motor and guidance start.
    pub ignition_delay: u64,
    /// Radius of the proximity fuze.
    pub proximity_fuse_distance: u64,
    /// Time after launch before the proximity fuze may fire.
    pub proximity_fuse_arm_time: u64,
    /// Squared distance to the target at the last guided frame.
    pub last_target_distance_squared: Option<u128>,
    pub last_position: Vec3i,
    pub line_of_sight: Vec3i,
    /// Last force commanded.
    pub acceleration: Vec3i,
    /// The fuze has fired; the missile awaits removal and flies no more.
    pub detonated: bool,
}

/// What one frame of guidance asks of the host.
#[derive(Clone, Copy, Debug, PartialEq, Eq, Structural)]
pub struct MissileUpdate {
    /// Force to apply to the missile's body; `None` when guidance did not run.
    pub force: Option<Vec3i>,
    /// Share of the way (thousandths) to turn the missile toward the force.
    pub slew: u64,
    /// The proximity fuze fired this frame.
    pub detonate: bool,
}

impl Missile {
    pub open spec fn wf(&self) -> bool {
        &&& self.max_thrust <= THRUST_LIMIT
        &&& self.thrust <= self.max_thrust
        &&& self.max_turn_rate <= TURN_RATE_LIMIT
        &&& self.turn_rate <= self.max_turn_rate
        &&& self.gain <= NAV_GAIN_LIMIT
        &&& self.proximity_fuse_distance <= WORLD_LIMIT
        &&& in_world(self.target_position)
        &&& bounded(self.line_of_sight, 2 * WORLD_LIMIT)
        &&& bounded(self.acceleration, self.max_thrust as int)
    }

    /// Whether the missile's settings and state lie within the bounds that
    /// guidance works in.
    pub fn is_well_formed(&self) -> (r: bool)
        ensures
            r == self.wf(),
    {
        self.max_thrust <= THRUST_LIMIT && self.thrust <= self.max_thrust && self.max_turn_rate
            <= TURN_RATE_LIMIT && self.turn_rate <= self.max_turn_rate && self.gain <= NAV_GAIN_LIMIT
            && self.proximity_fuse_distance <= WORLD_LIMIT as u64 && crate::geometry::is_in_world(
            self.target_position,
        ) && crate::geometry::is_bounded(self.line_of_sight, 2 * WORLD_LIMIT)
            && crate::geometry::is_bounded(self.acceleration, self.max_thrust as i64)
    }

    /// A missile launched at `start_time` by `launching_vehicle` at `target`,
    /// last seen at `target_position`, with the standard motor and fuze.
    pub fn launch(start_time: u64, launching_vehicle: EntityId, target: EntityId, target_position: Vec3i) -> (r: Missile)
        requires
            in_world(target_position),
        ensures
            r.wf(),
            r.start_time == start_time,
            r.launching_vehicle == launching_vehicle,
            r.target == target,
            r.target_position == target_position,
            r.max_turn_rate == 500,
            r.thrust == 0,
            r.max_thrust == 50_000,
            r.thrust_ramp == 1000,
            r.turn_rate == 0,
            r.turn_ramp == 200,
            r.gain == 3000,
            r.ignition_delay == 300,
            r.proximity_fuse_distance == 1000,
            r.proximity_fuse_arm_time == 5000,
            r.last_target_distance_squared.is_none(),
            r.last_position == (Vec3i { x: 0, y: 0, z: 0 }),
            r.line_of_sight == (Vec3i { x: 0, y: 0, z: 0 }),
            r.acceleration == (Vec3i { x: 0, y: 0, z: 0 }),
            !r.detonated,
    {
        let zero = Vec3i { x: 0, y: 0, z: 0 };
        Missile {
            start_time,
            launching_vehicle,
            target,
            target_position,
            max_turn_rate: 500,
            thrust: 0,
            max_thrust: 50_000,
            thrust_ramp: 1000,
            turn_rate: 0,
            turn_ramp: 200,
            gain: 3000,
            ignition_delay: 300,
            proximity_fuse_distance: 1000,
            proximity_fuse_arm_time: 5000,
            last_target_distance_squared: None,
            last_position: zero,
            line_of_sight: zero,
            acceleration: zero,
            detonated: false,
        }
    }
}

impl Default for Missile {
    /// A missile launched now, with no launcher or target yet.
    fn default() -> (r: Self)
        ensures
            r.wf(),
            r.launching_vehicle.bits == crate::command::PLACEHOLDER_BITS,
            r.target.bits == crate::command::PLACEHOLDER_BITS,
            r.target_position == (Vec3i { x: 0, y: 0, z: 0 }),
            r.max_turn_rate == 500,
            r.thrust == 0,
            r.max_thrust == 50_000,
            r.thrust_ramp == 1000,
            r.turn_rate == 0,
            r.turn_ramp == 200,
            r.gain == 3000,
            r.ignition_delay == 300,
            r.proximity_fuse_distance == 1000,
            r.proximity_fuse_arm_time == 5000,
            r.last_target_distance_squared.is_none(),
            r.last_position == (Vec3i { x: 0, y: 0, z: 0 }),
            r.line_of_sight == (Vec3i { x: 0, y: 0, z: 0 }),
            r.acceleration == (Vec3i { x: 0, y: 0, z: 0 }),
            !r.detonated,
    {
        Missile::launch(
            crate::util::get_time_millis(),
            EntityId::placeholder(),
            EntityId::placeholder(),
            Vec3i { x: 0, y: 0, z: 0 },
        )
    }
}

// ---------------------------------------------------------------------------
// The flight model, as mathematics

/// Time since launch; a clock reading before the launch counts as none.
pub open spec fn elapsed_spec(m: Missile, now: int) -> int {
    if now >= m.start_time {
        now - m.start_time
    } else {
        0
    }
}

/// Guidance runs: the motor has ignited and the fuze has not fired.
pub open spec fn ignited(m: Missile, now: int) -> bool {
    !m.detonated && elapsed_spec(m, now) >= m.ignition_delay
}

pub open spec fn armed(m: Missile, now: int) -> bool {
    elapsed_spec(m, now) >= m.proximity_fuse_arm_time
}

/// The closest-approach fuze: armed, the distance to the target has begun to
/// grow, and the previous distance was inside the fuze radius (all compared
/// squared).
pub open spec fn fuze_fires(m: Missile, now: int, target_distance_squared: int) -> bool {
    armed(m, now) && match m.last_target_distance_squared {
        Some(prev) => target_distance_squared > prev && prev < m.proximity_fuse_distance
            * m.proximity_fuse_distance,
        None => false,
    }
}

/// One step of a one-way ramp toward `max` that takes `ramp_time` to go from
/// nothing to `max`; a ramp time of zero reaches `max` at once.
pub open spec fn ramp_spec(current: int, max: int, ramp_time: int, dt: int) -> int {
    if current < max {
        if ramp_time == 0 {
            max
        } else {
            let raised = current + dt * max / ramp_time;
            if raised > max {
                max
            } else {
                raised
            }
        }
    } else {
        current
    }
}

/// One component of the augmented proportional navigation law,
/// `dt * los + d_los * gain + dt * previous * gain / 2`, in two-millionths of
/// a thousandth so that it is exact (times in milliseconds, gain and previous
/// force in thousandths, lengths in millimetres).
pub open spec fn command_numerator(dt: int, los: int, perp: int, previous: int, gain: int) -> int {
    2000 * dt * los + 2000 * perp * gain + dt * previous * gain
}

/// The force before its length is limited, in thousandths: the navigation
/// law times the thrust, rounded toward zero once.
pub open spec fn raw_force_spec(dt: int, los: Vec3i, perp: Vec3i, previous: Vec3i, gain: int, thrust: int) -> Vec3i {
    Vec3i {
        x: tdiv(command_numerator(dt, los.x as int, perp.x as int, previous.x as int, gain) * thrust, 2_000_000_000) as i64,
        y: tdiv(command_numerator(dt, los.y as int, perp.y as int, previous.y as int, gain) * thrust, 2_000_000_000) as i64,
        z: tdiv(command_numerator(dt, los.z as int, perp.z as int, previous.z as int, gain) * thrust, 2_000_000_000) as i64,
    }
}

/// The ramped thrust of a guided frame.
pub open spec fn ramped_thrust(m: Missile, dt: int) -> int {
    ramp_spec(m.thrust as int, m.max_thrust as int, m.thrust_ramp as int, dt)
}

/// The force of a guided frame before its length is limited.
pub open spec fn unlimited_force(m: Missile, dt: int, position: Vec3i) -> Vec3i {
    let los = vsub(m.target_position, position);
    let perp = perpendicular_spec(vsub(los, m.line_of_sight), los);
    raw_force_spec(dt, los, perp, m.acceleration, m.gain as int, ramped_thrust(m, dt))
}

/// The exact (unrounded) force of a guided frame reaches one thousandth in
/// some component.
pub open spec fn exact_force_reaches_unit(m: Missile, dt: int, position: Vec3i) -> bool {
    let los = vsub(m.target_position, position);
    let perp = perpendicular_spec(vsub(los, m.line_of_sight), los);
    let t = ramped_thrust(m, dt);
    let g = m.gain as int;
    let p = m.acceleration;
    ||| abs(command_numerator(dt, los.x as int, perp.x as int, p.x as int, g) * t) >= 2_000_000_000
    ||| abs(command_numerator(dt, los.y as int, perp.y as int, p.y as int, g) * t) >= 2_000_000_000
    ||| abs(command_numerator(dt, los.z as int, perp.z as int, p.z as int, g) * t) >= 2_000_000_000
}

/// The force commanded on a guided frame: the navigation law scaled by the
/// ramped thrust, and no longer than that thrust.
pub open spec fn guidance_force(m: Missile, dt: int, position: Vec3i) -> Vec3i {
    clamp_length_spec(unlimited_force(m, dt, position), ramped_thrust(m, dt))
}

/// The missile after a frame at `now`, `dt` long, in which it stood at
/// `position`.
pub open spec fn next_missile(m: Missile, now: int, dt: int, position: Vec3i) -> Missile {
    if !ignited(m, now) {
        m
    } else {
        let d2 = dist2(m.target_position, position);
        Missile {
            last_target_distance_squared: Some(d2 as u128),
            last_position: position,
            detonated: fuze_fires(m, now, d2),
            thrust: ramp_spec(m.thrust as int, m.max_thrust as int, m.thrust_ramp as int, dt) as u64,
            turn_rate: ramp_spec(
                m.turn_rate as int,
                m.max_turn_rate as int,
                m.turn_ramp as int,
                dt,
            ) as u64,
            line_of_sight: vsub(m.target_position, position),
            acceleration: guidance_force(m, dt, position),
            ..m
        }
    }
}

/// What a frame at `now`, `dt` long, in which the missile stood at
/// `position`, asks of the host.
pub open spec fn missile_update_spec(m: Missile, now: int, dt: int, position: Vec3i) -> MissileUpdate {
    if !ignited(m, now) {
        MissileUpdate { force: None, slew: 0, detonate: false }
    } else {
        let turn_rate = ramp_spec(m.turn_rate as int, m.max_turn_rate as int, m.turn_ramp as int, dt);
        MissileUpdate {
            force: Some(guidance_force(m, dt, position)),
            slew: (dt * turn_rate / 1000) as u64,
            detonate: fuze_fires(m, now, dist2(m.target_position, position)),
        }
    }
}

/// The missile after the target was looked up: a target that was found moves
/// the cached position, one that was not leaves it.
pub open spec fn with_target(m: Missile, seen: Option<Vec3i>) -> Missile {
    match seen {
        Some(p) => Missile { target_position: p, ..m },
        None => m,
    }
}

// ---------------------------------------------------------------------------
// The flight model, executed

pub fn ramp(current: u64, max: u64, ramp_time: u64, dt: u64) -> (r: u64)
    requires
        current <= max <= THRUST_LIMIT,
        dt <= FRAME_LIMIT,
    ensures
        r as int == ramp_spec(current as int, max as int, ramp_time as int, dt as int),
        current <= r <= max,
{
    if current < max {
        if ramp_time == 0 {
            max
        } else {
            proof {
                lemma_mul_bound(dt as int, max as int, FRAME_LIMIT as int, THRUST_LIMIT as int);
                assert(dt * max >= 0) by (nonlinear_arith)
                    requires
                        dt >= 0,
                        max >= 0,
                ;
                vstd::arithmetic::div_mod::lemma_div_is_ordered_by_denominator(
                    (dt * max) as int,
                    1,
                    ramp_time as int,
                );
            }
            let raised = current + dt * max / ramp_time;
            if raised > max {
                max
            } else {
                raised
            }
        }
    } else {
        current
    }
}

proof fn lemma_numerator_range(dt: int, los: int, perp: int, previous: int, gain: int, thrust: int)
    requires
        0 <= dt <= FRAME_LIMIT,
        -2 * WORLD_LIMIT <= los <= 2 * WORLD_LIMIT,
        -11 * WORLD_LIMIT <= perp <= 11 * WORLD_LIMIT,
        -THRUST_LIMIT <= previous <= THRUST_LIMIT,
        0 <= gain <= NAV_GAIN_LIMIT,
        0 <= thrust <= THRUST_LIMIT,
    ensures
        -20_000_000_000_000 <= dt * los <= 20_000_000_000_000,
        -1_100_000_000_000_000 <= perp * gain <= 1_100_000_000_000_000,
        -100_000_000_000 <= dt * previous <= 100_000_000_000,
        -10_000_000_000_000_000 <= dt * previous * gain <= 10_000_000_000_000_000,
        command_numerator(dt, los, perp, previous, gain) == 2000 * (dt * los) + 2000 * (perp * gain)
            + dt * previous * gain,
        -2_300_000_000_000_000_000 <= command_numerator(dt, los, perp, previous, gain)
            <= 2_300_000_000_000_000_000,
        -23_000_000_000_000_000_000_000_000 <= command_numerator(dt, los, perp, previous, gain)
            * thrust <= 23_000_000_000_000_000_000_000_000,
        -20_000_000_000_000_000 <= tdiv(command_numerator(dt, los, perp, previous, gain) * thrust, 2_000_000_000)
            <= 20_000_000_000_000_000,
{
    lemma_mul_bound(dt, los, 10_000, 2_000_000_000);
    lemma_mul_bound(perp, gain, 11_000_000_000, 100_000);
    lemma_mul_bound(dt, previous, 10_000, 10_000_000);
    lemma_mul_bound(dt * previous, gain, 100_000_000_000, 100_000);
    assert(2000 * dt * los == 2000 * (dt * los)) by (nonlinear_arith);
    assert(2000 * perp * gain == 2000 * (perp * gain)) by (nonlinear_arith);
    let n = command_numerator(dt, los, perp, previous, gain);
    lemma_mul_bound(n, thrust, 2_300_000_000_000_000_000, THRUST_LIMIT as int);
    lemma_tdiv_bound(n * thrust, 2_000_000_000, 11_500_000_000_000_000);
}

fn raw_force_one(dt: u64, los: i64, perp: i64, previous: i64, gain: u64, thrust: u64) -> (r: i64)
    requires
        dt <= FRAME_LIMIT,
        -2 * WORLD_LIMIT <= los <= 2 * WORLD_LIMIT,
        -11 * WORLD_LIMIT <= perp <= 11 * WORLD_LIMIT,
        -THRUST_LIMIT <= previous <= THRUST_LIMIT,
        gain <= NAV_GAIN_LIMIT,
        thrust <= THRUST_LIMIT,
    ensures
        r as int == tdiv(command_numerator(dt as int, los as int, perp as int, previous as int, gain as int) * thrust, 2_000_000_000),
        -20_000_000_000_000_000 <= r <= 20_000_000_000_000_000,
{
    proof {
        lemma_numerator_range(dt as int, los as int, perp as int, previous as int, gain as int, thrust as int);
    }
    let n: i128 = 2000 * ((dt as i128) * (los as i128)) + 2000 * ((perp as i128) * (gain as i128)) + (dt as i128) * (previous as i128) * (gain as i128);
    let q = div_toward_zero(n * (thrust as i128), 2_000_000_000);
    q as i64
}

fn raw_force(dt: u64, los: Vec3i, perp: Vec3i, previous: Vec3i, gain: u64, thrust: u64) -> (r: Vec3i)
    requires
        dt <= FRAME_LIMIT,
        bounded(los, 2 * WORLD_LIMIT),
        bounded(perp, 11 * WORLD_LIMIT),
        bounded(previous, THRUST_LIMIT as int),
        gain <= NAV_GAIN_LIMIT,
        thrust <= THRUST_LIMIT,
    ensures
        r == raw_force_spec(dt as int, los, perp, previous, gain as int, thrust as int),
        bounded(r, 20_000_000_000_000_000),
{
    let x = raw_force_one(dt, los.x, perp.x, previous.x, gain, thrust);
    let y = raw_force_one(dt, los.y, perp.y, previous.y, gain, thrust);
    let z = raw_force_one(dt, los.z, perp.z, previous.z, gain, thrust);
    Vec3i { x, y, z }
}

/// A component whose exact value reaches one unit is not rounded to nothing.
proof fn lemma_unit_survives_rounding(a: int)
    requires
        abs(a) >= 2_000_000_000,
    ensures
        tdiv(a, 2_000_000_000) != 0,
{
    vstd::arithmetic::div_mod::lemma_div_is_ordered(2_000_000_000, abs(a), 2_000_000_000);
}

/// One frame of a missile's flight at `now`, `dt` long, with the missile at
/// `position` and the target at its cached position.
///
/// Before ignition (and once the fuze has fired) nothing changes and no force
/// is applied. Afterwards the fuze is evaluated, the distance to the target
/// and the position are recorded, thrust and turn rate ramp toward their
/// maxima, and the augmented proportional navigation law gives the force,
/// whose length never exceeds the thrust.
pub fn update_single_missile(missile: &mut Missile, now: u64, dt: u64, position: Vec3i) -> (r: MissileUpdate)
    requires
        old(missile).wf(),
        dt <= FRAME_LIMIT,
        in_world(position),
    ensures
        final(missile).wf(),
        *final(missile) == next_missile(*old(missile), now as int, dt as int, position),
        r == missile_update_spec(*old(missile), now as int, dt as int, position),
        !ignited(*old(missile), now as int) ==> r.force.is_none() && *final(missile) == *old(missile),
        old(missile).thrust <= final(missile).thrust <= final(missile).max_thrust,
        old(missile).turn_rate <= final(missile).turn_rate <= final(missile).max_turn_rate,
        r.force matches Some(f) ==> crate::geometry::norm2(f) <= final(missile).thrust * final(missile).thrust,
        ignited(*old(missile), now as int) && final(missile).thrust >= 3 && exact_force_reaches_unit(
            *old(missile),
            dt as int,
            position,
        ) ==> r.force != Some(Vec3i { x: 0, y: 0, z: 0 }),
{
    let elapsed = if now >= missile.start_time {
        now - missile.start_time
    } else {
        0
    };
    if missile.detonated || elapsed < missile.ignition_delay {
        return MissileUpdate { force: None, slew: 0, detonate: false };
    }
    let ghost m0 = *missile;
    // proximity fuze
    let d2 = distance_squared(missile.target_position, position);
    let fuse = missile.proximity_fuse_distance as u128;
    proof {
        lemma_mul_bound(fuse as int, fuse as int, WORLD_LIMIT as int, WORLD_LIMIT as int);
    }
    let detonate = elapsed >= missile.proximity_fuse_arm_time && match missile.last_target_distance_squared {
        Some(prev) => d2 > prev && prev < fuse * fuse,
        None => false,
    };
    missile.last_target_distance_squared = Some(d2);
    missile.last_position = position;
    missile.detonated = detonate;
    // ramps
    let thrust = ramp(missile.thrust, missile.max_thrust, missile.thrust_ramp, dt);
    let turn_rate = ramp(missile.turn_rate, missile.max_turn_rate, missile.turn_ramp, dt);
    missile.thrust = thrust;
    missile.turn_rate = turn_rate;
    // augmented proportional navigation
    let los = difference(missile.target_position, position, WORLD_LIMIT);
    let d_los = difference(los, missile.line_of_sight, 2 * WORLD_LIMIT);
    let perp = perpendicular(d_los, los);
    let scaled = raw_force(dt, los, perp, missile.acceleration, missile.gain, thrust);
    let force = clamp_length(scaled, thrust);
    proof {
        let m1 = m0;
        if exact_force_reaches_unit(m1, dt as int, position) {
            let t = thrust as int;
            let g = m1.gain as int;
            let p = m1.acceleration;
            lemma_numerator_range(dt as int, los.x as int, perp.x as int, p.x as int, g, t);
            lemma_numerator_range(dt as int, los.y as int, perp.y as int, p.y as int, g, t);
            lemma_numerator_range(dt as int, los.z as int, perp.z as int, p.z as int, g, t);
            if abs(command_numerator(dt as int, los.x as int, perp.x as int, p.x as int, g) * t) >= 2_000_000_000 {
                lemma_unit_survives_rounding(command_numerator(dt as int, los.x as int, perp.x as int, p.x as int, g) * t);
            } else if abs(command_numerator(dt as int, los.y as int, perp.y as int, p.y as int, g) * t) >= 2_000_000_000 {
                lemma_unit_survives_rounding(command_numerator(dt as int, los.y as int, perp.y as int, p.y as int, g) * t);
            } else {
                lemma_unit_survives_rounding(command_numerator(dt as int, los.z as int, perp.z as int, p.z as int, g) * t);
            }
            assert(scaled != (Vec3i { x: 0, y: 0, z: 0 }));
        }
    }
    missile.line_of_sight = los;
    missile.acceleration = force;
    proof {
        lemma_mul_bound(dt as int, turn_rate as int, FRAME_LIMIT as int, TURN_RATE_LIMIT as int);
        assert(dt * turn_rate >= 0) by (nonlinear_arith)
            requires
                dt >= 0,
                turn_rate >= 0,
        ;
    }
    let slew = dt * turn_rate / 1000;
    proof {
        assert(*missile == next_missile(m0, now as int, dt as int, position));
    }
    MissileUpdate { force: Some(force), slew, detonate }
}

/// A frame of a missile's flight after the target was looked up: `seen` is
/// where the target was found, or `None` when the lookup failed and the
/// missile flies on toward the last position it knew.
pub fn update_missile(missile: &mut Missile, now: u64, dt: u64, position: Vec3i, seen: Option<Vec3i>) -> (r: MissileUpdate)
    requires
        old(missile).wf(),
        dt <= FRAME_LIMIT,
        in_world(position),
        seen matches Some(p) ==> in_world(p),
    ensures
        final(missile).wf(),
        *final(missile) == next_missile(with_target(*old(missile), seen), now as int, dt as int, position),
        r == missile_update_spec(with_target(*old(missile), seen), now as int, dt as int, position),
{
    if let Some(p) = seen {
        missile.target_position = p;
    }
    update_single_missile(missile, now, dt, position)
}

/// What the host knows of one missile at the start of a frame.
#[derive(Clone, Copy, Debug, PartialEq, Eq, Structural)]
pub struct MissileFrame {
    /// Where the missile is.
    pub position: Vec3i,
    /// Where its target was found, if it was.
    pub seen: Option<Vec3i>,
}

pub open spec fn frame_ok(f: MissileFrame) -> bool {
    in_world(f.position) && (f.seen matches Some(p) ==> in_world(p))
}

/// One frame of every missile in flight: missile `i` flies with `frames[i]`
/// and the result holds what each asks of the host.
pub fn update_missiles(missiles: &mut Vec<Missile>, frames: &Vec<MissileFrame>, now: u64, dt: u64) -> (r: Vec<MissileUpdate>)
    requires
        old(missiles)@.len() == frames@.len(),
        dt <= FRAME_LIMIT,
        forall|i: int| 0 <= i < old(missiles)@.len() ==> (#[trigger] old(missiles)@[i]).wf(),
        forall|i: int| 0 <= i < frames@.len() ==> frame_ok(#[trigger] frames@[i]),
    ensures
        final(missiles)@.len() == old(missiles)@.len(),
        r@.len() == frames@.len(),
        forall|i: int|
            0 <= i < frames@.len() ==> {
                let m = with_target(old(missiles)@[i], frames@[i].seen);
                &&& #[trigger] final(missiles)@[i] == next_missile(m, now as int, dt as int, frames@[i].position)
                &&& r@[i] == missile_update_spec(m, now as int, dt as int, frames@[i].position)
                &&& final(missiles)@[i].wf()
            },
{
    let ghost before = missiles@;
    let mut updates: Vec<MissileUpdate> = Vec::new();
    let mut i: usize = 0;
    while i < missiles.len()
        invariant
            missiles@.len() == before.len(),
            before.len() == frames@.len(),
            0 <= i <= before.len(),
            updates@.len() == i,
            dt <= FRAME_LIMIT,
            forall|j: int| 0 <= j < before.len() ==> (#[trigger] before[j]).wf(),
            forall|j: int| 0 <= j < frames@.len() ==> frame_ok(#[trigger] frames@[j]),
            forall|j: int| i <= j < before.len() ==> #[trigger] missiles@[j] == before[j],
            forall|j: int|
                0 <= j < i ==> {
                    let m = with_target(before[j], frames@[j].seen);
                    &&& #[trigger] missiles@[j] == next_missile(m, now as int, dt as int, frames@[j].position)
                    &&& updates@[j] == missile_update_spec(m, now as int, dt as int, frames@[j].position)
                    &&& missiles@[j].wf()
                },
        decreases before.len() - i,
    {
        let mut m = missiles[i];
        let f = frames[i];
        let u = update_missile(&mut m, now, dt, f.position, f.seen);
        missiles.set(i, m);
        updates.push(u);
        i = i + 1;
    }
    updates
}

/// The commands of a proximity detonation of the missile `entity`, standing
/// at `position`: every target within its fuze radius goes, then the missile.
pub fn proximity_detonation(entity: EntityId, missile: &Missile, position: Vec3i, targets: &Vec<Targetable>) -> (r: Vec<Command>)
    requires
        missile.wf(),
        in_world(position),
        forall|i: int| 0 <= i < targets@.len() ==> in_world(#[trigger] targets@[i].position),
    ensures
        r@ == detonation_spec(entity, position, missile.proximity_fuse_distance as int, targets@),
{
    detonation_commands(entity, position, missile.proximity_fuse_distance, targets)
}

// ---------------------------------------------------------------------------
// Contact detonation

/// A contact reported by the physics engine between two entities.
#[derive(Clone, Copy, Debug, PartialEq, Eq, Structural)]
pub enum CollisionEvent {
    Started(EntityId, EntityId),
    Stopped(EntityId, EntityId),
}

/// A missile in the world: its entity, its state and where it is.
#[derive(Clone, Copy, Debug, PartialEq, Eq, Structural)]
pub struct MissileBody {
    pub entity: EntityId,
    pub missile: Missile,
    pub position: Vec3i,
}

pub open spec fn body_ok(b: MissileBody) -> bool {
    b.missile.wf() && in_world(b.position)
}

/// The first missile of `bodies` whose entity is `entity`.
pub open spec fn find_body(bodies: Seq<MissileBody>, entity: EntityId) -> Option<MissileBody>
    decreases bodies.len(),
{
    if bodies.len() == 0 {
        None
    } else if bodies[0].entity == entity {
        Some(bodies[0])
    } else {
        find_body(bodies.subrange(1, bodies.len() as int), entity)
    }
}

/// What a contact of `entity` does: a missile detonates where it stands, with
/// its fuze radius as blast radius; any other entity is left to the physics.
pub open spec fn contact_spec(entity: EntityId, bodies: Seq<MissileBody>, targets: Seq<Targetable>) -> Seq<Command> {
    match find_body(bodies, entity) {
        Some(b) => detonation_spec(entity, b.position, b.missile.proximity_fuse_distance as int, targets),
        None => Seq::empty(),
    }
}

/// The commands of a run of contact events, in order; a contact that starts
/// handles both of its entities, one that stops does nothing.
pub open spec fn collision_spec(events: Seq<CollisionEvent>, bodies: Seq<MissileBody>, targets: Seq<Targetable>) -> Seq<Command>
    decreases events.len(),
{
    if events.len() == 0 {
        Seq::empty()
    } else {
        let rest = collision_spec(events.drop_last(), bodies, targets);
        match events.last() {
            CollisionEvent::Started(a, b) => rest + contact_spec(a, bodies, targets) + contact_spec(
                b,
                bodies,
                targets,
            ),
            CollisionEvent::Stopped(_, _) => rest,
        }
    }
}

proof fn lemma_find_body_step(bodies: Seq<MissileBody>, entity: EntityId, i: int)
    requires
        0 <= i < bodies.len(),
        bodies[i].entity != entity,
    ensures
        find_body(bodies.subrange(i, bodies.len() as int), entity) == find_body(
            bodies.subrange(i + 1, bodies.len() as int),
            entity,
        ),
{
    let s = bodies.subrange(i, bodies.len() as int);
    assert(s[0] == bodies[i]);
    assert(s.subrange(1, s.len() as int) =~= bodies.subrange(i + 1, bodies.len() as int));
}

/// The detonation that a contact of `entity` sets off: when `entity` is a
/// missile of `bodies`, every target within its fuze radius goes, the blast
/// sounds and the missile goes; otherwise nothing.
pub fn handle_collision_entity(entity: EntityId, bodies: &Vec<MissileBody>, targets: &Vec<Targetable>) -> (r: Vec<Command>)
    requires
        forall|i: int| 0 <= i < bodies@.len() ==> body_ok(#[trigger] bodies@[i]),
        forall|i: int| 0 <= i < targets@.len() ==> in_world(#[trigger] targets@[i].position),
    ensures
        r@ == contact_spec(entity, bodies@, targets@),
{
    let mut i: usize = 0;
    proof {
        assert(bodies@.subrange(0, bodies@.len() as int) =~= bodies@);
    }
    while i < bodies.len()
        invariant
            0 <= i <= bodies@.len(),
            forall|j: int| 0 <= j < bodies@.len() ==> body_ok(#[trigger] bodies@[j]),
            forall|j: int| 0 <= j < targets@.len() ==> in_world(#[trigger] targets@[j].position),
            find_body(bodies@, entity) == find_body(
                bodies@.subrange(i as int, bodies@.len() as int),
                entity,
            ),
        decreases bodies@.len() - i,
    {
        let b = bodies[i];
        if b.entity == entity {
            proof {
                let s = bodies@.subrange(i as int, bodies@.len() as int);
                assert(s[0] == b);
            }
            return detonation_commands(entity, b.position, b.missile.proximity_fuse_distance, targets);
        }
        proof {
            lemma_find_body_step(bodies@, entity, i as int);
        }
        i = i + 1;
    }
    proof {
        assert(bodies@.subrange(i as int, bodies@.len() as int).len() == 0);
    }
    Vec::new()
}

/// The commands of the contact events of one tick, in order.
pub fn handle_collision_events(events: &Vec<CollisionEvent>, bodies: &Vec<MissileBody>, targets: &Vec<Targetable>) -> (r: Vec<Command>)
    requires
        forall|i: int| 0 <= i < bodies@.len() ==> body_ok(#[trigger] bodies@[i]),
        forall|i: int| 0 <= i < targets@.len() ==> in_world(#[trigger] targets@[i].position),
    ensures
        r@ == collision_spec(events@, bodies@, targets@),
{
    let mut cmds: Vec<Command> = Vec::new();
    let mut i: usize = 0;
    while i < events.len()
        invariant
            0 <= i <= events@.len(),
            forall|j: int| 0 <= j < bodies@.len() ==> body_ok(#[trigger] bodies@[j]),
            forall|j: int| 0 <= j < targets@.len() ==> in_world(#[trigger] targets@[j].position),
            cmds@ == collision_spec(events@.subrange(0, i as int), bodies@, targets@),
        decreases events@.len() - i,
    {
        let ev = events[i];
        match ev {
            CollisionEvent::Started(a, b) => {
                let mut first = handle_collision_entity(a, bodies, targets);
                let mut second = handle_collision_entity(b, bodies, targets);
                cmds.append(&mut first);
                cmds.append(&mut second);
            },
            CollisionEvent::Stopped(_, _) => {},
        }
        proof {
            let next = events@.subrange(0, i + 1);
            assert(next.drop_last() =~= events@.subrange(0, i as int));
            assert(next.last() == ev);
        }
        i = i + 1;
    }
    proof {
        assert(events@.subrange(0, events@.len() as int) =~= events@);
    }
    cmds
}

// ---------------------------------------------------------------------------
// Laws

/// A ramp step never lowers the value and never passes the maximum.
pub proof fn lemma_ramp_bounds(current: int, max: int, ramp_time: int, dt: int)
    requires
        0 <= current <= max,
        0 <= ramp_time,
        0 <= dt,
    ensures
        current <= ramp_spec(current, max, ramp_time, dt) <= max,
{
    if current < max && ramp_time != 0 {
        assert(dt * max >= 0) by (nonlinear_arith)
            requires
                dt >= 0,
                max >= 0,
        ;
        vstd::arithmetic::div_mod::lemma_div_pos_is_pos(dt * max, ramp_time);
    }
}

/// Thrust and turn rate never fall from one frame to the next and never
/// exceed their maxima, which themselves stay put.
pub proof fn lemma_ramps_monotone(m: Missile, now: int, dt: int, position: Vec3i)
    requires
        m.thrust <= m.max_thrust,
        m.turn_rate <= m.max_turn_rate,
        0 <= dt,
    ensures
        ({
            let n = next_missile(m, now, dt, position);
            &&& n.max_thrust == m.max_thrust
            &&& n.max_turn_rate == m.max_turn_rate
            &&& m.thrust <= n.thrust <= n.max_thrust
            &&& m.turn_rate <= n.turn_rate <= n.max_turn_rate
        }),
{
    lemma_ramp_bounds(m.thrust as int, m.max_thrust as int, m.thrust_ramp as int, dt);
    lemma_ramp_bounds(m.turn_rate as int, m.max_turn_rate as int, m.turn_ramp as int, dt);
}

/// No guidance force is applied, and nothing changes, while the time since
/// launch is below the ignition delay.
pub proof fn lemma_no_force_before_ignition(m: Missile, now: int, dt: int, position: Vec3i)
    requires
        elapsed_spec(m, now) < m.ignition_delay,
    ensures
        missile_update_spec(m, now, dt, position).force.is_none(),
        next_missile(m, now, dt, position) == m,
{
}

/// On a guided frame the proximity fuze fires exactly when the fuze is armed,
/// the distance to the target is now larger than at the previous frame, and
/// that previous distance was inside the fuze radius.
pub proof fn lemma_fuze_condition(m: Missile, now: int, dt: int, position: Vec3i)
    requires
        ignited(m, now),
    ensures
        missile_update_spec(m, now, dt, position).detonate <==> {
            &&& elapsed_spec(m, now) >= m.proximity_fuse_arm_time
            &&& m.last_target_distance_squared is Some
            &&& dist2(m.target_position, position) > m.last_target_distance_squared->0
            &&& m.last_target_distance_squared->0 < m.proximity_fuse_distance
                * m.proximity_fuse_distance
        },
{
}

/// A missile detonates at most once: after the frame on which its fuze fired,
/// no later frame fires it again or steers it.
pub proof fn lemma_detonates_once(
    m: Missile,
    now: int,
    dt: int,
    position: Vec3i,
    later: int,
    later_dt: int,
    later_position: Vec3i,
)
    requires
        missile_update_spec(m, now, dt, position).detonate,
    ensures
        ({
            let n = next_missile(m, now, dt, position);
            let u = missile_update_spec(n, later, later_dt, later_position);
            &&& !u.detonate
            &&& u.force.is_none()
            &&& next_missile(n, later, later_dt, later_position) == n
        }),
{
}

/// The missile after the first `k` frames of `steps`; each step holds the
/// time, the frame length and what the host saw on that frame.
pub open spec fn flown(m: Missile, steps: Seq<(int, int, MissileFrame)>, k: int) -> Missile
    decreases k,
{
    if k <= 0 {
        m
    } else {
        let s = flown(m, steps, k - 1);
        let step = steps[k - 1];
        next_missile(with_target(s, step.2.seen), step.0, step.1, step.2.position)
    }
}

/// The proximity fuze fires on frame `k` of `steps`.
pub open spec fn fires_at(m: Missile, steps: Seq<(int, int, MissileFrame)>, k: int) -> bool {
    let step = steps[k];
    missile_update_spec(
        with_target(flown(m, steps, k), step.2.seen),
        step.0,
        step.1,
        step.2.position,
    ).detonate
}

/// Squared distance to the target on a frame where the target was found.
pub open spec fn seen_distance(f: MissileFrame) -> int {
    match f.seen {
        Some(p) => dist2(p, f.position),
        None => 0,
    }
}

proof fn lemma_flight_ramps(m: Missile, steps: Seq<(int, int, MissileFrame)>, k: int)
    requires
        m.thrust <= m.max_thrust,
        m.turn_rate <= m.max_turn_rate,
        forall|j: int| 0 <= j < steps.len() ==> (#[trigger] steps[j]).1 >= 0,
        0 <= k <= steps.len(),
    ensures
        flown(m, steps, k).max_thrust == m.max_thrust,
        flown(m, steps, k).max_turn_rate == m.max_turn_rate,
        flown(m, steps, k).thrust <= m.max_thrust,
        flown(m, steps, k).turn_rate <= m.max_turn_rate,
        k > 0 ==> flown(m, steps, k - 1).thrust <= flown(m, steps, k).thrust,
        k > 0 ==> flown(m, steps, k - 1).turn_rate <= flown(m, steps, k).turn_rate,
    decreases k,
{
    if k > 0 {
        lemma_flight_ramps(m, steps, k - 1);
        let step = steps[k - 1];
        lemma_ramps_monotone(with_target(flown(m, steps, k - 1), step.2.seen), step.0, step.1, step.2.position);
    }
}

/// Over a whole flight, thrust and turn rate never fall and never exceed their
/// maxima: after `i` frames they are at most what they are after `j >= i`.
pub proof fn lemma_ramps_over_flight(m: Missile, steps: Seq<(int, int, MissileFrame)>, i: int, j: int)
    requires
        m.thrust <= m.max_thrust,
        m.turn_rate <= m.max_turn_rate,
        forall|k: int| 0 <= k < steps.len() ==> (#[trigger] steps[k]).1 >= 0,
        0 <= i <= j <= steps.len(),
    ensures
        flown(m, steps, i).thrust <= flown(m, steps, j).thrust <= m.max_thrust,
        flown(m, steps, i).turn_rate <= flown(m, steps, j).turn_rate <= m.max_turn_rate,
        flown(m, steps, j).max_thrust == m.max_thrust,
        flown(m, steps, j).max_turn_rate == m.max_turn_rate,
    decreases j - i,
{
    lemma_flight_ramps(m, steps, j);
    if i < j {
        lemma_ramps_over_flight(m, steps, i, j - 1);
    }
}

/// What a closing flight keeps: the fuze settings, no detonation yet, and the
/// last distance recorded.
proof fn lemma_closing_flight(m: Missile, steps: Seq<(int, int, MissileFrame)>, k: int)
    requires
        !m.detonated,
        0 <= k < steps.len(),
        forall|j: int| 0 <= j < steps.len() ==> {
            &&& (#[trigger] steps[j]).2.seen is Some
            &&& in_world(steps[j].2.seen->0)
            &&& in_world(steps[j].2.position)
            &&& elapsed_spec(m, steps[j].0) >= m.ignition_delay
            &&& elapsed_spec(m, steps[j].0) >= m.proximity_fuse_arm_time
        },
        m.last_target_distance_squared matches Some(p) ==> seen_distance(steps[0].2) <= p,
        forall|j: int| 1 <= j < k ==> seen_distance(#[trigger] steps[j].2) <= seen_distance(steps[j - 1].2),
    ensures
        ({
            let s = flown(m, steps, k);
            &&& s.start_time == m.start_time
            &&& s.ignition_delay == m.ignition_delay
            &&& s.proximity_fuse_arm_time == m.proximity_fuse_arm_time
            &&& s.proximity_fuse_distance == m.proximity_fuse_distance
            &&& !s.detonated
            &&& k == 0 ==> s.last_target_distance_squared == m.last_target_distance_squared
            &&& k > 0 ==> s.last_target_distance_squared == Some(seen_distance(steps[k - 1].2) as u128)
        }),
        forall|j: int| 0 <= j < k ==> !fires_at(m, steps, j),
    decreases k,
{
    if k > 0 {
        lemma_closing_flight(m, steps, k - 1);
        let step = steps[k - 1];
        let f = step.2;
        crate::geometry::lemma_dist2_range(f.seen->0, f.position);
        if k >= 2 {
            crate::geometry::lemma_dist2_range(steps[k - 2].2.seen->0, steps[k - 2].2.position);
        }
        assert(!fires_at(m, steps, k - 1));
    }
}

/// The closest-approach fuze over a flight: while the distance to the target
/// closes nothing fires, and the fuze fires on the first frame where the
/// distance opens again after a frame inside the fuze radius.
pub proof fn lemma_fuze_fires_at_first_opening(m: Missile, steps: Seq<(int, int, MissileFrame)>)
    requires
        !m.detonated,
        steps.len() >= 2,
        forall|j: int| 0 <= j < steps.len() ==> {
            &&& (#[trigger] steps[j]).2.seen is Some
            &&& in_world(steps[j].2.seen->0)
            &&& in_world(steps[j].2.position)
            &&& elapsed_spec(m, steps[j].0) >= m.ignition_delay
            &&& elapsed_spec(m, steps[j].0) >= m.proximity_fuse_arm_time
        },
        m.last_target_distance_squared matches Some(p) ==> seen_distance(steps[0].2) <= p,
        forall|j: int|
            1 <= j < steps.len() - 1 ==> seen_distance(#[trigger] steps[j].2) <= seen_distance(
                steps[j - 1].2,
            ),
        seen_distance(steps[steps.len() - 2].2) < m.proximity_fuse_distance * m.proximity_fuse_distance,
        seen_distance(steps[steps.len() - 1].2) > seen_distance(steps[steps.len() - 2].2),
    ensures
        forall|j: int| 0 <= j < steps.len() - 1 ==> !fires_at(m, steps, j),
        fires_at(m, steps, steps.len() - 1),
{
    let n = steps.len() as int;
    lemma_closing_flight(m, steps, n - 1);
    crate::geometry::lemma_dist2_range(steps[n - 2].2.seen->0, steps[n - 2].2.position);
}

} // verus!
