//! Radar cross-section and radar detection.
//!
//! Factors that are fractions of one are held in thousandths (`PER_MILLE`
//! is one); gains and cross-sections are in thousandths of their nominal
//! unit; angles are in millidegrees.
use crate::coalition::Coalition;
use crate::geometry::{distance, in_world, sqrt_floor, dist2, Vec3i};
use vstd::arithmetic::div_mod::lemma_div_is_ordered;
use vstd::prelude::*;

verus! {

/// One, in thousandths.
pub const PER_MILLE: u64 = 1000;

/// Time after the last illuminating pulse at which the reflected energy is
/// considered stale, in milliseconds.
pub const RADAR_PULSE_TIMEOUT: u64 = 300;

/// Largest radar gain accepted, in thousandths.
pub const GAIN_LIMIT: u64 = 1_000_000_000;

/// Largest base radar cross-section accepted, in thousandths.
pub const RCS_LIMIT: u64 = 1_000_000_000;

/// Altitude (mm) up to which returns grow linearly from nothing.
pub const LOW_RAMP_TOP: i64 = 1_000_000;

/// Altitude (mm) at which returns start to fade.
pub const HIGH_ROLLOFF_START: i64 = 8_000_000;

/// Altitude span (mm) over which the fading would reach nothing, were it not
/// held at `HIGH_ROLLOFF_FLOOR`.
pub const HIGH_ROLLOFF_SPAN: i64 = 20_000_000;

/// Least value of the high-altitude curve, in thousandths.
pub const HIGH_ROLLOFF_FLOOR: u64 = 400;

/// A right angle, in millidegrees.
pub const RIGHT_ANGLE: u64 = 90_000;

/// A straight angle, in millidegrees.
pub const STRAIGHT_ANGLE: u64 = 180_000;

/// How a radar is defeated by the aspect of its target.
#[derive(Clone, Copy, Debug, PartialEq, Eq, Structural)]
pub enum RadarEmitterType {
    /// Sees a target best side-on.
    PULSE,
    /// Sees a target best head-on or tail-on.
    DOPPLER,
}

/// Radar state of an entity that radar can illuminate.
#[derive(Clone, Copy, Debug, PartialEq, Eq, Structural)]
pub struct RadarDetectable {
    /// Visibility of the entity flying level, in thousandths.
    pub base_radar_cross_section: u64,
    /// Visibility after attitude and altitude, in thousandths.
    pub radar_cross_section: u64,
    /// Return energy of the last illumination, in thousandths.
    pub reflected_energy: u64,
    /// Time of the last illumination, in milliseconds.
    pub last_impulse_time: u64,
}

/// A radar on some platform.
#[derive(Clone, Copy, Debug, PartialEq, Eq, Structural)]
pub struct RadarEmitter {
    pub radar_type: RadarEmitterType,
    /// How hard it is to hide from this radar, in thousandths.
    pub radar_gain: u64,
    /// Range, in kilometres, at which the range factor reaches one.
    pub max_detect_range_km: u64,
    /// Time between two sweeps, in milliseconds.
    pub scan_interval: u64,
    /// Time of the last sweep, in milliseconds.
    pub last_scan_time: u64,
}

/// What one sweep needs to know of a detectable entity.
#[derive(Clone, Copy, Debug, PartialEq, Eq, Structural)]
pub struct RadarTarget {
    pub detectable: RadarDetectable,
    pub position: Vec3i,
    pub coalition: Coalition,
    /// Angle between the line from the radar to the target and the target's
    /// heading, in millidegrees, from 0 to `STRAIGHT_ANGLE`.
    pub heading_angle: u64,
}

impl RadarDetectable {
    pub open spec fn wf(&self) -> bool {
        &&& self.base_radar_cross_section <= RCS_LIMIT
        &&& self.radar_cross_section <= RCS_LIMIT + PER_MILLE
    }
}

impl RadarDetectable {
    pub fn is_well_formed(&self) -> (r: bool)
        ensures
            r == self.wf(),
    {
        self.base_radar_cross_section <= RCS_LIMIT && self.radar_cross_section <= RCS_LIMIT
            + PER_MILLE
    }
}

impl Default for RadarDetectable {
    fn default() -> (r: Self)
        ensures
            r.base_radar_cross_section == 200,
            r.radar_cross_section == 0,
            r.reflected_energy == 0,
            r.last_impulse_time == 0,
    {
        RadarDetectable {
            base_radar_cross_section: 200,
            radar_cross_section: 0,
            reflected_energy: 0,
            last_impulse_time: 0,
        }
    }
}

impl RadarEmitter {
    pub open spec fn wf(&self) -> bool {
        self.radar_gain <= GAIN_LIMIT
    }
}

impl RadarEmitter {
    pub fn is_well_formed(&self) -> (r: bool)
        ensures
            r == self.wf(),
    {
        self.radar_gain <= GAIN_LIMIT
    }
}

impl Default for RadarEmitter {
    fn default() -> (r: Self)
        ensures
            r.radar_type == RadarEmitterType::PULSE,
            r.radar_gain == 100_000,
            r.max_detect_range_km == 100,
            r.scan_interval == 3000,
            r.last_scan_time == 0,
    {
        RadarEmitter {
            radar_type: RadarEmitterType::PULSE,
            radar_gain: 100_000,
            max_detect_range_km: 100,
            scan_interval: 3000,
            last_scan_time: 0,
        }
    }
}

impl RadarTarget {
    pub open spec fn wf(&self) -> bool {
        &&& self.detectable.wf()
        &&& in_world(self.position)
        &&& self.heading_angle <= STRAIGHT_ANGLE
    }
}

impl RadarTarget {
    pub fn is_well_formed(&self) -> (r: bool)
        ensures
            r == self.wf(),
    {
        self.detectable.is_well_formed() && crate::geometry::is_in_world(self.position)
            && self.heading_angle <= STRAIGHT_ANGLE
    }
}

// ---------------------------------------------------------------------------
// Radar cross-section

/// Low-altitude curve: nothing at or below the ground, rising linearly to one
/// at `LOW_RAMP_TOP`.
pub open spec fn low_altitude_curve_spec(altitude: int) -> int {
    if altitude <= 0 {
        0
    } else if altitude >= LOW_RAMP_TOP {
        PER_MILLE as int
    } else {
        altitude * PER_MILLE / LOW_RAMP_TOP as int
    }
}

/// High-altitude curve: one up to `HIGH_ROLLOFF_START`, then falling linearly
/// (one over `HIGH_ROLLOFF_SPAN`) and held at `HIGH_ROLLOFF_FLOOR`.
pub open spec fn high_altitude_curve_spec(altitude: int) -> int {
    if altitude <= HIGH_ROLLOFF_START {
        PER_MILLE as int
    } else {
        let fade = (altitude - HIGH_ROLLOFF_START) * PER_MILLE / HIGH_ROLLOFF_SPAN as int;
        let most = PER_MILLE - HIGH_ROLLOFF_FLOOR;
        PER_MILLE - (if fade > most {
            most as int
        } else {
            fade
        })
    }
}

/// Radar cross-section at an altitude and attitude, in thousandths:
/// `base * low * high + 0.4 * roll + 0.4 * pitch`.
pub open spec fn rcs_spec(base: int, altitude: int, roll_factor: int, pitch_factor: int) -> int {
    base * low_altitude_curve_spec(altitude) * high_altitude_curve_spec(altitude) / (
    PER_MILLE * PER_MILLE) as int + (roll_factor + pitch_factor) * 2 / 5
}

pub fn low_altitude_curve(altitude: i64) -> (r: u64)
    ensures
        r as int == low_altitude_curve_spec(altitude as int),
        r <= PER_MILLE,
{
    if altitude <= 0 {
        0
    } else if altitude >= LOW_RAMP_TOP {
        PER_MILLE
    } else {
        (altitude as u64) * PER_MILLE / (LOW_RAMP_TOP as u64)
    }
}

pub fn high_altitude_curve(altitude: i64) -> (r: u64)
    ensures
        r as int == high_altitude_curve_spec(altitude as int),
        HIGH_ROLLOFF_FLOOR <= r <= PER_MILLE,
{
    if altitude <= HIGH_ROLLOFF_START {
        PER_MILLE
    } else {
        let above = (altitude as i128) - (HIGH_ROLLOFF_START as i128);
        assert(0 < above <= i64::MAX);
        let fade = above * 1000 / (HIGH_ROLLOFF_SPAN as i128);
        let most = PER_MILLE - HIGH_ROLLOFF_FLOOR;
        if fade > most as i128 {
            PER_MILLE - most
        } else {
            PER_MILLE - (fade as u64)
        }
    }
}

/// Recomputes the radar cross-section of an entity at `altitude` (mm) whose
/// roll and pitch factors (the absolute sines of its attitude, in thousandths)
/// are given. Level flight is the stealthiest.
pub fn update_rcs(detectable: &mut RadarDetectable, altitude: i64, roll_factor: u64, pitch_factor: u64)
    requires
        old(detectable).wf(),
        roll_factor <= PER_MILLE,
        pitch_factor <= PER_MILLE,
    ensures
        final(detectable).wf(),
        final(detectable).radar_cross_section as int == rcs_spec(
            old(detectable).base_radar_cross_section as int,
            altitude as int,
            roll_factor as int,
            pitch_factor as int,
        ),
        final(detectable).base_radar_cross_section == old(detectable).base_radar_cross_section,
        final(detectable).reflected_energy == old(detectable).reflected_energy,
        final(detectable).last_impulse_time == old(detectable).last_impulse_time,
{
    let low = low_altitude_curve(altitude);
    let high = high_altitude_curve(altitude);
    let base = detectable.base_radar_cross_section;
    proof {
        let b = base as int;
        let l = low as int;
        let h = high as int;
        assert(b * l <= b * 1000 && b * l * h <= b * 1000 * 1000) by (nonlinear_arith)
            requires
                0 <= b,
                0 <= l <= 1000,
                0 <= h <= 1000,
        ;
        assert(b * l * h >= 0) by (nonlinear_arith)
            requires
                0 <= b,
                0 <= l,
                0 <= h,
        ;
    }
    let product = (base as u128) * (low as u128) * (high as u128);
    let scaled = product / 1_000_000;
    assert(scaled <= base);
    let attitude = (roll_factor + pitch_factor) * 2 / 5;
    detectable.radar_cross_section = (scaled as u64) + attitude;
}

// ---------------------------------------------------------------------------
// Detection

/// Whether a radar that last swept at `last_scan_time` sweeps again at `now`.
pub open spec fn scan_due(last_scan_time: int, scan_interval: int, now: int) -> bool {
    now >= last_scan_time + scan_interval
}

/// Aspect of a target, in thousandths: its heading angle folded into a right
/// angle (a target flying away is seen as one flying towards the radar) and
/// scaled so that side-on is one.
pub open spec fn aspect_factor_spec(heading_angle: int) -> int {
    let folded = if heading_angle > RIGHT_ANGLE {
        STRAIGHT_ANGLE - heading_angle
    } else {
        heading_angle
    };
    folded * PER_MILLE / RIGHT_ANGLE as int
}

/// Range factor, in thousandths: the distance (mm) over the maximal
/// detection range, clamped to one.
pub open spec fn distance_factor_spec(distance: int, max_range_km: int) -> int {
    if max_range_km == 0 {
        PER_MILLE as int
    } else {
        let f = distance / (max_range_km * 1000);
        if f > PER_MILLE {
            PER_MILLE as int
        } else {
            f
        }
    }
}

/// Effective gain in millionths of the nominal unit (the gain, in thousandths,
/// times a factor in thousandths). A pulse radar weighs by the aspect, a
/// Doppler radar by its complement.
pub open spec fn effective_gain_spec(radar_type: RadarEmitterType, gain: int, aspect: int) -> int {
    match radar_type {
        RadarEmitterType::PULSE => gain * aspect,
        RadarEmitterType::DOPPLER => gain * (PER_MILLE - aspect),
    }
}

/// Return energy, in thousandths, of `target` under a sweep of `emitter`
/// placed at `radar_position`.
pub open spec fn return_energy_spec(emitter: RadarEmitter, radar_position: Vec3i, target: RadarTarget) -> int {
    let d = sqrt_floor(dist2(target.position, radar_position));
    let signal = emitter.radar_gain * distance_factor_spec(d, emitter.max_detect_range_km as int)
        / PER_MILLE as int;
    let raw = signal + target.detectable.radar_cross_section;
    let gain = effective_gain_spec(
        emitter.radar_type,
        emitter.radar_gain as int,
        aspect_factor_spec(target.heading_angle as int),
    );
    raw * gain / (PER_MILLE * PER_MILLE) as int
}

/// A target after a sweep of `emitter`, on the side `radar_coalition`, at
/// `now`: an opposing target takes the new return energy and the time, a
/// friendly one is left as it was.
pub open spec fn swept(
    emitter: RadarEmitter,
    radar_position: Vec3i,
    radar_coalition: Coalition,
    now: u64,
    target: RadarTarget,
) -> RadarTarget {
    if target.coalition.side == radar_coalition.side {
        target
    } else {
        RadarTarget {
            detectable: RadarDetectable {
                reflected_energy: return_energy_spec(emitter, radar_position, target) as u64,
                last_impulse_time: now,
                ..target.detectable
            },
            ..target
        }
    }
}

pub fn aspect_factor(heading_angle: u64) -> (r: u64)
    requires
        heading_angle <= STRAIGHT_ANGLE,
    ensures
        r as int == aspect_factor_spec(heading_angle as int),
        r <= PER_MILLE,
{
    let folded = if heading_angle > RIGHT_ANGLE {
        STRAIGHT_ANGLE - heading_angle
    } else {
        heading_angle
    };
    folded * PER_MILLE / RIGHT_ANGLE
}

pub fn distance_factor(distance: u64, max_range_km: u64) -> (r: u64)
    ensures
        r as int == distance_factor_spec(distance as int, max_range_km as int),
        r <= PER_MILLE,
{
    if max_range_km == 0 {
        PER_MILLE
    } else {
        let range = (max_range_km as u128) * 1000;
        let f = (distance as u128) / range;
        if f > PER_MILLE as u128 {
            PER_MILLE
        } else {
            f as u64
        }
    }
}

pub fn effective_gain(radar_type: RadarEmitterType, gain: u64, aspect: u64) -> (r: u128)
    requires
        aspect <= PER_MILLE,
    ensures
        r as int == effective_gain_spec(radar_type, gain as int, aspect as int),
        r as int <= gain as int * PER_MILLE as int,
{
    proof {
        let g = gain as int;
        let a = aspect as int;
        assert(g * a <= g * 1000 && g * (1000 - a) <= g * 1000 && g * a >= 0 && g * (1000 - a)
            >= 0) by (nonlinear_arith)
            requires
                0 <= g,
                0 <= a <= 1000,
        ;
    }
    match radar_type {
        RadarEmitterType::PULSE => (gain as u128) * (aspect as u128),
        RadarEmitterType::DOPPLER => (gain as u128) * ((PER_MILLE - aspect) as u128),
    }
}

/// Return energy of `target` under a sweep of `emitter` at `radar_position`.
pub fn return_energy(emitter: &RadarEmitter, radar_position: Vec3i, target: &RadarTarget) -> (r: u64)
    requires
        emitter.wf(),
        in_world(radar_position),
        target.wf(),
    ensures
        r as int == return_energy_spec(*emitter, radar_position, *target),
{
    let d = distance(target.position, radar_position);
    let df = distance_factor(d, emitter.max_detect_range_km);
    let gain = emitter.radar_gain;
    proof {
        assert(gain as int * df as int <= GAIN_LIMIT as int * 1000) by (nonlinear_arith)
            requires
                0 <= gain <= GAIN_LIMIT,
                0 <= df <= 1000,
        ;
    }
    let signal = (gain as u128) * (df as u128) / (PER_MILLE as u128);
    assert(signal <= GAIN_LIMIT) by (nonlinear_arith)
        requires
            signal == (gain as int * df as int) / 1000,
            gain as int * df as int <= GAIN_LIMIT as int * 1000,
    ;
    let raw = signal + (target.detectable.radar_cross_section as u128);
    let aspect = aspect_factor(target.heading_angle);
    let eg = effective_gain(emitter.radar_type, gain, aspect);
    proof {
        let rw = raw as int;
        let e = eg as int;
        assert(rw * e <= 3 * (GAIN_LIMIT as int) * (GAIN_LIMIT as int) * 1000) by (nonlinear_arith)
            requires
                0 <= rw <= 3 * GAIN_LIMIT,
                0 <= e <= GAIN_LIMIT * 1000,
        ;
        assert(rw * e >= 0) by (nonlinear_arith)
            requires
                0 <= rw,
                0 <= e,
        ;
    }
    let energy = raw * eg / 1_000_000;
    assert(energy <= 3 * (GAIN_LIMIT as int) * (GAIN_LIMIT as int) / 1000);
    energy as u64
}

/// One radar's sweep at `now`. When less than the scan interval has passed
/// since its last sweep nothing changes and the result is `false`. Otherwise
/// the sweep time becomes `now`, every target of the opposing coalition takes
/// its return energy and the time of illumination, every friendly target is
/// left untouched, and the result is `true`.
pub fn update_radar(
    emitter: &mut RadarEmitter,
    now: u64,
    radar_position: Vec3i,
    radar_coalition: Coalition,
    targets: &mut Vec<RadarTarget>,
) -> (scanned: bool)
    requires
        old(emitter).wf(),
        in_world(radar_position),
        forall|i: int| 0 <= i < old(targets)@.len() ==> (#[trigger] old(targets)@[i]).wf(),
    ensures
        scanned == scan_due(
            old(emitter).last_scan_time as int,
            old(emitter).scan_interval as int,
            now as int,
        ),
        !scanned ==> *final(emitter) == *old(emitter) && final(targets)@ == old(targets)@,
        scanned ==> *final(emitter) == (RadarEmitter { last_scan_time: now, ..*old(emitter) }),
        scanned ==> final(targets)@.len() == old(targets)@.len(),
        scanned ==> forall|i: int|
            0 <= i < old(targets)@.len() ==> #[trigger] final(targets)@[i] == swept(
                *old(emitter),
                radar_position,
                radar_coalition,
                now,
                old(targets)@[i],
            ),
{
    if (now as u128) < (emitter.last_scan_time as u128) + (emitter.scan_interval as u128) {
        return false;
    }
    emitter.last_scan_time = now;
    let ghost before = targets@;
    let ghost e0 = *emitter;
    let mut i: usize = 0;
    while i < targets.len()
        invariant
            *emitter == e0,
            e0.wf(),
            in_world(radar_position),
            targets@.len() == before.len(),
            0 <= i <= before.len(),
            forall|j: int| 0 <= j < before.len() ==> (#[trigger] before[j]).wf(),
            forall|j: int|
                0 <= j < i ==> #[trigger] targets@[j] == swept(
                    e0,
                    radar_position,
                    radar_coalition,
                    now,
                    before[j],
                ),
            forall|j: int| i <= j < before.len() ==> #[trigger] targets@[j] == before[j],
        decreases before.len() - i,
    {
        let t = targets[i];
        if radar_coalition.opposes(&t.coalition) {
            let energy = return_energy(emitter, radar_position, &t);
            let detectable = RadarDetectable {
                reflected_energy: energy,
                last_impulse_time: now,
                ..t.detectable
            };
            targets.set(i, RadarTarget { detectable, ..t });
        }
        i = i + 1;
    }
    true
}

/// Clears the reflected energy once `RADAR_PULSE_TIMEOUT` has passed since
/// the last illumination; a later `now` than that is required.
pub fn expire_reflected_energy(detectable: &mut RadarDetectable, now: u64)
    ensures
        (now as int > detectable_deadline(*old(detectable))) ==> *final(detectable) == (
        RadarDetectable { reflected_energy: 0, ..*old(detectable) }),
        (now as int <= detectable_deadline(*old(detectable))) ==> *final(detectable) == *old(
            detectable),
{
    if (now as u128) > (detectable.last_impulse_time as u128) + (RADAR_PULSE_TIMEOUT as u128) {
        detectable.reflected_energy = 0;
    }
}

/// The last time at which an illumination still counts.
pub open spec fn detectable_deadline(d: RadarDetectable) -> int {
    d.last_impulse_time + RADAR_PULSE_TIMEOUT
}

// ---------------------------------------------------------------------------
// Laws

/// The sweep time of a radar after ticks at `times`, starting from a last
/// sweep at `last`: each tick sweeps exactly when it is due.
pub open spec fn sweep_time_after(last: int, scan_interval: int, times: Seq<int>) -> int
    decreases times.len(),
{
    if times.len() == 0 {
        last
    } else {
        let before = sweep_time_after(last, scan_interval, times.drop_last());
        if scan_due(before, scan_interval, times.last()) {
            times.last()
        } else {
            before
        }
    }
}

/// A radar sweeps at most once per scan interval: after a sweep at `t`, no
/// time before `t + scan_interval` is due.
pub proof fn lemma_scan_spacing(t: int, scan_interval: int, now: int)
    requires
        now < t + scan_interval,
    ensures
        !scan_due(t, scan_interval, now),
{
}

/// While the ticks stay short of a whole scan interval after the last sweep,
/// the sweep time does not move.
pub proof fn lemma_sweep_time_holds(last: int, scan_interval: int, times: Seq<int>)
    requires
        forall|k: int| 0 <= k < times.len() ==> #[trigger] times[k] < last + scan_interval,
    ensures
        sweep_time_after(last, scan_interval, times) == last,
    decreases times.len(),
{
    if times.len() > 0 {
        let rest = times.drop_last();
        assert forall|k: int| 0 <= k < rest.len() implies #[trigger] rest[k] < last
            + scan_interval by {
            assert(rest[k] == times[k]);
        }
        lemma_sweep_time_holds(last, scan_interval, rest);
        assert(times.last() == times[times.len() - 1]);
    }
}

/// Over any run of ticks the sweep time either stays at the last sweep or has
/// moved at least a whole scan interval past it.
pub proof fn lemma_sweeps_spaced(last: int, scan_interval: int, times: Seq<int>)
    requires
        scan_interval >= 0,
    ensures
        sweep_time_after(last, scan_interval, times) == last || sweep_time_after(
            last,
            scan_interval,
            times,
        ) >= last + scan_interval,
    decreases times.len(),
{
    if times.len() > 0 {
        lemma_sweeps_spaced(last, scan_interval, times.drop_last());
    }
}

/// A sweep never touches a target of the radar's own coalition.
pub proof fn lemma_friendly_untouched(
    emitter: RadarEmitter,
    radar_position: Vec3i,
    radar_coalition: Coalition,
    now: u64,
    target: RadarTarget,
)
    requires
        target.coalition.side == radar_coalition.side,
    ensures
        swept(emitter, radar_position, radar_coalition, now, target) == target,
{
}

/// The low-altitude curve is nothing on the ground, one at `LOW_RAMP_TOP`, and
/// does not decrease in between.
pub proof fn lemma_low_altitude_curve(a: int, b: int)
    requires
        0 <= a <= b <= LOW_RAMP_TOP,
    ensures
        low_altitude_curve_spec(0) == 0,
        low_altitude_curve_spec(LOW_RAMP_TOP as int) == PER_MILLE,
        low_altitude_curve_spec(a) <= low_altitude_curve_spec(b),
{
    if 0 < a && b < LOW_RAMP_TOP {
        assert(a * 1000 <= b * 1000);
        lemma_div_is_ordered(a * 1000, b * 1000, LOW_RAMP_TOP as int);
    } else if 0 < a {
        assert(a * 1000 <= 1_000_000_000);
        lemma_div_is_ordered(a * 1000, 1_000_000_000, LOW_RAMP_TOP as int);
    }
}

/// The high-altitude curve is one at `HIGH_ROLLOFF_START`, does not increase
/// above it, and never falls below `HIGH_ROLLOFF_FLOOR`.
pub proof fn lemma_high_altitude_curve(a: int, b: int)
    requires
        HIGH_ROLLOFF_START <= a <= b,
    ensures
        high_altitude_curve_spec(HIGH_ROLLOFF_START as int) == PER_MILLE,
        high_altitude_curve_spec(a) >= high_altitude_curve_spec(b),
        high_altitude_curve_spec(a) >= HIGH_ROLLOFF_FLOOR,
        high_altitude_curve_spec(b) <= PER_MILLE,
{
    assert((a - HIGH_ROLLOFF_START) * 1000 <= (b - HIGH_ROLLOFF_START) * 1000);
    lemma_div_is_ordered(
        (a - HIGH_ROLLOFF_START) * 1000,
        (b - HIGH_ROLLOFF_START) * 1000,
        HIGH_ROLLOFF_SPAN as int,
    );
    assert(0 <= (b - HIGH_ROLLOFF_START) * 1000 / HIGH_ROLLOFF_SPAN as int);
}

/// Pulse and Doppler weigh one geometry by complementary factors: their
/// effective gains add up to the nominal gain (in millionths).
pub proof fn lemma_pulse_doppler_complement(gain: int, aspect: int)
    requires
        0 <= aspect <= PER_MILLE,
    ensures
        effective_gain_spec(RadarEmitterType::PULSE, gain, aspect) + effective_gain_spec(
            RadarEmitterType::DOPPLER,
            gain,
            aspect,
        ) == gain * PER_MILLE,
{
    assert(gain * aspect + gain * (1000 - aspect) == gain * 1000) by (nonlinear_arith);
}

} // verus!
