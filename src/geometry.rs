//! Fixed-point vector arithmetic.
//!
//! Positions and displacements are measured in millimetres and held in
//! `i64` components; every quantity derived from them (dot products, squared
//! lengths) is computed in `i128`, so the bounds below are what keeps the
//! arithmetic exact.
use vstd::prelude::*;

verus! {

/// Largest magnitude of a world coordinate, in millimetres (1000 km).
pub const WORLD_LIMIT: i64 = 1_000_000_000;

/// Upper end (exclusive) of the values whose square roots are taken.
pub const SQRT_DOMAIN: u128 = 0x1000_0000_0000_0000_0000_0000_0000_0000;

/// Exclusive upper bound of the binary search in `floor_sqrt` (2^62).
const SQRT_SEARCH_TOP: u128 = 0x4000_0000_0000_0000;

/// A vector with integer components.
#[derive(Clone, Copy, Debug, PartialEq, Eq, Structural)]
pub struct Vec3i {
    pub x: i64,
    pub y: i64,
    pub z: i64,
}

pub open spec fn bounded(v: Vec3i, limit: int) -> bool {
    -limit <= v.x <= limit && -limit <= v.y <= limit && -limit <= v.z <= limit
}

/// A position inside the simulated world.
pub open spec fn in_world(v: Vec3i) -> bool {
    bounded(v, WORLD_LIMIT as int)
}

/// Whether every component of `v` lies within `limit` of zero.
pub fn is_bounded(v: Vec3i, limit: i64) -> (r: bool)
    requires
        limit >= 0,
    ensures
        r == bounded(v, limit as int),
{
    -limit <= v.x && v.x <= limit && -limit <= v.y && v.y <= limit && -limit <= v.z && v.z <= limit
}

/// Whether `v` lies inside the simulated world.
pub fn is_in_world(v: Vec3i) -> (r: bool)
    ensures
        r == in_world(v),
{
    is_bounded(v, WORLD_LIMIT)
}

pub open spec fn dot(a: Vec3i, b: Vec3i) -> int {
    a.x * b.x + a.y * b.y + a.z * b.z
}

pub open spec fn norm2(a: Vec3i) -> int {
    dot(a, a)
}

/// Squared euclidean distance between two points.
pub open spec fn dist2(a: Vec3i, b: Vec3i) -> int {
    (a.x - b.x) * (a.x - b.x) + (a.y - b.y) * (a.y - b.y) + (a.z - b.z) * (a.z - b.z)
}

pub open spec fn is_floor_sqrt(n: int, r: int) -> bool {
    0 <= r && r * r <= n && n < (r + 1) * (r + 1)
}

/// The integer square root of `n`, rounded down.
pub open spec fn sqrt_floor(n: int) -> int {
    choose|r: int| is_floor_sqrt(n, r)
}

/// An integer has at most one rounded-down square root.
pub proof fn lemma_floor_sqrt_unique(n: int, r: int)
    requires
        is_floor_sqrt(n, r),
    ensures
        sqrt_floor(n) == r,
{
    let s = sqrt_floor(n);
    assert(is_floor_sqrt(n, s));
    if s < r {
        assert((s + 1) * (s + 1) <= r * r) by (nonlinear_arith)
            requires
                0 <= s < r,
        ;
    } else if r < s {
        assert((r + 1) * (r + 1) <= s * s) by (nonlinear_arith)
            requires
                0 <= r < s,
        ;
    }
}

pub open spec fn is_ceil_sqrt(n: int, r: int) -> bool {
    0 <= r && n <= r * r && (r == 0 || (r - 1) * (r - 1) < n)
}

pub proof fn lemma_square_nonneg(a: int)
    ensures
        a * a >= 0,
{
    assert(a * a >= 0) by (nonlinear_arith);
}

/// Squared distances between points of the world are small and not negative.
pub proof fn lemma_dist2_range(a: Vec3i, b: Vec3i)
    requires
        in_world(a),
        in_world(b),
    ensures
        0 <= dist2(a, b) <= 12_000_000_000_000_000_000,
{
    lemma_square_le(a.x - b.x, 2_000_000_000);
    lemma_square_le(a.y - b.y, 2_000_000_000);
    lemma_square_le(a.z - b.z, 2_000_000_000);
    lemma_square_nonneg(a.x - b.x);
    lemma_square_nonneg(a.y - b.y);
    lemma_square_nonneg(a.z - b.z);
}

proof fn lemma_square_le(a: int, l: int)
    requires
        -l <= a <= l,
    ensures
        a * a <= l * l,
{
    assert(a * a <= l * l) by (nonlinear_arith)
        requires
            -l <= a <= l,
    ;
}

/// Largest `r` with `r * r <= n`.
pub fn floor_sqrt(n: u128) -> (r: u64)
    requires
        n < SQRT_DOMAIN,
    ensures
        is_floor_sqrt(n as int, r as int),
        r as int == sqrt_floor(n as int),
{
    let mut lo: u128 = 0;
    let mut hi: u128 = SQRT_SEARCH_TOP;
    assert(SQRT_SEARCH_TOP * SQRT_SEARCH_TOP == SQRT_DOMAIN);
    while hi - lo > 1
        invariant
            lo < hi <= SQRT_SEARCH_TOP,
            lo * lo <= n,
            n < hi * hi,
        decreases hi - lo,
    {
        let mid = lo + (hi - lo) / 2;
        assert(mid * mid <= SQRT_SEARCH_TOP * SQRT_SEARCH_TOP) by (nonlinear_arith)
            requires
                0 <= mid <= SQRT_SEARCH_TOP,
        ;
        if mid * mid <= n {
            lo = mid;
        } else {
            hi = mid;
        }
    }
    proof {
        lemma_floor_sqrt_unique(n as int, lo as int);
    }
    lo as u64
}

/// Smallest `r` with `n <= r * r`.
pub fn ceil_sqrt(n: u128) -> (r: u64)
    requires
        n < SQRT_DOMAIN,
    ensures
        is_ceil_sqrt(n as int, r as int),
{
    let f = floor_sqrt(n);
    let f2 = (f as u128) * (f as u128);
    if f2 == n {
        assert(f == 0 || (f - 1) * (f - 1) < f * f) by (nonlinear_arith);
        f
    } else {
        assert(f < SQRT_SEARCH_TOP) by (nonlinear_arith)
            requires
                f as int * f as int <= n,
                n < SQRT_DOMAIN,
                SQRT_DOMAIN == SQRT_SEARCH_TOP * SQRT_SEARCH_TOP,
        ;
        f + 1
    }
}

/// Squared distance between two points of the world.
pub fn distance_squared(a: Vec3i, b: Vec3i) -> (r: u128)
    requires
        in_world(a),
        in_world(b),
    ensures
        r as int == dist2(a, b),
        r as int <= 12 * (WORLD_LIMIT as int) * (WORLD_LIMIT as int),
{
    let dx = (a.x as i128) - (b.x as i128);
    let dy = (a.y as i128) - (b.y as i128);
    let dz = (a.z as i128) - (b.z as i128);
    let ghost l = 2 * (WORLD_LIMIT as int);
    proof {
        lemma_square_le(dx as int, l);
        lemma_square_le(dy as int, l);
        lemma_square_le(dz as int, l);
        lemma_square_nonneg(dx as int);
        lemma_square_nonneg(dy as int);
        lemma_square_nonneg(dz as int);
    }
    let s = dx * dx + dy * dy + dz * dz;
    s as u128
}

/// Euclidean distance between two points, rounded down to a millimetre.
pub fn distance(a: Vec3i, b: Vec3i) -> (r: u64)
    requires
        in_world(a),
        in_world(b),
    ensures
        is_floor_sqrt(dist2(a, b), r as int),
        r as int == sqrt_floor(dist2(a, b)),
{
    let d2 = distance_squared(a, b);
    floor_sqrt(d2)
}

/// Integer quotient rounded toward zero, as Rust divides.
pub open spec fn tdiv(a: int, b: int) -> int {
    if a >= 0 {
        a / b
    } else {
        -((-a) / b)
    }
}

/// The smallest integer whose square is at least `n`.
pub open spec fn sqrt_ceil(n: int) -> int {
    choose|r: int| is_ceil_sqrt(n, r)
}

pub proof fn lemma_ceil_sqrt_unique(n: int, r: int)
    requires
        is_ceil_sqrt(n, r),
    ensures
        sqrt_ceil(n) == r,
{
    let s = sqrt_ceil(n);
    assert(is_ceil_sqrt(n, s));
    if s < r {
        assert(s * s <= (r - 1) * (r - 1)) by (nonlinear_arith)
            requires
                0 <= s < r,
        ;
    } else if r < s {
        assert(r * r <= (s - 1) * (s - 1)) by (nonlinear_arith)
            requires
                0 <= r < s,
        ;
    }
}

/// `|x| <= m` follows from `x * x <= m * m`.
pub proof fn lemma_abs_le_from_square(x: int, m: int)
    requires
        m >= 0,
        x * x <= m * m,
    ensures
        -m <= x <= m,
{
    if x > m {
        assert(x * x > m * m) by (nonlinear_arith)
            requires
                x > m >= 0,
        ;
    }
    if x < -m {
        assert(x * x > m * m) by (nonlinear_arith)
            requires
                x < -m,
                m >= 0,
        ;
    }
}

/// A quotient rounded toward zero of something at most `k` times the divisor
/// is at most `k`.
pub proof fn lemma_tdiv_bound(a: int, b: int, k: int)
    requires
        b > 0,
        k >= 0,
        -k * b <= a <= k * b,
    ensures
        -k <= tdiv(a, b) <= k,
{
    assert(-k * b == -(k * b)) by (nonlinear_arith);
    assert(k * b == b * k) by (nonlinear_arith);
    vstd::arithmetic::div_mod::lemma_div_multiples_vanish(k, b);
    if a >= 0 {
        vstd::arithmetic::div_mod::lemma_div_is_ordered(a, b * k, b);
        vstd::arithmetic::div_mod::lemma_div_pos_is_pos(a, b);
    } else {
        vstd::arithmetic::div_mod::lemma_div_is_ordered(-a, b * k, b);
        vstd::arithmetic::div_mod::lemma_div_pos_is_pos(-a, b);
    }
}

/// Quotient rounded toward zero; the divisor is positive.
pub fn div_toward_zero(a: i128, b: i128) -> (r: i128)
    requires
        b > 0,
        a > i128::MIN,
    ensures
        r as int == tdiv(a as int, b as int),
{
    if a >= 0 {
        a / b
    } else {
        proof {
            vstd::arithmetic::div_mod::lemma_div_pos_is_pos(-a as int, b as int);
            vstd::arithmetic::div_mod::lemma_div_is_ordered_by_denominator(-a as int, 1, b as int);
        }
        -((-a) / b)
    }
}

/// The part of `d` perpendicular to `l` (all of `d` when `l` is zero), each
/// component of the projection rounded toward zero.
pub open spec fn perpendicular_spec(d: Vec3i, l: Vec3i) -> Vec3i {
    let n = norm2(l);
    let k = dot(d, l);
    if n == 0 {
        d
    } else {
        Vec3i {
            x: (d.x - tdiv(k * l.x, n)) as i64,
            y: (d.y - tdiv(k * l.y, n)) as i64,
            z: (d.z - tdiv(k * l.z, n)) as i64,
        }
    }
}

/// `(x1 + x2 + x3) * y` spread over the sum.
proof fn lemma_distribute3(x1: int, x2: int, x3: int, y: int)
    ensures
        (x1 + x2 + x3) * y == x1 * y + x2 * y + x3 * y,
{
    assert((x1 + x2 + x3) * y == x1 * y + x2 * y + x3 * y) by (nonlinear_arith);
}

/// `x * (a + b + c)` spread over the sum.
proof fn lemma_spread3(x: int, a: int, b: int, c: int)
    ensures
        x * (a + b + c) == x * a + x * b + x * c,
{
    assert(x * (a + b + c) == x * a + x * b + x * c) by (nonlinear_arith);
}

proof fn lemma_commute(a: int, b: int)
    ensures
        a * b == b * a,
{
}

proof fn lemma_square_difference(a: int, b: int)
    ensures
        (a - b) * (a - b) == a * a - 2 * (a * b) + b * b,
{
    assert((a - b) * (a - b) == a * a - 2 * (a * b) + b * b) by (nonlinear_arith);
}

/// `(a * a) * (b * b) == (a * b) * (a * b)`.
proof fn lemma_square_product(a: int, b: int)
    ensures
        (a * a) * (b * b) == (a * b) * (a * b),
{
    assert((a * a) * (b * b) == (a * b) * (a * b)) by (nonlinear_arith);
}

/// `(a1 * b2) * (a2 * b1) == (a1 * b1) * (a2 * b2)`.
proof fn lemma_cross_product_swap(a1: int, a2: int, b1: int, b2: int)
    ensures
        (a1 * b2) * (a2 * b1) == (a1 * b1) * (a2 * b2),
{
    assert((a1 * b2) * (a2 * b1) == (a1 * b1) * (a2 * b2)) by (nonlinear_arith);
}

/// Cauchy-Schwarz, through Lagrange's identity.
pub proof fn lemma_cauchy_schwarz(d: Vec3i, l: Vec3i)
    ensures
        dot(d, l) * dot(d, l) <= norm2(d) * norm2(l),
{
    let (a1, a2, a3) = (d.x as int, d.y as int, d.z as int);
    let (b1, b2, b3) = (l.x as int, l.y as int, l.z as int);
    let (p11, p12, p13) = (a1 * b1, a1 * b2, a1 * b3);
    let (p21, p22, p23) = (a2 * b1, a2 * b2, a2 * b3);
    let (p31, p32, p33) = (a3 * b1, a3 * b2, a3 * b3);
    let sa = a1 * a1 + a2 * a2 + a3 * a3;
    let sb = b1 * b1 + b2 * b2 + b3 * b3;
    // norm2(d) * norm2(l) as the sum of the nine squared products
    lemma_distribute3(a1 * a1, a2 * a2, a3 * a3, sb);
    lemma_distribute3(b1 * b1, b2 * b2, b3 * b3, a1 * a1);
    lemma_distribute3(b1 * b1, b2 * b2, b3 * b3, a2 * a2);
    lemma_distribute3(b1 * b1, b2 * b2, b3 * b3, a3 * a3);
    lemma_square_product(a1, b1);
    lemma_square_product(a1, b2);
    lemma_square_product(a1, b3);
    lemma_square_product(a2, b1);
    lemma_square_product(a2, b2);
    lemma_square_product(a2, b3);
    lemma_square_product(a3, b1);
    lemma_square_product(a3, b2);
    lemma_square_product(a3, b3);
    assert(sa * sb == p11 * p11 + p12 * p12 + p13 * p13 + p21 * p21 + p22 * p22 + p23 * p23 + p31
        * p31 + p32 * p32 + p33 * p33);
    // dot(d, l) squared
    let k = p11 + p22 + p33;
    lemma_distribute3(p11, p22, p33, k);
    lemma_spread3(p11, p11, p22, p33);
    lemma_spread3(p22, p11, p22, p33);
    lemma_spread3(p33, p11, p22, p33);
    lemma_commute(p22, p11);
    lemma_commute(p33, p11);
    lemma_commute(p33, p22);
    // the cross terms
    lemma_cross_product_swap(a2, a3, b2, b3);
    lemma_cross_product_swap(a3, a1, b3, b1);
    lemma_cross_product_swap(a1, a2, b1, b2);
    lemma_square_difference(p23, p32);
    lemma_square_difference(p31, p13);
    lemma_square_difference(p12, p21);
    lemma_commute(p33, p11);
    lemma_square_nonneg(p23 - p32);
    lemma_square_nonneg(p31 - p13);
    lemma_square_nonneg(p12 - p21);
    assert(sa * sb - k * k == (p23 - p32) * (p23 - p32) + (p31 - p13) * (p31 - p13) + (p12 - p21)
        * (p12 - p21));
}

/// One component of the projection of `d` on `l` is no longer than `m`,
/// where `m * m` bounds the squared length of `d`.
proof fn lemma_projection_bound(d: Vec3i, l: Vec3i, c: int, m: int)
    requires
        norm2(l) > 0,
        m >= 0,
        norm2(d) <= m * m,
        c == l.x || c == l.y || c == l.z,
    ensures
        -m <= tdiv(dot(d, l) * c, norm2(l)) <= m,
{
    let n = norm2(l);
    let k = dot(d, l);
    lemma_cauchy_schwarz(d, l);
    lemma_square_nonneg(l.x as int);
    lemma_square_nonneg(l.y as int);
    lemma_square_nonneg(l.z as int);
    assert(c * c <= n);
    lemma_square_nonneg(k);
    lemma_square_nonneg(c);
    assert((k * c) * (k * c) <= (m * n) * (m * n)) by (nonlinear_arith)
        requires
            k * k <= norm2(d) * n,
            norm2(d) <= m * m,
            0 <= c * c <= n,
            0 <= k * k,
            n > 0,
    ;
    assert(m * n >= 0) by (nonlinear_arith)
        requires
            m >= 0,
            n > 0,
    ;
    lemma_abs_le_from_square(k * c, m * n);
    assert(-m * n == -(m * n)) by (nonlinear_arith);
    lemma_tdiv_bound(k * c, n, m);
}

/// Ranges of the squares and products that `perpendicular` forms.
proof fn lemma_perpendicular_ranges(d: Vec3i, l: Vec3i)
    requires
        bounded(d, 4 * WORLD_LIMIT),
        bounded(l, 2 * WORLD_LIMIT),
    ensures
        0 <= l.x * l.x <= 4_000_000_000_000_000_000,
        0 <= l.y * l.y <= 4_000_000_000_000_000_000,
        0 <= l.z * l.z <= 4_000_000_000_000_000_000,
        norm2(d) <= 48_000_000_000_000_000_000,
        -8_000_000_000_000_000_000 <= d.x * l.x <= 8_000_000_000_000_000_000,
        -8_000_000_000_000_000_000 <= d.y * l.y <= 8_000_000_000_000_000_000,
        -8_000_000_000_000_000_000 <= d.z * l.z <= 8_000_000_000_000_000_000,
{
    lemma_square_le(d.x as int, 4_000_000_000);
    lemma_square_le(d.y as int, 4_000_000_000);
    lemma_square_le(d.z as int, 4_000_000_000);
    lemma_square_le(l.x as int, 2_000_000_000);
    lemma_square_le(l.y as int, 2_000_000_000);
    lemma_square_le(l.z as int, 2_000_000_000);
    lemma_square_nonneg(l.x as int);
    lemma_square_nonneg(l.y as int);
    lemma_square_nonneg(l.z as int);
    lemma_product_range(d.x as int, l.x as int);
    lemma_product_range(d.y as int, l.y as int);
    lemma_product_range(d.z as int, l.z as int);
}

proof fn lemma_product_range(a: int, b: int)
    requires
        -4_000_000_000 <= a <= 4_000_000_000,
        -2_000_000_000 <= b <= 2_000_000_000,
    ensures
        -8_000_000_000_000_000_000 <= a * b <= 8_000_000_000_000_000_000,
{
    assert(-8_000_000_000_000_000_000 <= a * b <= 8_000_000_000_000_000_000) by (nonlinear_arith)
        requires
            -4_000_000_000 <= a <= 4_000_000_000,
            -2_000_000_000 <= b <= 2_000_000_000,
    ;
}

/// Range of the dot product times a component, in `perpendicular`.
proof fn lemma_dot_times_component(d: Vec3i, l: Vec3i, k: int)
    requires
        bounded(l, 2 * WORLD_LIMIT),
        -24_000_000_000_000_000_000 <= k <= 24_000_000_000_000_000_000,
    ensures
        -48_000_000_000_000_000_000_000_000_000 <= k * l.x <= 48_000_000_000_000_000_000_000_000_000,
        -48_000_000_000_000_000_000_000_000_000 <= k * l.y <= 48_000_000_000_000_000_000_000_000_000,
        -48_000_000_000_000_000_000_000_000_000 <= k * l.z <= 48_000_000_000_000_000_000_000_000_000,
{
    lemma_big_product_range(k, l.x as int);
    lemma_big_product_range(k, l.y as int);
    lemma_big_product_range(k, l.z as int);
}

proof fn lemma_big_product_range(k: int, c: int)
    requires
        -24_000_000_000_000_000_000 <= k <= 24_000_000_000_000_000_000,
        -2_000_000_000 <= c <= 2_000_000_000,
    ensures
        -48_000_000_000_000_000_000_000_000_000 <= k * c <= 48_000_000_000_000_000_000_000_000_000,
{
    assert(-48_000_000_000_000_000_000_000_000_000 <= k * c <= 48_000_000_000_000_000_000_000_000_000)
        by (nonlinear_arith)
        requires
            -24_000_000_000_000_000_000 <= k <= 24_000_000_000_000_000_000,
            -2_000_000_000 <= c <= 2_000_000_000,
    ;
}

pub fn perpendicular(d: Vec3i, l: Vec3i) -> (r: Vec3i)
    requires
        bounded(d, 4 * WORLD_LIMIT),
        bounded(l, 2 * WORLD_LIMIT),
    ensures
        r == perpendicular_spec(d, l),
        bounded(r, 11 * WORLD_LIMIT),
{
    proof {
        lemma_perpendicular_ranges(d, l);
    }
    let n: i128 = (l.x as i128) * (l.x as i128) + (l.y as i128) * (l.y as i128) + (l.z as i128) * (
    l.z as i128);
    if n == 0 {
        return d;
    }
    let k: i128 = (d.x as i128) * (l.x as i128) + (d.y as i128) * (l.y as i128) + (d.z as i128) * (
    l.z as i128);
    proof {
        lemma_dot_times_component(d, l, k as int);
        assert(norm2(d) <= 7_000_000_000 * 7_000_000_000);
        lemma_projection_bound(d, l, l.x as int, 7_000_000_000);
        lemma_projection_bound(d, l, l.y as int, 7_000_000_000);
        lemma_projection_bound(d, l, l.z as int, 7_000_000_000);
    }
    let px = div_toward_zero(k * (l.x as i128), n);
    let py = div_toward_zero(k * (l.y as i128), n);
    let pz = div_toward_zero(k * (l.z as i128), n);
    Vec3i {
        x: ((d.x as i128) - px) as i64,
        y: ((d.y as i128) - py) as i64,
        z: ((d.z as i128) - pz) as i64,
    }
}

/// Largest component of a vector whose length `clamp_length` limits.
pub const CLAMP_INPUT_LIMIT: i64 = 100_000_000_000_000_000;

/// Largest length to which `clamp_length` limits a vector.
pub const CLAMP_LENGTH_LIMIT: u64 = 1_000_000_000;

/// `v` scaled down to length `t` when it is longer, each component rounded
/// toward zero; otherwise `v` itself.
pub open spec fn clamp_length_spec(v: Vec3i, t: int) -> Vec3i {
    let n = norm2(v);
    if n <= t * t {
        v
    } else {
        let len = sqrt_ceil(n);
        Vec3i {
            x: tdiv(v.x * t, len) as i64,
            y: tdiv(v.y * t, len) as i64,
            z: tdiv(v.z * t, len) as i64,
        }
    }
}

pub open spec fn abs(a: int) -> int {
    if a >= 0 {
        a
    } else {
        -a
    }
}

/// A quotient rounded toward zero, times the divisor, is no larger in
/// magnitude than the dividend.
proof fn lemma_tdiv_times_divisor(a: int, b: int)
    requires
        b > 0,
    ensures
        0 <= abs(tdiv(a, b)) * b <= abs(a),
{
    let m = abs(a);
    vstd::arithmetic::div_mod::lemma_fundamental_div_mod(m, b);
    vstd::arithmetic::div_mod::lemma_mod_pos_bound(m, b);
    vstd::arithmetic::div_mod::lemma_div_pos_is_pos(m, b);
    assert(abs(tdiv(a, b)) == m / b);
    assert((m / b) * b == b * (m / b)) by (nonlinear_arith);
    assert((m / b) * b >= 0) by (nonlinear_arith)
        requires
            m / b >= 0,
            b > 0,
    ;
}

/// One clamped component: `r * r * L * L <= v * v * t * t`.
proof fn lemma_clamped_component(vc: int, t: int, len: int)
    requires
        len > 0,
        t >= 0,
    ensures
        tdiv(vc * t, len) * tdiv(vc * t, len) * (len * len) <= vc * vc * (t * t),
{
    let a = vc * t;
    let r = tdiv(a, len);
    lemma_tdiv_times_divisor(a, len);
    let ra = abs(r);
    let aa = abs(a);
    assert(ra * len * (ra * len) <= aa * aa) by (nonlinear_arith)
        requires
            0 <= ra * len <= aa,
    ;
    assert(ra * ra == r * r) by (nonlinear_arith)
        requires
            ra == r || ra == -r,
    ;
    assert(aa * aa == a * a) by (nonlinear_arith)
        requires
            aa == a || aa == -a,
    ;
    assert(ra * len * (ra * len) == r * r * (len * len)) by (nonlinear_arith)
        requires
            ra * ra == r * r,
    ;
    assert(a * a == vc * vc * (t * t)) by (nonlinear_arith)
        requires
            a == vc * t,
    ;
}

/// The clamped components make a vector no longer than `t`.
proof fn lemma_clamped_length(v: Vec3i, t: int, len: int)
    requires
        len > 0,
        t >= 0,
        norm2(v) <= len * len,
    ensures
        ({
            let rx = tdiv(v.x * t, len);
            let ry = tdiv(v.y * t, len);
            let rz = tdiv(v.z * t, len);
            &&& rx * rx + ry * ry + rz * rz <= t * t
            &&& -t <= rx <= t
            &&& -t <= ry <= t
            &&& -t <= rz <= t
        }),
{
    let rx = tdiv(v.x * t, len);
    let ry = tdiv(v.y * t, len);
    let rz = tdiv(v.z * t, len);
    lemma_clamped_component(v.x as int, t, len);
    lemma_clamped_component(v.y as int, t, len);
    lemma_clamped_component(v.z as int, t, len);
    let (vx, vy, vz) = (v.x as int, v.y as int, v.z as int);
    let ll = len * len;
    let tt = t * t;
    assert(len * len > 0) by (nonlinear_arith)
        requires
            len > 0,
    ;
    lemma_distribute3(rx * rx, ry * ry, rz * rz, ll);
    lemma_distribute3(vx * vx, vy * vy, vz * vz, tt);
    let nr = rx * rx + ry * ry + rz * rz;
    assert(nr * ll <= norm2(v) * tt);
    lemma_square_nonneg(t);
    assert(norm2(v) * tt <= ll * tt) by (nonlinear_arith)
        requires
            norm2(v) <= ll,
            tt >= 0,
    ;
    assert(nr <= tt) by (nonlinear_arith)
        requires
            nr * ll <= ll * tt,
            ll > 0,
    ;
    lemma_square_nonneg(rx);
    lemma_square_nonneg(ry);
    lemma_square_nonneg(rz);
    lemma_abs_le_from_square(rx, t);
    lemma_abs_le_from_square(ry, t);
    lemma_abs_le_from_square(rz, t);
}

/// A vector no longer than `t` has components no larger than `t`.
pub proof fn lemma_short_vector_bounded(r: Vec3i, t: int)
    requires
        t >= 0,
        norm2(r) <= t * t,
    ensures
        bounded(r, t),
{
    lemma_square_nonneg(r.x as int);
    lemma_square_nonneg(r.y as int);
    lemma_square_nonneg(r.z as int);
    lemma_abs_le_from_square(r.x as int, t);
    lemma_abs_le_from_square(r.y as int, t);
    lemma_abs_le_from_square(r.z as int, t);
}

/// Scales `v` down to length `t` when it is longer.
pub fn clamp_length(v: Vec3i, t: u64) -> (r: Vec3i)
    requires
        bounded(v, CLAMP_INPUT_LIMIT as int),
        t <= CLAMP_LENGTH_LIMIT,
    ensures
        r == clamp_length_spec(v, t as int),
        norm2(r) <= t * t,
        bounded(r, t as int),
        v != (Vec3i { x: 0, y: 0, z: 0 }) && t >= 3 ==> r != (Vec3i { x: 0, y: 0, z: 0 }),
{
    proof {
        lemma_square_le(v.x as int, CLAMP_INPUT_LIMIT as int);
        lemma_square_le(v.y as int, CLAMP_INPUT_LIMIT as int);
        lemma_square_le(v.z as int, CLAMP_INPUT_LIMIT as int);
        lemma_square_nonneg(v.x as int);
        lemma_square_nonneg(v.y as int);
        lemma_square_nonneg(v.z as int);
        assert(CLAMP_INPUT_LIMIT * CLAMP_INPUT_LIMIT == 10_000_000_000_000_000_000_000_000_000_000_000);
    }
    let n: i128 = (v.x as i128) * (v.x as i128) + (v.y as i128) * (v.y as i128) + (v.z as i128) * (
    v.z as i128);
    proof {
        lemma_square_le(t as int, CLAMP_LENGTH_LIMIT as int);
    }
    let tt: i128 = (t as i128) * (t as i128);
    if n <= tt {
        proof {
            lemma_short_vector_bounded(v, t as int);
        }
        return v;
    }
    let len = ceil_sqrt(n as u128);
    proof {
        lemma_ceil_sqrt_unique(n as int, len as int);
        assert(len > 0);
        vstd::arithmetic::div_mod::lemma_div_is_ordered_by_denominator(0, 1, 1);
    }
    proof {
        lemma_clamp_factor_range(v.x as int, t as int);
        lemma_clamp_factor_range(v.y as int, t as int);
        lemma_clamp_factor_range(v.z as int, t as int);
        lemma_clamped_length(v, t as int, len as int);
    }
    proof {
        if v != (Vec3i { x: 0, y: 0, z: 0 }) && t >= 3 {
            let n = norm2(v);
            let (vx, vy, vz) = (v.x as int, v.y as int, v.z as int);
            lemma_square_nonneg(vx);
            lemma_square_nonneg(vy);
            lemma_square_nonneg(vz);
            assert(n >= 9) by (nonlinear_arith)
                requires
                    n > t * t,
                    t >= 3,
            ;
            if vx * vx >= vy * vy && vx * vx >= vz * vz {
                lemma_clamp_keeps_nonzero(vx, n, t as int, len as int);
            } else if vy * vy >= vz * vz {
                lemma_clamp_keeps_nonzero(vy, n, t as int, len as int);
            } else {
                lemma_clamp_keeps_nonzero(vz, n, t as int, len as int);
            }
        }
    }
    let x = div_toward_zero((v.x as i128) * (t as i128), len as i128);
    let y = div_toward_zero((v.y as i128) * (t as i128), len as i128);
    let z = div_toward_zero((v.z as i128) * (t as i128), len as i128);
    let r = Vec3i { x: x as i64, y: y as i64, z: z as i64 };
    proof {
        lemma_short_vector_bounded(r, t as int);
    }
    r
}

/// The largest component of a vector longer than `t >= 3` survives the
/// scaling to length `t`.
proof fn lemma_clamp_keeps_nonzero(vc: int, n: int, t: int, len: int)
    requires
        3 * (vc * vc) >= n,
        n >= 2,
        t >= 3,
        len >= 1,
        (len - 1) * (len - 1) < n,
    ensures
        tdiv(vc * t, len) != 0,
{
    let a = len - 1;
    assert(a <= a * a) by (nonlinear_arith)
        requires
            a >= 0,
    ;
    assert(len * len == a * a + 2 * a + 1) by (nonlinear_arith)
        requires
            a == len - 1,
    ;
    assert(len * len <= 3 * n - 2);
    assert((vc * t) * (vc * t) >= 9 * (vc * vc)) by (nonlinear_arith)
        requires
            t >= 3,
    ;
    if abs(vc * t) < len {
        assert(abs(vc * t) * abs(vc * t) <= len * len) by (nonlinear_arith)
            requires
                0 <= abs(vc * t) < len,
        ;
        assert(abs(vc * t) * abs(vc * t) == (vc * t) * (vc * t)) by (nonlinear_arith)
            requires
                abs(vc * t) == vc * t || abs(vc * t) == -(vc * t),
        ;
    }
    vstd::arithmetic::div_mod::lemma_div_is_ordered(len, abs(vc * t), len);
    vstd::arithmetic::div_mod::lemma_div_multiples_vanish(1, len);
}

proof fn lemma_clamp_factor_range(c: int, t: int)
    requires
        -CLAMP_INPUT_LIMIT <= c <= CLAMP_INPUT_LIMIT,
        0 <= t <= CLAMP_LENGTH_LIMIT,
    ensures
        -100_000_000_000_000_000_000_000_000 <= c * t <= 100_000_000_000_000_000_000_000_000,
{
    assert(-100_000_000_000_000_000_000_000_000 <= c * t <= 100_000_000_000_000_000_000_000_000)
        by (nonlinear_arith)
        requires
            -100_000_000_000_000_000 <= c <= 100_000_000_000_000_000,
            0 <= t <= 1_000_000_000,
    ;
}

/// `|a * b| <= ma * mb` when `|a| <= ma` and `|b| <= mb`.
pub proof fn lemma_mul_bound(a: int, b: int, ma: int, mb: int)
    requires
        -ma <= a <= ma,
        -mb <= b <= mb,
    ensures
        -(ma * mb) <= a * b <= ma * mb,
{
    assert(-(ma * mb) <= a * b <= ma * mb) by (nonlinear_arith)
        requires
            -ma <= a <= ma,
            -mb <= b <= mb,
    ;
}

/// The difference of two vectors, component by component.
pub open spec fn vsub(a: Vec3i, b: Vec3i) -> Vec3i {
    Vec3i { x: (a.x - b.x) as i64, y: (a.y - b.y) as i64, z: (a.z - b.z) as i64 }
}

/// `a - b`; the components of both are bounded by `limit`.
pub fn difference(a: Vec3i, b: Vec3i, limit: i64) -> (r: Vec3i)
    requires
        0 <= limit <= i64::MAX / 2,
        bounded(a, limit as int),
        bounded(b, limit as int),
    ensures
        r == vsub(a, b),
        bounded(r, 2 * limit),
        r.x == a.x - b.x,
        r.y == a.y - b.y,
        r.z == a.z - b.z,
{
    Vec3i { x: a.x - b.x, y: a.y - b.y, z: a.z - b.z }
}

} // verus!
