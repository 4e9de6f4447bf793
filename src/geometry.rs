//! Fixed-point plane geometry: points, squared distances, integer square
//! roots, discrete headings and bounded movement towards a target.

use vstd::prelude::*;

verus! {

/// Length units in one world unit: coordinates are kept in thousandths.
pub const UNIT: i64 = 1000;

/// Largest absolute value a coordinate of a position may take.
pub const WORLD_LIMIT: i64 = 1_000_000_000_000;

/// Largest distance (radius, reach, step length) that the geometry accepts.
pub const MAX_REACH: u64 = 1_000_000_000_000;

/// Number of discrete headings in a full turn: one every five degrees.
pub const HEADINGS: u64 = 72;

/// Headings in a quarter turn.
pub const QUARTER: u64 = 18;

/// Length of a direction vector: its components are in ten-thousandths.
pub const DIRECTION_SCALE: i64 = 10000;

/// Upper bound (exclusive) of the square root of any squared distance
/// between two points of the world.
pub const ROOT_BOUND: u64 = 3_000_000_000_000;

/// A point of the plane, in thousandths of a world unit.
#[derive(Clone, Copy, Debug, PartialEq, Eq, Structural)]
pub struct Point {
    pub x: i64,
    pub y: i64,
}

impl Point {
    /// Both coordinates lie within the world's limits.
    pub open spec fn in_world(self) -> bool {
        -WORLD_LIMIT <= self.x <= WORLD_LIMIT && -WORLD_LIMIT <= self.y <= WORLD_LIMIT
    }
}

/// Squared Euclidean distance between two points.
pub open spec fn dist_sq(a: Point, b: Point) -> int {
    (a.x - b.x) * (a.x - b.x) + (a.y - b.y) * (a.y - b.y)
}

/// `r` is the integer square root of `n`.
pub open spec fn is_root(n: int, r: int) -> bool {
    0 <= r && r * r <= n && n < (r + 1) * (r + 1)
}

/// The integer square root of a non-negative number.
pub open spec fn floor_sqrt(n: int) -> int {
    choose|r: int| is_root(n, r)
}

/// Clamps a value into the world's coordinate range.
pub open spec fn clamp_coord(v: int) -> int {
    if v < -WORLD_LIMIT {
        -WORLD_LIMIT as int
    } else if v > WORLD_LIMIT {
        WORLD_LIMIT as int
    } else {
        v
    }
}

/// Division that rounds towards zero, for a positive divisor.
pub open spec fn div_toward_zero(a: int, d: int) -> int {
    if a >= 0 {
        a / d
    } else {
        -((-a) / d)
    }
}

/// Sine of `k` twentieths of a right angle (`k` in 0..=18), in ten-thousandths.
pub open spec fn quarter_sine(k: int) -> int {
    if k <= 0 {
        0
    } else if k == 1 {
        872
    } else if k == 2 {
        1736
    } else if k == 3 {
        2588
    } else if k == 4 {
        3420
    } else if k == 5 {
        4226
    } else if k == 6 {
        5000
    } else if k == 7 {
        5736
    } else if k == 8 {
        6428
    } else if k == 9 {
        7071
    } else if k == 10 {
        7660
    } else if k == 11 {
        8192
    } else if k == 12 {
        8660
    } else if k == 13 {
        9063
    } else if k == 14 {
        9397
    } else if k == 15 {
        9659
    } else if k == 16 {
        9848
    } else if k == 17 {
        9962
    } else {
        10000
    }
}

/// First component of the unit vector of heading `h`.
pub open spec fn unit_x(h: int) -> int {
    let q = h / QUARTER as int;
    let k = h % QUARTER as int;
    if q == 0 {
        quarter_sine(QUARTER - k)
    } else if q == 1 {
        -quarter_sine(k)
    } else if q == 2 {
        -quarter_sine(QUARTER - k)
    } else {
        quarter_sine(k)
    }
}

/// Second component of the unit vector of heading `h`.
pub open spec fn unit_y(h: int) -> int {
    let q = h / QUARTER as int;
    let k = h % QUARTER as int;
    if q == 0 {
        quarter_sine(k)
    } else if q == 1 {
        quarter_sine(QUARTER - k)
    } else if q == 2 {
        -quarter_sine(k)
    } else {
        -quarter_sine(QUARTER - k)
    }
}

/// The point `distance` away from `p` along heading `h`, kept in the world.
pub open spec fn offset_spec(p: Point, h: int, distance: int) -> Point {
    Point {
        x: clamp_coord(p.x + div_toward_zero(unit_x(h) * distance, DIRECTION_SCALE as int)) as i64,
        y: clamp_coord(p.y + div_toward_zero(unit_y(h) * distance, DIRECTION_SCALE as int)) as i64,
    }
}

/// One coordinate after moving a step of length `step` along a segment
/// whose length rounds down to `len` and whose extent on this axis is `d`.
pub open spec fn advance_coord(c: int, d: int, step: int, len: int) -> int {
    c + div_toward_zero(d * step, len)
}

/// Where a walker at `from` heading for `to` stands after covering `step`:
/// on the target when it is no farther than the step, else that far along
/// the segment (the segment's length rounded down).
pub open spec fn step_toward_spec(from: Point, to: Point, step: int) -> Point {
    if dist_sq(from, to) <= step * step {
        to
    } else {
        let len = floor_sqrt(dist_sq(from, to));
        Point {
            x: advance_coord(from.x as int, to.x - from.x, step, len) as i64,
            y: advance_coord(from.y as int, to.y - from.y, step, len) as i64,
        }
    }
}

proof fn lemma_square_monotonic(a: int, b: int)
    requires
        0 <= a <= b,
    ensures
        a * a <= b * b,
{
    assert(a * a <= b * b) by (nonlinear_arith)
        requires
            0 <= a <= b,
    ;
}

/// The integer square root is unique.
pub proof fn lemma_root_unique(n: int, r: int)
    requires
        is_root(n, r),
    ensures
        floor_sqrt(n) == r,
{
    let s = floor_sqrt(n);
    assert(is_root(n, s));
    if s < r {
        lemma_square_monotonic(s + 1, r);
    } else if r < s {
        lemma_square_monotonic(r + 1, s);
    }
}

/// Squared distance between two points of the world.
pub fn distance_sq(a: Point, b: Point) -> (r: u128)
    requires
        a.in_world(),
        b.in_world(),
    ensures
        r == dist_sq(a, b),
        r < ROOT_BOUND * ROOT_BOUND,
{
    let dx: i128 = a.x as i128 - b.x as i128;
    let dy: i128 = a.y as i128 - b.y as i128;
    assert(0 <= dx * dx <= 4_000_000_000_000_000_000_000_000) by (nonlinear_arith)
        requires
            -2_000_000_000_000 <= dx <= 2_000_000_000_000,
    ;
    assert(0 <= dy * dy <= 4_000_000_000_000_000_000_000_000) by (nonlinear_arith)
        requires
            -2_000_000_000_000 <= dy <= 2_000_000_000_000,
    ;
    (dx * dx + dy * dy) as u128
}

/// Distance between two points of the world, rounded down.
pub fn distance(a: Point, b: Point) -> (r: u64)
    requires
        a.in_world(),
        b.in_world(),
    ensures
        is_root(dist_sq(a, b), r as int),
{
    isqrt(distance_sq(a, b))
}

/// Integer square root by bisection.
pub fn isqrt(n: u128) -> (r: u64)
    requires
        n < ROOT_BOUND * ROOT_BOUND,
    ensures
        is_root(n as int, r as int),
        r == floor_sqrt(n as int),
        r < ROOT_BOUND,
{
    let mut lo: u64 = 0;
    let mut hi: u64 = ROOT_BOUND;
    while hi - lo > 1
        invariant
            lo < hi <= ROOT_BOUND,
            lo * lo <= n,
            n < hi * hi,
        decreases hi - lo,
    {
        let mid: u64 = lo + (hi - lo) / 2;
        proof {
            lemma_square_monotonic(mid as int, ROOT_BOUND as int);
        }
        if (mid as u128) * (mid as u128) <= n {
            lo = mid;
        } else {
            hi = mid;
        }
    }
    proof {
        lemma_root_unique(n as int, lo as int);
    }
    lo
}

/// Clamps a value into the world's coordinate range.
pub fn clamp_to_world(v: i128) -> (r: i64)
    ensures
        r == clamp_coord(v as int),
{
    if v < -(WORLD_LIMIT as i128) {
        -WORLD_LIMIT
    } else if v > WORLD_LIMIT as i128 {
        WORLD_LIMIT
    } else {
        v as i64
    }
}

/// Division rounding towards zero by a positive divisor.
fn divide_toward_zero(a: i128, d: i128) -> (r: i128)
    requires
        d > 0,
        a > i128::MIN,
    ensures
        r == div_toward_zero(a as int, d as int),
{
    if a >= 0 {
        a / d
    } else {
        -((-a) / d)
    }
}

/// Sine of `k` twentieths of a right angle, in ten-thousandths.
fn quarter_sine_of(k: u64) -> (r: i64)
    requires
        k <= QUARTER,
    ensures
        r == quarter_sine(k as int),
        0 <= r <= DIRECTION_SCALE,
{
    match k {
        0 => 0,
        1 => 872,
        2 => 1736,
        3 => 2588,
        4 => 3420,
        5 => 4226,
        6 => 5000,
        7 => 5736,
        8 => 6428,
        9 => 7071,
        10 => 7660,
        11 => 8192,
        12 => 8660,
        13 => 9063,
        14 => 9397,
        15 => 9659,
        16 => 9848,
        17 => 9962,
        _ => 10000,
    }
}

/// Unit vector of a heading, components in ten-thousandths.
pub fn create_direction_vector(h: u64) -> (r: (i64, i64))
    requires
        h < HEADINGS,
    ensures
        r.0 == unit_x(h as int),
        r.1 == unit_y(h as int),
        -DIRECTION_SCALE <= r.0 <= DIRECTION_SCALE,
        -DIRECTION_SCALE <= r.1 <= DIRECTION_SCALE,
{
    let q = h / QUARTER;
    let k = h % QUARTER;
    let a = quarter_sine_of(k);
    let b = quarter_sine_of(QUARTER - k);
    if q == 0 {
        (b, a)
    } else if q == 1 {
        (-a, b)
    } else if q == 2 {
        (-b, -a)
    } else {
        (a, -b)
    }
}

/// The point `distance` away from `p` along heading `h`, kept in the world.
pub fn offset(p: Point, h: u64, distance: u64) -> (r: Point)
    requires
        h < HEADINGS,
        distance <= MAX_REACH,
    ensures
        r == offset_spec(p, h as int, distance as int),
        r.in_world(),
{
    let (ux, uy) = create_direction_vector(h);
    assert(-10_000_000_000_000_000 <= ux * distance <= 10_000_000_000_000_000) by (nonlinear_arith)
        requires
            -DIRECTION_SCALE <= ux <= DIRECTION_SCALE,
            0 <= distance <= MAX_REACH,
    ;
    assert(-10_000_000_000_000_000 <= uy * distance <= 10_000_000_000_000_000) by (nonlinear_arith)
        requires
            -DIRECTION_SCALE <= uy <= DIRECTION_SCALE,
            0 <= distance <= MAX_REACH,
    ;
    let mx = divide_toward_zero(ux as i128 * distance as i128, DIRECTION_SCALE as i128);
    let my = divide_toward_zero(uy as i128 * distance as i128, DIRECTION_SCALE as i128);
    Point { x: clamp_to_world(p.x as i128 + mx), y: clamp_to_world(p.y as i128 + my) }
}

/// Moves a coordinate `step / len` of the way along an extent `d`.
fn advance(c: i64, d: i128, step: u64, len: u64) -> (r: i64)
    requires
        -WORLD_LIMIT <= c <= WORLD_LIMIT,
        -WORLD_LIMIT <= c + d <= WORLD_LIMIT,
        0 < step <= len,
        len < ROOT_BOUND,
    ensures
        r == advance_coord(c as int, d as int, step as int, len as int),
        d >= 0 ==> c <= r <= c + d,
        d < 0 ==> c + d <= r <= c,
{
    let m: i128 = if d >= 0 { d } else { -d };
    assert(0 <= m * step <= m * len) by (nonlinear_arith)
        requires
            0 <= m,
            0 < step <= len,
    ;
    assert(m * len <= 6_000_000_000_000_000_000_000_000) by (nonlinear_arith)
        requires
            0 <= m <= 2_000_000_000_000,
            0 < len < ROOT_BOUND,
    ;
    let q: i128 = (m * step as i128) / len as i128;
    assert(q <= m) by (nonlinear_arith)
        requires
            q == (m * step) / (len as int),
            0 <= m * step <= m * len,
            len > 0,
    ;
    assert(q >= 0) by (nonlinear_arith)
        requires
            q == (m * step) / (len as int),
            0 <= m * step,
            len > 0,
    ;
    if d >= 0 {
        (c as i128 + q) as i64
    } else {
        assert(-d * step == -(d * step)) by (nonlinear_arith);
        (c as i128 - q) as i64
    }
}

/// Moves `from` towards `to` by at most `step`, landing on `to` when it is
/// within reach: the walker never overshoots its target.
pub fn step_toward(from: Point, to: Point, step: u64) -> (r: Point)
    requires
        from.in_world(),
        to.in_world(),
        step <= MAX_REACH,
    ensures
        r == step_toward_spec(from, to, step as int),
        r.in_world(),
        (r == to) <== dist_sq(from, to) <= step * step,
{
    let d2 = distance_sq(from, to);
    assert(step * step <= MAX_REACH * MAX_REACH) by (nonlinear_arith)
        requires
            step <= MAX_REACH,
    ;
    if d2 <= (step as u128) * (step as u128) {
        to
    } else if step == 0 {
        let len = isqrt(d2);
        assert(len > 0) by (nonlinear_arith)
            requires
                d2 > 0,
                d2 < (len + 1) * (len + 1),
                len >= 0,
        ;
        assert((to.x - from.x) * 0 == 0 && (to.y - from.y) * 0 == 0);
        assert(0int / (len as int) == 0);
        from
    } else {
        let len = isqrt(d2);
        assert(step <= len) by (nonlinear_arith)
            requires
                d2 > step * step,
                d2 < (len + 1) * (len + 1),
                step >= 0,
                len >= 0,
        ;
        let x = advance(from.x, to.x as i128 - from.x as i128, step, len);
        let y = advance(from.y, to.y as i128 - from.y as i128, step, len);
        Point { x, y }
    }
}

} // verus!
