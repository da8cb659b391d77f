use vstd::prelude::*;

verus! {

/// Half-width of the playfield, in milli-units.
pub const HALF_WIDTH: i64 = 640_000;

/// Half-height of the playfield, in milli-units.
pub const HALF_HEIGHT: i64 = 360_000;

/// Scale of a heading component: one million stands for 1.0.
pub const DIR_SCALE: i64 = 1_000_000;

/// Largest coordinate magnitude an entity may hold before a move.
pub const COORD_LIMIT: i64 = 0x10_0000_0000_0000;

/// A point or a vector in the plane, in milli-units.
#[derive(Clone, Copy, Debug, PartialEq, Eq, Structural)]
pub struct Point {
    pub x: i64,
    pub y: i64,
}

/// A heading: cosine and sine of an angle, scaled by `DIR_SCALE`.
#[derive(Clone, Copy, Debug, PartialEq, Eq, Structural)]
pub struct Dir {
    pub c: i64,
    pub s: i64,
}

impl Dir {
    /// The heading has at most unit length.
    pub open spec fn wf(self) -> bool {
        self.c * self.c + self.s * self.s <= DIR_SCALE * DIR_SCALE
    }
}

impl Point {
    pub open spec fn in_limit(self) -> bool {
        -COORD_LIMIT <= self.x <= COORD_LIMIT && -COORD_LIMIT <= self.y <= COORD_LIMIT
    }

    pub open spec fn in_bounds(self) -> bool {
        -HALF_WIDTH <= self.x <= HALF_WIDTH && -HALF_HEIGHT <= self.y <= HALF_HEIGHT
    }
}

/// Division that rounds toward zero, as integer division does on machine integers.
pub open spec fn div_trunc(a: int, b: int) -> int {
    if a >= 0 {
        a / b
    } else {
        -((-a) / b)
    }
}

/// One coordinate after wrap-around at `-h` and `h`.
pub open spec fn wrap_spec(v: int, h: int) -> int {
    if v < -h {
        h
    } else if v > h {
        -h
    } else {
        v
    }
}

pub open spec fn wrapped(p: Point) -> Point {
    Point { x: wrap_spec(p.x as int, HALF_WIDTH as int) as i64, y: wrap_spec(p.y as int, HALF_HEIGHT as int) as i64 }
}

pub fn div_trunc_i128(a: i128, b: i128) -> (r: i128)
    requires
        b > 0,
        a > i128::MIN,
    ensures
        r == div_trunc(a as int, b as int),
{
    if a >= 0 {
        a / b
    } else {
        -((-a) / b)
    }
}

/// Wraps one coordinate to the opposite edge when it lies beyond `h` or `-h`.
pub fn wrap_coord(v: i64, h: i64) -> (r: i64)
    requires
        h >= 0,
    ensures
        r == wrap_spec(v as int, h as int),
        -h <= r <= h,
{
    if v < -h {
        h
    } else if v > h {
        -h
    } else {
        v
    }
}

/// Wraps a position to the other side of the playfield where it lies over an edge.
pub fn wrap_position(p: &mut Point)
    ensures
        *final(p) == wrapped(*old(p)),
        final(p).in_bounds(),
{
    p.x = wrap_coord(p.x, HALF_WIDTH);
    p.y = wrap_coord(p.y, HALF_HEIGHT);
}

/// Displacement of one coordinate for a heading component `c`, a speed in
/// milli-units per second and `dt` microseconds.
pub open spec fn step_delta(c: int, speed: int, dt: int) -> int {
    div_trunc(c * speed * dt, DIR_SCALE * 1_000_000)
}

/// Where a point moving straight along `d` at `speed` lands after `dt`, before wrap-around.
pub open spec fn advanced(p: Point, d: Dir, speed: int, dt: int) -> Point {
    Point {
        x: (p.x + step_delta(d.c as int, speed, dt)) as i64,
        y: (p.y + step_delta(d.s as int, speed, dt)) as i64,
    }
}

/// Largest speed, in milli-units per second, of anything that moves in a straight line.
pub const SPEED_LIMIT: i64 = 0x80_0000_0000;

pub proof fn lemma_dir_bounds(d: Dir)
    requires
        d.wf(),
    ensures
        -DIR_SCALE <= d.c <= DIR_SCALE,
        -DIR_SCALE <= d.s <= DIR_SCALE,
{
    assert(d.c * d.c >= 0 && d.s * d.s >= 0) by (nonlinear_arith);
    if d.c > DIR_SCALE {
        assert(d.c * d.c > DIR_SCALE * DIR_SCALE) by (nonlinear_arith)
            requires d.c > DIR_SCALE;
    }
    if d.c < -DIR_SCALE {
        assert(d.c * d.c > DIR_SCALE * DIR_SCALE) by (nonlinear_arith)
            requires d.c < -DIR_SCALE;
    }
    if d.s > DIR_SCALE {
        assert(d.s * d.s > DIR_SCALE * DIR_SCALE) by (nonlinear_arith)
            requires d.s > DIR_SCALE;
    }
    if d.s < -DIR_SCALE {
        assert(d.s * d.s > DIR_SCALE * DIR_SCALE) by (nonlinear_arith)
            requires d.s < -DIR_SCALE;
    }
}

proof fn lemma_step_delta_bound(c: int, speed: int, dt: int)
    requires
        -DIR_SCALE <= c <= DIR_SCALE,
        0 <= speed <= SPEED_LIMIT,
        0 <= dt <= u32::MAX,
    ensures
        -COORD_LIMIT <= step_delta(c, speed, dt) <= COORD_LIMIT,
        -0x1_0000_0000_0000_0000_0000_0000 <= c * speed * dt <= 0x1_0000_0000_0000_0000_0000_0000,
        -DIR_SCALE * SPEED_LIMIT <= c * speed <= DIR_SCALE * SPEED_LIMIT,
{
    assert(-DIR_SCALE * SPEED_LIMIT <= c * speed <= DIR_SCALE * SPEED_LIMIT) by (nonlinear_arith)
        requires
            -DIR_SCALE <= c <= DIR_SCALE,
            0 <= speed <= SPEED_LIMIT;
    let m = c * speed * dt;
    assert(-DIR_SCALE * SPEED_LIMIT * u32::MAX <= m <= DIR_SCALE * SPEED_LIMIT * u32::MAX)
        by (nonlinear_arith)
        requires
            -DIR_SCALE <= c <= DIR_SCALE,
            0 <= speed <= SPEED_LIMIT,
            0 <= dt <= u32::MAX,
            m == c * speed * dt;
    let q = DIR_SCALE * 1_000_000;
    assert(DIR_SCALE * SPEED_LIMIT * u32::MAX <= COORD_LIMIT * q);
    if m >= 0 {
        assert(0 <= m / q <= COORD_LIMIT) by (nonlinear_arith)
            requires 0 <= m <= COORD_LIMIT * q, q > 0;
    } else {
        assert(0 <= (-m) / q <= COORD_LIMIT) by (nonlinear_arith)
            requires 0 <= -m <= COORD_LIMIT * q, q > 0;
    }
}

fn step_coord(v: i64, c: i64, speed: i64, dt: u32) -> (r: i64)
    requires
        -COORD_LIMIT <= v <= COORD_LIMIT,
        -DIR_SCALE <= c <= DIR_SCALE,
        0 <= speed <= SPEED_LIMIT,
    ensures
        r == v + step_delta(c as int, speed as int, dt as int),
{
    proof {
        lemma_step_delta_bound(c as int, speed as int, dt as int);
    }
    let m = (c as i128) * (speed as i128) * (dt as i128);
    let d = div_trunc_i128(m, (DIR_SCALE as i128) * 1_000_000);
    v + d as i64
}

/// Moves a point straight along heading `d` at `speed` for `dt` microseconds,
/// then wraps it around the playfield.
pub fn move_along(p: &mut Point, d: Dir, speed: i64, dt: u32)
    requires
        old(p).in_limit(),
        d.wf(),
        0 <= speed <= SPEED_LIMIT,
    ensures
        *final(p) == wrapped(advanced(*old(p), d, speed as int, dt as int)),
        final(p).in_bounds(),
{
    proof {
        lemma_dir_bounds(d);
    }
    p.x = step_coord(p.x, d.c, speed, dt);
    p.y = step_coord(p.y, d.s, speed, dt);
    wrap_position(p);
}

/// The cosine of 45 degrees, scaled by `DIR_SCALE` and rounded down far enough
/// that turning a heading never lengthens it.
pub const COS_45: i64 = 707_106;

/// A heading turned by 45 degrees: counter-clockwise when `ccw`, else clockwise.
pub open spec fn turned_45(d: Dir, ccw: bool) -> Dir {
    if ccw {
        Dir {
            c: div_trunc((d.c - d.s) * COS_45, DIR_SCALE as int) as i64,
            s: div_trunc((d.s + d.c) * COS_45, DIR_SCALE as int) as i64,
        }
    } else {
        Dir {
            c: div_trunc((d.c + d.s) * COS_45, DIR_SCALE as int) as i64,
            s: div_trunc((d.s - d.c) * COS_45, DIR_SCALE as int) as i64,
        }
    }
}

proof fn lemma_scaled_sq(a: int, r: int)
    requires
        -2 * DIR_SCALE <= a <= 2 * DIR_SCALE,
        r == div_trunc(a * COS_45, DIR_SCALE as int),
    ensures
        r * r * (DIR_SCALE * DIR_SCALE) <= a * a * (COS_45 * COS_45),
{
    let q = DIR_SCALE as int;
    let k = COS_45 as int;
    if a >= 0 {
        let m = a * k;
        assert(m >= 0) by (nonlinear_arith) requires a >= 0, k >= 0, m == a * k;
        assert(r * q <= m && r >= 0) by (nonlinear_arith) requires r == m / q, m >= 0, q > 0;
        assert(r * r * (q * q) <= m * m) by (nonlinear_arith) requires 0 <= r * q <= m, r >= 0, q > 0;
        assert(m * m == a * a * (k * k)) by (nonlinear_arith) requires m == a * k;
    } else {
        let m = (-a) * k;
        assert(m >= 0) by (nonlinear_arith) requires -a >= 0, k >= 0, m == (-a) * k;
        assert(a * k == -m) by (nonlinear_arith) requires m == (-a) * k;
        let t = m / q;
        assert(t * q <= m && t >= 0) by (nonlinear_arith) requires t == m / q, m >= 0, q > 0;
        assert(r == -t);
        assert(t * t * (q * q) <= m * m) by (nonlinear_arith) requires 0 <= t * q <= m, t >= 0, q > 0;
        assert(m * m == a * a * (k * k)) by (nonlinear_arith) requires m == (-a) * k;
        assert(r * r == t * t) by (nonlinear_arith) requires r == -t;
    }
}

pub proof fn lemma_turned_45_wf(d: Dir, ccw: bool)
    requires
        d.wf(),
    ensures
        turned_45(d, ccw).wf(),
{
    lemma_dir_bounds(d);
    let e = turned_45(d, ccw);
    let (a, b) = if ccw { (d.c - d.s, d.s + d.c) } else { (d.c + d.s, d.s - d.c) };
    lemma_scaled_sq(a as int, e.c as int);
    lemma_scaled_sq(b as int, e.s as int);
    let q = DIR_SCALE as int;
    let k = COS_45 as int;
    let c = d.c as int;
    let s = d.s as int;
    assert(a * a + b * b == 2 * (c * c + s * s)) by (nonlinear_arith)
        requires (a == c - s && b == s + c) || (a == c + s && b == s - c);
    let x = e.c as int;
    let y = e.s as int;
    assert((x * x + y * y) * (q * q) <= (a * a + b * b) * (k * k)) by (nonlinear_arith)
        requires
            x * x * (q * q) <= a * a * (k * k),
            y * y * (q * q) <= b * b * (k * k);
    assert((a * a + b * b) * (k * k) <= (q * q) * (q * q)) by (nonlinear_arith)
        requires
            a * a + b * b == 2 * (c * c + s * s),
            c * c + s * s <= q * q,
            q == DIR_SCALE,
            k == COS_45;
    assert(x * x + y * y <= q * q) by (nonlinear_arith)
        requires
            (x * x + y * y) * (q * q) <= (q * q) * (q * q),
            q > 0;
}

fn turn_coord(a: i64) -> (r: i64)
    requires
        -2 * DIR_SCALE <= a <= 2 * DIR_SCALE,
    ensures
        r == div_trunc(a * COS_45, DIR_SCALE as int),
{
    let m = (a as i128) * (COS_45 as i128);
    div_trunc_i128(m, DIR_SCALE as i128) as i64
}

/// Turns a heading by 45 degrees, counter-clockwise when `ccw`.
pub fn turn_45(d: Dir, ccw: bool) -> (r: Dir)
    requires
        d.wf(),
    ensures
        r == turned_45(d, ccw),
        r.wf(),
{
    proof {
        lemma_dir_bounds(d);
        lemma_turned_45_wf(d, ccw);
    }
    if ccw {
        Dir { c: turn_coord(d.c - d.s), s: turn_coord(d.s + d.c) }
    } else {
        Dir { c: turn_coord(d.c + d.s), s: turn_coord(d.s - d.c) }
    }
}

/// Two axis-aligned boxes with the given centres and half-extents overlap with
/// a positive area.
pub open spec fn boxes_overlap(a: Point, ha: int, b: Point, hb: int) -> bool {
    a.x - ha < b.x + hb && a.x + ha > b.x - hb && a.y - ha < b.y + hb && a.y + ha > b.y - hb
}

/// Tests whether two axis-aligned boxes overlap.
pub fn overlaps(a: Point, ha: i64, b: Point, hb: i64) -> (r: bool)
    requires
        a.in_limit(),
        b.in_limit(),
        0 <= ha <= COORD_LIMIT,
        0 <= hb <= COORD_LIMIT,
    ensures
        r == boxes_overlap(a, ha as int, b, hb as int),
{
    a.x - ha < b.x + hb && a.x + ha > b.x - hb && a.y - ha < b.y + hb && a.y + ha > b.y - hb
}

/// Wrap-around sends a coordinate past an edge to the opposite edge, on each
/// axis independently, and leaves a position inside the playfield where it is.
pub proof fn wrap_edges(p: Point)
    ensures
        p.x > HALF_WIDTH ==> wrapped(p).x == -HALF_WIDTH,
        p.x < -HALF_WIDTH ==> wrapped(p).x == HALF_WIDTH,
        p.y > HALF_HEIGHT ==> wrapped(p).y == -HALF_HEIGHT,
        p.y < -HALF_HEIGHT ==> wrapped(p).y == HALF_HEIGHT,
        -HALF_WIDTH <= p.x <= HALF_WIDTH ==> wrapped(p).x == p.x,
        -HALF_HEIGHT <= p.y <= HALF_HEIGHT ==> wrapped(p).y == p.y,
        p.in_bounds() ==> wrapped(p) == p,
        wrapped(p).in_bounds(),
{
}

/// Wrapping twice is wrapping once, and on a position inside the playfield
/// both are no-ops.
pub proof fn wrap_idempotent(p: Point)
    ensures
        wrapped(wrapped(p)) == wrapped(p),
        p.in_bounds() ==> wrapped(wrapped(p)) == p,
{
}

} // verus!
