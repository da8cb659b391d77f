use vstd::prelude::*;
use crate::geometry::{Dir, Point, div_trunc, div_trunc_i128, wrap_position, wrapped, DIR_SCALE};

verus! {

/// Top speed of the player, in milli-units per second.
pub const MAX_SPEED: i64 = 500_000;

/// Below this speed, in milli-units per second, the player comes to rest.
pub const REST_SPEED: i64 = 200;

/// Speed that friction takes off in each step, in milli-units per second.
pub const FRICTION: i64 = 1_000;

/// Largest velocity component that a step accepts, in milli-units per second.
pub const VEL_LIMIT: i64 = 0x100_0000_0000;

/// Half a turn, in micro-radians.
pub const HALF_TURN: i64 = 3_141_593;

/// A full turn, in micro-radians.
pub const FULL_TURN: i64 = 6_283_185;

/// Facing straight up, in micro-radians.
pub const FACING_UP: i64 = 1_570_796;

/// The controls that steer the player during one step.
#[derive(Clone, Copy, Debug, PartialEq, Eq, Structural)]
pub struct Steering {
    pub forward: bool,
    pub back: bool,
    pub left: bool,
    pub right: bool,
}

/// The player: position, velocity and facing angle.
#[derive(Clone, Copy, Debug, PartialEq, Eq, Structural)]
pub struct Player {
    pub pos: Point,
    pub vel: Point,
    pub angle: i64,
}

/// `r` is the smallest natural number whose square reaches `n`.
pub open spec fn is_ceil_root(n: int, r: int) -> bool {
    r >= 0 && r * r >= n && (r == 0 || (r - 1) * (r - 1) < n)
}

/// The ceiling of the square root of `n`.
pub open spec fn ceil_root(n: int) -> int {
    choose|r: int| is_ceil_root(n, r)
}

proof fn lemma_ceil_root_unique(n: int, a: int, b: int)
    requires
        is_ceil_root(n, a),
        is_ceil_root(n, b),
    ensures
        a == b,
{
    if a < b {
        assert(a * a <= (b - 1) * (b - 1)) by (nonlinear_arith) requires 0 <= a <= b - 1;
    } else if b < a {
        assert(b * b <= (a - 1) * (a - 1)) by (nonlinear_arith) requires 0 <= b <= a - 1;
    }
}

/// The ceiling of the square root of `n`, by bisection.
pub fn ceil_sqrt(n: u128) -> (r: u128)
    requires
        n <= 0x1_0000_0000_0000_0000_0000_0000,
    ensures
        r == ceil_root(n as int),
        is_ceil_root(n as int, r as int),
        r <= 0x4_0000_0000_0000,
{
    let mut lo: u128 = 0;
    let mut hi: u128 = 0x4_0000_0000_0000;
    assert(hi * hi >= n);
    while lo < hi
        invariant
            lo <= hi <= 0x4_0000_0000_0000,
            hi * hi >= n,
            lo == 0 || (lo - 1) * (lo - 1) < n,
        decreases hi - lo,
    {
        let mid = lo + (hi - lo) / 2;
        assert(mid * mid <= 0x10_0000_0000_0000_0000_0000_0000) by (nonlinear_arith)
            requires mid <= 0x4_0000_0000_0000;
        if mid * mid < n {
            lo = mid + 1;
        } else {
            hi = mid;
        }
    }
    proof {
        assert(is_ceil_root(n as int, lo as int));
        lemma_ceil_root_unique(n as int, lo as int, ceil_root(n as int));
    }
    lo
}

/// Change of one velocity component under full thrust along heading component `c` for `dt`.
pub open spec fn thrust_delta(c: int, dt: int) -> int {
    div_trunc(c * dt, 2 * DIR_SCALE)
}

/// Velocity after thrust forward and back along heading `d` for `dt`.
pub open spec fn accelerated(v: Point, d: Dir, forward: bool, back: bool, dt: int) -> (int, int) {
    let fx = if forward { thrust_delta(d.c as int, dt) } else { 0 };
    let fy = if forward { thrust_delta(d.s as int, dt) } else { 0 };
    let bx = if back { thrust_delta(d.c as int, dt) } else { 0 };
    let by = if back { thrust_delta(d.s as int, dt) } else { 0 };
    (v.x + fx - bx, v.y + fy - by)
}

/// Velocity after the speed cap, the friction step, or the rest snap.
pub open spec fn damped(vx: int, vy: int) -> Point {
    let n = vx * vx + vy * vy;
    let m = ceil_root(n);
    if n > MAX_SPEED * MAX_SPEED {
        Point { x: div_trunc(vx * MAX_SPEED, m) as i64, y: div_trunc(vy * MAX_SPEED, m) as i64 }
    } else if n >= REST_SPEED * REST_SPEED {
        Point {
            x: div_trunc(vx * (m - FRICTION), m) as i64,
            y: div_trunc(vy * (m - FRICTION), m) as i64,
        }
    } else {
        Point { x: 0, y: 0 }
    }
}

/// Velocity after one step of thrust and damping.
pub open spec fn next_velocity(v: Point, d: Dir, s: Steering, dt: int) -> Point {
    let (vx, vy) = accelerated(v, d, s.forward, s.back, dt);
    damped(vx, vy)
}

/// Facing after one step of turning, brought back into `[-HALF_TURN, FULL_TURN - HALF_TURN)`.
pub open spec fn next_angle(a: int, s: Steering, dt: int) -> int {
    let l = if s.left { 2 * dt } else { 0 };
    let r = if s.right { 2 * dt } else { 0 };
    (a + HALF_TURN + 2000 * FULL_TURN + l - r) % (FULL_TURN as int) - HALF_TURN
}

/// Position after one step at velocity `v`, before wrap-around.
pub open spec fn drifted(p: Point, v: Point, dt: int) -> Point {
    Point {
        x: (p.x + div_trunc(v.x * dt, 1_000_000)) as i64,
        y: (p.y + div_trunc(v.y * dt, 1_000_000)) as i64,
    }
}

impl Player {
    pub open spec fn wf(self) -> bool {
        &&& self.pos.in_bounds()
        &&& -VEL_LIMIT <= self.vel.x <= VEL_LIMIT
        &&& -VEL_LIMIT <= self.vel.y <= VEL_LIMIT
        &&& -HALF_TURN <= self.angle < FULL_TURN - HALF_TURN
    }

    /// A player at rest at the origin, facing up.
    pub fn spawn() -> (p: Player)
        ensures
            p.wf(),
            p == Player::spawn_spec(),
    {
        Player { pos: Point { x: 0, y: 0 }, vel: Point { x: 0, y: 0 }, angle: FACING_UP }
    }
}

proof fn lemma_scaled(a: int, f: int, m: int, r: int)
    requires
        m > 0,
        r == div_trunc(a * f, m),
    ensures
        r * r * (m * m) <= a * a * (f * f),
{
    let p = a * f;
    if p >= 0 {
        assert(r * m <= p && r >= 0) by (nonlinear_arith) requires r == p / m, p >= 0, m > 0;
        assert(r * r * (m * m) <= p * p) by (nonlinear_arith) requires 0 <= r * m <= p, r >= 0, m > 0;
    } else {
        let t = (-p) / m;
        assert(t * m <= -p && t >= 0) by (nonlinear_arith) requires t == (-p) / m, -p >= 0, m > 0;
        assert(t * t * (m * m) <= p * p) by (nonlinear_arith) requires 0 <= t * m <= -p, t >= 0, m > 0;
        assert(r * r == t * t) by (nonlinear_arith) requires r == -t;
    }
    assert(p * p == a * a * (f * f)) by (nonlinear_arith) requires p == a * f;
}

proof fn lemma_pair_scaled(vx: int, vy: int, f: int, m: int, x: int, y: int)
    requires
        m > 0,
        m * m >= vx * vx + vy * vy,
        x == div_trunc(vx * f, m),
        y == div_trunc(vy * f, m),
    ensures
        x * x + y * y <= f * f,
{
    lemma_scaled(vx, f, m, x);
    lemma_scaled(vy, f, m, y);
    assert((x * x + y * y) * (m * m) <= (vx * vx + vy * vy) * (f * f)) by (nonlinear_arith)
        requires
            x * x * (m * m) <= vx * vx * (f * f),
            y * y * (m * m) <= vy * vy * (f * f);
    assert((vx * vx + vy * vy) * (f * f) <= (m * m) * (f * f)) by (nonlinear_arith)
        requires m * m >= vx * vx + vy * vy;
    assert(x * x + y * y <= f * f) by (nonlinear_arith)
        requires (x * x + y * y) * (m * m) <= (m * m) * (f * f), m > 0;
}

fn thrust(c: i64, dt: u32) -> (r: i64)
    requires
        -DIR_SCALE <= c <= DIR_SCALE,
    ensures
        r == thrust_delta(c as int, dt as int),
        -0x8000_0000 <= r <= 0x8000_0000,
{
    assert(-DIR_SCALE * u32::MAX <= c * dt <= DIR_SCALE * u32::MAX) by (nonlinear_arith)
        requires -DIR_SCALE <= c <= DIR_SCALE, 0 <= dt <= u32::MAX;
    let m = (c as i128) * (dt as i128);
    let q: i128 = 2 * DIR_SCALE as i128;
    assert(DIR_SCALE * u32::MAX <= 0x8000_0000 * q);
    if m >= 0 {
        assert(0 <= (m as int) / (q as int) <= 0x8000_0000) by (nonlinear_arith)
            requires 0 <= m <= 0x8000_0000 * q, q > 0;
    } else {
        assert(0 <= (-m as int) / (q as int) <= 0x8000_0000) by (nonlinear_arith)
            requires 0 <= -m <= 0x8000_0000 * q, q > 0;
    }
    div_trunc_i128(m, q) as i64
}

/// The velocity after one step: thrust along heading `d`, then the speed cap,
/// friction, or the rest snap. The result never exceeds `MAX_SPEED`.
pub fn integrate_velocity(v: Point, d: Dir, s: Steering, dt: u32) -> (r: Point)
    requires
        -VEL_LIMIT <= v.x <= VEL_LIMIT,
        -VEL_LIMIT <= v.y <= VEL_LIMIT,
        d.wf(),
    ensures
        r == next_velocity(v, d, s, dt as int),
        r.x * r.x + r.y * r.y <= MAX_SPEED * MAX_SPEED,
        -MAX_SPEED <= r.x <= MAX_SPEED,
        -MAX_SPEED <= r.y <= MAX_SPEED,
{
    proof {
        crate::geometry::lemma_dir_bounds(d);
    }
    let tx = thrust(d.c, dt);
    let ty = thrust(d.s, dt);
    let mut vx: i128 = v.x as i128;
    let mut vy: i128 = v.y as i128;
    if s.forward {
        vx = vx + tx as i128;
        vy = vy + ty as i128;
    }
    if s.back {
        vx = vx - tx as i128;
        vy = vy - ty as i128;
    }
    let ghost (ax, ay) = accelerated(v, d, s.forward, s.back, dt as int);
    assert(vx == ax && vy == ay);
    assert(-0x200_0000_0000 <= vx <= 0x200_0000_0000 && -0x200_0000_0000 <= vy <= 0x200_0000_0000);
    assert(0 <= vx * vx <= 0x4_0000_0000_0000_0000_0000 && 0 <= vy * vy <= 0x4_0000_0000_0000_0000_0000)
        by (nonlinear_arith)
        requires
            -0x200_0000_0000 <= vx <= 0x200_0000_0000,
            -0x200_0000_0000 <= vy <= 0x200_0000_0000;
    let n = vx * vx + vy * vy;
    assert(n >= 0) by (nonlinear_arith) requires n == vx * vx + vy * vy;
    let cap: i128 = MAX_SPEED as i128;
    let rest: i128 = REST_SPEED as i128;
    if n > cap * cap {
        let r = ceil_sqrt(n as u128);
        let m = r as i128;
        assert(m > 0) by (nonlinear_arith) requires m * m >= n, n > 0, m >= 0;
        assert(m <= 0x4_0000_0000_0000);
        assert(-0x200_0000_0000 * MAX_SPEED <= vx * cap <= 0x200_0000_0000 * MAX_SPEED) by (nonlinear_arith)
            requires -0x200_0000_0000 <= vx <= 0x200_0000_0000, cap == MAX_SPEED;
        assert(-0x200_0000_0000 * MAX_SPEED <= vy * cap <= 0x200_0000_0000 * MAX_SPEED) by (nonlinear_arith)
            requires -0x200_0000_0000 <= vy <= 0x200_0000_0000, cap == MAX_SPEED;
        let x = div_trunc_i128(vx * cap, m);
        let y = div_trunc_i128(vy * cap, m);
        proof {
            lemma_pair_scaled(vx as int, vy as int, MAX_SPEED as int, m as int, x as int, y as int);
            lemma_component_bound(x as int, y as int, MAX_SPEED as int);
        }
        Point { x: x as i64, y: y as i64 }
    } else if n >= rest * rest {
        let r = ceil_sqrt(n as u128);
        let m = r as i128;
        assert(m > 0) by (nonlinear_arith) requires m * m >= n, n > 0, m >= 0;
        proof {
            if m > MAX_SPEED {
                assert((m - 1) * (m - 1) >= MAX_SPEED * MAX_SPEED) by (nonlinear_arith)
                    requires m - 1 >= MAX_SPEED;
            }
        }
        proof {
            if m < REST_SPEED {
                assert(m * m < REST_SPEED * REST_SPEED) by (nonlinear_arith)
                    requires 0 <= m < REST_SPEED;
            }
        }
        let f = m - FRICTION as i128;
        assert(-FRICTION <= f <= MAX_SPEED);
        assert(-0x200_0000_0000 * MAX_SPEED <= vx * f <= 0x200_0000_0000 * MAX_SPEED) by (nonlinear_arith)
            requires -0x200_0000_0000 <= vx <= 0x200_0000_0000, -FRICTION <= f <= MAX_SPEED;
        assert(-0x200_0000_0000 * MAX_SPEED <= vy * f <= 0x200_0000_0000 * MAX_SPEED) by (nonlinear_arith)
            requires -0x200_0000_0000 <= vy <= 0x200_0000_0000, -FRICTION <= f <= MAX_SPEED;
        let x = div_trunc_i128(vx * f, m);
        let y = div_trunc_i128(vy * f, m);
        proof {
            lemma_pair_scaled(vx as int, vy as int, f as int, m as int, x as int, y as int);
            assert(f * f <= MAX_SPEED * MAX_SPEED) by (nonlinear_arith)
                requires -FRICTION <= f <= MAX_SPEED;
            lemma_component_bound(x as int, y as int, MAX_SPEED as int);
        }
        Point { x: x as i64, y: y as i64 }
    } else {
        Point { x: 0, y: 0 }
    }
}

fn drift_coord(p: i64, v: i64, dt: u32) -> (r: i64)
    requires
        -0x10_0000 <= p <= 0x10_0000,
        -MAX_SPEED <= v <= MAX_SPEED,
    ensures
        r == p + div_trunc(v * dt, 1_000_000),
{
    assert(-MAX_SPEED * u32::MAX <= v * dt <= MAX_SPEED * u32::MAX) by (nonlinear_arith)
        requires -MAX_SPEED <= v <= MAX_SPEED, 0 <= dt <= u32::MAX;
    let m = (v as i128) * (dt as i128);
    let d = div_trunc_i128(m, 1_000_000);
    if m >= 0 {
        assert(0 <= (m as int) / 1_000_000 <= m) by (nonlinear_arith) requires m >= 0;
    } else {
        assert(0 <= (-m as int) / 1_000_000 <= -m) by (nonlinear_arith) requires m < 0;
    }
    p + d as i64
}

/// Facing after one step of turning.
pub fn turn(a: i64, s: Steering, dt: u32) -> (r: i64)
    requires
        -HALF_TURN <= a < FULL_TURN - HALF_TURN,
    ensures
        r == next_angle(a as int, s, dt as int),
        -HALF_TURN <= r < FULL_TURN - HALF_TURN,
{
    let mut t: i64 = a + HALF_TURN + 2000 * FULL_TURN;
    if s.left {
        t = t + 2 * dt as i64;
    }
    if s.right {
        t = t - 2 * dt as i64;
    }
    t % FULL_TURN - HALF_TURN
}

/// The player after one step along `heading` under steering `s`.
pub open spec fn stepped(p: Player, heading: Dir, s: Steering, dt: int) -> Player {
    let v = next_velocity(p.vel, heading, s, dt);
    Player { pos: wrapped(drifted(p.pos, v, dt)), vel: v, angle: next_angle(p.angle as int, s, dt) as i64 }
}

impl Player {
    /// One step of the player: thrust along `heading` (the direction of the
    /// current facing), damping, turning, then a move at the new velocity with
    /// wrap-around.
    pub fn step(&mut self, heading: Dir, s: Steering, dt: u32)
        requires
            old(self).wf(),
            heading.wf(),
        ensures
            final(self).wf(),
            *final(self) == stepped(*old(self), heading, s, dt as int),
            final(self).vel == next_velocity(old(self).vel, heading, s, dt as int),
            final(self).angle == next_angle(old(self).angle as int, s, dt as int),
            final(self).pos == wrapped(drifted(old(self).pos, final(self).vel, dt as int)),
            final(self).vel.x * final(self).vel.x + final(self).vel.y * final(self).vel.y
                <= MAX_SPEED * MAX_SPEED,
    {
        let v = integrate_velocity(self.vel, heading, s, dt);
        self.vel = v;
        self.angle = turn(self.angle, s, dt);
        self.pos.x = drift_coord(self.pos.x, v.x, dt);
        self.pos.y = drift_coord(self.pos.y, v.y, dt);
        wrap_position(&mut self.pos);
    }

    /// Puts the player back at rest at the origin, facing up.
    pub fn respawn(&mut self)
        ensures
            *final(self) == Player::spawn_spec(),
            final(self).wf(),
    {
        *self = Player::spawn();
    }

    pub open spec fn spawn_spec() -> Player {
        Player { pos: Point { x: 0, y: 0 }, vel: Point { x: 0, y: 0 }, angle: FACING_UP }
    }
}

proof fn lemma_component_bound(x: int, y: int, b: int)
    requires
        b >= 0,
        x * x + y * y <= b * b,
    ensures
        -b <= x <= b,
        -b <= y <= b,
{
    assert(x * x >= 0 && y * y >= 0) by (nonlinear_arith);
    if x > b {
        assert(x * x > b * b) by (nonlinear_arith) requires x > b, b >= 0;
    }
    if x < -b {
        assert(x * x > b * b) by (nonlinear_arith) requires x < -b, b >= 0;
    }
    if y > b {
        assert(y * y > b * b) by (nonlinear_arith) requires y > b, b >= 0;
    }
    if y < -b {
        assert(y * y > b * b) by (nonlinear_arith) requires y < -b, b >= 0;
    }
}

} // verus!
