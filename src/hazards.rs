use vstd::prelude::*;
use crate::geometry::{
    Dir, Point, advanced, boxes_overlap, move_along, overlaps, turn_45, turned_45, wrapped,
    SPEED_LIMIT,
};
use crate::player::{FULL_TURN, HALF_TURN};

verus! {

/// An eighth of a turn, in micro-radians.
pub const EIGHTH_TURN: i64 = 785_398;

/// Half-extent of a hazard of size one, in milli-units; it grows with the size.
pub const HAZARD_UNIT_EXTENT: i64 = 16_000;

/// Half-extent of a projectile, in milli-units.
pub const PROJECTILE_EXTENT: i64 = 6_000;

/// Half-extent of the player, in milli-units.
pub const PLAYER_EXTENT: i64 = 500;

/// Points for splitting a hazard.
pub const SPLIT_POINTS: i64 = 100;

/// The kind of a collidable entity.
#[derive(Clone, Copy, Debug, PartialEq, Eq, Structural)]
pub enum Collider {
    Hazard,
    Projectile,
    Player,
}

/// A hazard: it drifts along its heading at a fixed speed and splits when shot.
#[derive(Clone, Copy, Debug, PartialEq, Eq, Structural)]
pub struct Asteroid {
    pub pos: Point,
    pub angle: i64,
    pub heading: Dir,
    pub speed: i64,
    pub size: i64,
}

/// A projectile: it flies along its heading at a fixed speed.
#[derive(Clone, Copy, Debug, PartialEq, Eq, Structural)]
pub struct Bullet {
    pub pos: Point,
    pub angle: i64,
    pub heading: Dir,
    pub speed: i64,
}

/// Fastest a hazard of the given size may be; halving the size doubles it.
pub open spec fn speed_cap(size: int) -> int {
    if size >= 3 {
        SPEED_LIMIT / 4
    } else if size == 2 {
        SPEED_LIMIT / 2
    } else {
        SPEED_LIMIT as int
    }
}

/// An angle moved by `d` and brought back into `[-HALF_TURN, FULL_TURN - HALF_TURN)`.
pub open spec fn offset_angle(a: int, d: int) -> int {
    (a + HALF_TURN + 2000 * FULL_TURN + d) % (FULL_TURN as int) - HALF_TURN
}

pub open spec fn angle_ok(a: int) -> bool {
    -HALF_TURN <= a < FULL_TURN - HALF_TURN
}

/// Half-extent of a hazard's box.
pub open spec fn hazard_extent(size: int) -> int {
    HAZARD_UNIT_EXTENT * size
}

/// One of the two pieces of a hazard that was shot: turned by 45 degrees
/// (counter-clockwise when `ccw`), twice as fast, one size smaller.
pub open spec fn piece(a: Asteroid, ccw: bool) -> Asteroid {
    Asteroid {
        pos: a.pos,
        angle: offset_angle(a.angle as int, if ccw { EIGHTH_TURN as int } else { -EIGHTH_TURN }) as i64,
        heading: turned_45(a.heading, ccw),
        speed: (2 * a.speed) as i64,
        size: (a.size - 1) as i64,
    }
}

/// Half-extent of the box of a collidable entity; `size` counts for hazards only.
pub open spec fn collider_extent(kind: Collider, size: int) -> int {
    match kind {
        Collider::Hazard => hazard_extent(size),
        Collider::Projectile => PROJECTILE_EXTENT as int,
        Collider::Player => PLAYER_EXTENT as int,
    }
}

/// Half-extent of the box of a collidable entity.
pub fn extent_of(kind: Collider, size: i64) -> (r: i64)
    requires
        kind == Collider::Hazard ==> 1 <= size <= 3,
    ensures
        r == collider_extent(kind, size as int),
        0 <= r <= 3 * HAZARD_UNIT_EXTENT,
{
    match kind {
        Collider::Hazard => HAZARD_UNIT_EXTENT * size,
        Collider::Projectile => PROJECTILE_EXTENT,
        Collider::Player => PLAYER_EXTENT,
    }
}

pub open spec fn hazard_hits(a: Asteroid, b: Bullet) -> bool {
    boxes_overlap(a.pos, hazard_extent(a.size as int), b.pos, collider_extent(Collider::Projectile, 0))
}

pub open spec fn hazard_touches(a: Asteroid, p: Point) -> bool {
    boxes_overlap(a.pos, hazard_extent(a.size as int), p, collider_extent(Collider::Player, 0))
}

impl Asteroid {
    pub open spec fn wf(self) -> bool {
        &&& 1 <= self.size <= 3
        &&& 0 <= self.speed <= speed_cap(self.size as int)
        &&& self.heading.wf()
        &&& self.pos.in_limit()
        &&& angle_ok(self.angle as int)
    }

    /// Moves the hazard one step along its heading, with wrap-around.
    pub fn step(&mut self, dt: u32)
        requires
            old(self).wf(),
        ensures
            final(self).wf(),
            *final(self) == (Asteroid {
                pos: wrapped(advanced(old(self).pos, old(self).heading, old(self).speed as int, dt as int)),
                ..*old(self)
            }),
    {
        move_along(&mut self.pos, self.heading, self.speed, dt);
    }

    /// Half-extent of this hazard's box.
    pub fn extent(&self) -> (r: i64)
        requires
            self.wf(),
        ensures
            r == hazard_extent(self.size as int),
    {
        extent_of(Collider::Hazard, self.size)
    }

    /// One of the two pieces this hazard splits into.
    pub fn split_piece(&self, ccw: bool) -> (r: Asteroid)
        requires
            self.wf(),
            self.size > 1,
        ensures
            r == piece(*self, ccw),
            r.wf(),
    {
        let d: i64 = if ccw { EIGHTH_TURN } else { -EIGHTH_TURN };
        let angle = (self.angle + HALF_TURN + 2000 * FULL_TURN + d) % FULL_TURN - HALF_TURN;
        proof {
            crate::geometry::lemma_turned_45_wf(self.heading, ccw);
        }
        Asteroid {
            pos: self.pos,
            angle,
            heading: turn_45(self.heading, ccw),
            speed: 2 * self.speed,
            size: self.size - 1,
        }
    }
}

impl Bullet {
    pub open spec fn wf(self) -> bool {
        &&& 0 <= self.speed <= SPEED_LIMIT
        &&& self.heading.wf()
        &&& self.pos.in_limit()
        &&& angle_ok(self.angle as int)
    }

    /// Moves the projectile one step along its heading, with wrap-around.
    pub fn step(&mut self, dt: u32)
        requires
            old(self).wf(),
        ensures
            final(self).wf(),
            *final(self) == (Bullet {
                pos: wrapped(advanced(old(self).pos, old(self).heading, old(self).speed as int, dt as int)),
                ..*old(self)
            }),
    {
        move_along(&mut self.pos, self.heading, self.speed, dt);
    }
}

pub open spec fn hazards_wf(s: Seq<Asteroid>) -> bool {
    forall|i: int| 0 <= i < s.len() ==> s[i].wf()
}

pub open spec fn bullets_wf(s: Seq<Bullet>) -> bool {
    forall|i: int| 0 <= i < s.len() ==> s[i].wf()
}

/// How many of the projectiles `bs` overlap hazard `a`.
pub open spec fn hits(a: Asteroid, bs: Seq<Bullet>) -> int
    decreases bs.len(),
{
    if bs.len() == 0 {
        0
    } else {
        hits(a, bs.drop_last()) + if hazard_hits(a, bs.last()) { 1int } else { 0 }
    }
}

/// How many of the hazards `s` overlap projectile `b`.
pub open spec fn strikes(s: Seq<Asteroid>, b: Bullet) -> int
    decreases s.len(),
{
    if s.len() == 0 {
        0
    } else {
        strikes(s.drop_last(), b) + if hazard_hits(s.last(), b) { 1int } else { 0 }
    }
}

/// How many of the hazards `s` touch the player at `p`.
pub open spec fn contacts(s: Seq<Asteroid>, p: Point) -> int
    decreases s.len(),
{
    if s.len() == 0 {
        0
    } else {
        contacts(s.drop_last(), p) + if hazard_touches(s.last(), p) { 1int } else { 0 }
    }
}

/// The pieces that hazard `a` leaves: two for each projectile that hits it,
/// none when it is of the smallest size.
pub open spec fn pieces_from(a: Asteroid, bs: Seq<Bullet>) -> Seq<Asteroid>
    decreases bs.len(),
{
    if bs.len() == 0 {
        seq![]
    } else if hazard_hits(a, bs.last()) && a.size > 1 {
        pieces_from(a, bs.drop_last()) + seq![piece(a, true), piece(a, false)]
    } else {
        pieces_from(a, bs.drop_last())
    }
}

/// What stands of hazard `a` after the projectiles `bs`: itself when none hits
/// it, else its pieces.
pub open spec fn outcome(a: Asteroid, bs: Seq<Bullet>) -> Seq<Asteroid> {
    if hits(a, bs) == 0 {
        seq![a]
    } else {
        pieces_from(a, bs)
    }
}

/// The hazards after the projectiles `bs` have been resolved against `s`.
pub open spec fn hazards_after(s: Seq<Asteroid>, bs: Seq<Bullet>) -> Seq<Asteroid>
    decreases s.len(),
{
    if s.len() == 0 {
        seq![]
    } else {
        hazards_after(s.drop_last(), bs) + outcome(s.last(), bs)
    }
}

/// The projectiles that hit no hazard of `s`.
pub open spec fn bullets_after(s: Seq<Asteroid>, bs: Seq<Bullet>) -> Seq<Bullet>
    decreases bs.len(),
{
    if bs.len() == 0 {
        seq![]
    } else if strikes(s, bs.last()) == 0 {
        bullets_after(s, bs.drop_last()) + seq![bs.last()]
    } else {
        bullets_after(s, bs.drop_last())
    }
}

/// Points earned by a hazard: a split's worth for each projectile that hits it,
/// unless it is of the smallest size.
pub open spec fn points_for(a: Asteroid, bs: Seq<Bullet>) -> int {
    if a.size > 1 {
        SPLIT_POINTS * hits(a, bs)
    } else {
        0
    }
}

/// Points earned over all hazards of `s`.
pub open spec fn points_gained(s: Seq<Asteroid>, bs: Seq<Bullet>) -> int
    decreases s.len(),
{
    if s.len() == 0 {
        0
    } else {
        points_gained(s.drop_last(), bs) + points_for(s.last(), bs)
    }
}

/// `v` held down to `i64::MAX`.
pub open spec fn capped(v: int) -> int {
    if v > i64::MAX {
        i64::MAX as int
    } else {
        v
    }
}

/// The result of resolving hazards against projectiles and the player.
#[derive(Debug)]
pub struct Resolution {
    pub hazards: Vec<Asteroid>,
    pub bullets: Vec<Bullet>,
    pub points: i64,
    pub contacts: usize,
}

proof fn lemma_prefix_step<T>(s: Seq<T>, j: int)
    requires
        0 <= j < s.len(),
    ensures
        s.subrange(0, j + 1).drop_last() == s.subrange(0, j),
        s.subrange(0, j + 1).last() == s[j],
{
    assert(s.subrange(0, j + 1).drop_last() =~= s.subrange(0, j));
}

proof fn lemma_hits_nonneg(a: Asteroid, bs: Seq<Bullet>)
    ensures
        0 <= hits(a, bs) <= bs.len(),
        hits(a, bs) == 0 ==> pieces_from(a, bs) == Seq::<Asteroid>::empty(),
    decreases bs.len(),
{
    if bs.len() > 0 {
        lemma_hits_nonneg(a, bs.drop_last());
    }
}

pub proof fn lemma_contacts_nonneg(s: Seq<Asteroid>, p: Point)
    ensures
        contacts(s, p) >= 0,
    decreases s.len(),
{
    if s.len() > 0 {
        lemma_contacts_nonneg(s.drop_last(), p);
    }
}

pub proof fn lemma_points_nonneg(s: Seq<Asteroid>, bs: Seq<Bullet>)
    ensures
        points_gained(s, bs) >= 0,
    decreases s.len(),
{
    if s.len() > 0 {
        lemma_points_nonneg(s.drop_last(), bs);
        lemma_hits_nonneg(s.last(), bs);
    }
}

/// The pieces of hazard `a`, and whether any projectile hit it.
fn split_by(a: &Asteroid, bs: &Vec<Bullet>, points: &mut i64) -> (r: (bool, Vec<Asteroid>))
    requires
        a.wf(),
        bullets_wf(bs@),
        *old(points) >= 0,
    ensures
        r.0 == (hits(*a, bs@) > 0),
        r.1@ == pieces_from(*a, bs@),
        hazards_wf(r.1@),
        *final(points) == capped(*old(points) + points_for(*a, bs@)),
{
    let mut hit = false;
    let mut kids: Vec<Asteroid> = Vec::new();
    let mut j: usize = 0;
    while j < bs.len()
        invariant
            a.wf(),
            bullets_wf(bs@),
            *old(points) >= 0,
            0 <= j <= bs.len(),
            hit == (hits(*a, bs@.subrange(0, j as int)) > 0),
            kids@ == pieces_from(*a, bs@.subrange(0, j as int)),
            hazards_wf(kids@),
            *points == capped(*old(points) + points_for(*a, bs@.subrange(0, j as int))),
        decreases bs.len() - j,
    {
        proof {
            lemma_prefix_step(bs@, j as int);
            lemma_hits_nonneg(*a, bs@.subrange(0, j as int));
        }
        let b = &bs[j];
        if overlaps(a.pos, a.extent(), b.pos, extent_of(Collider::Projectile, 0)) {
            hit = true;
            if a.size > 1 {
                kids.push(a.split_piece(true));
                kids.push(a.split_piece(false));
                *points = if *points > i64::MAX - SPLIT_POINTS {
                    i64::MAX
                } else {
                    *points + SPLIT_POINTS
                };
            }
        }
        j = j + 1;
    }
    proof {
        assert(bs@.subrange(0, bs@.len() as int) =~= bs@);
    }
    (hit, kids)
}

/// Tests whether any hazard of `s` overlaps projectile `b`.
fn struck(s: &Vec<Asteroid>, b: &Bullet) -> (r: bool)
    requires
        hazards_wf(s@),
        b.wf(),
    ensures
        r == (strikes(s@, *b) > 0),
        strikes(s@, *b) >= 0,
{
    let mut n: usize = 0;
    let mut i: usize = 0;
    while i < s.len()
        invariant
            hazards_wf(s@),
            b.wf(),
            0 <= i <= s.len(),
            n == strikes(s@.subrange(0, i as int), *b),
            n <= i,
        decreases s.len() - i,
    {
        proof {
            lemma_prefix_step(s@, i as int);
        }
        let a = &s[i];
        if overlaps(a.pos, a.extent(), b.pos, extent_of(Collider::Projectile, 0)) {
            n = n + 1;
        }
        i = i + 1;
    }
    proof {
        assert(s@.subrange(0, s@.len() as int) =~= s@);
    }
    n > 0
}

/// Counts the hazards of `s` that touch the player at `p`.
pub fn count_contacts(s: &Vec<Asteroid>, p: Point) -> (r: usize)
    requires
        hazards_wf(s@),
        p.in_limit(),
    ensures
        r == contacts(s@, p),
        r <= s@.len(),
{
    let mut n: usize = 0;
    let mut i: usize = 0;
    while i < s.len()
        invariant
            hazards_wf(s@),
            p.in_limit(),
            0 <= i <= s.len(),
            n == contacts(s@.subrange(0, i as int), p),
            n <= i,
        decreases s.len() - i,
    {
        proof {
            lemma_prefix_step(s@, i as int);
        }
        let a = &s[i];
        if overlaps(a.pos, a.extent(), p, extent_of(Collider::Player, 0)) {
            n = n + 1;
        }
        i = i + 1;
    }
    proof {
        assert(s@.subrange(0, s@.len() as int) =~= s@);
    }
    n
}

/// Resolves every hazard against every projectile and against the player at
/// `player`. A hazard that a projectile hits is removed, and leaves two pieces
/// for each such projectile unless it is of the smallest size, which also earns
/// a split's points; each projectile that hits a hazard is removed. Hazards do
/// not act on each other. The points held are capped at `i64::MAX`.
pub fn resolve(hazards: &Vec<Asteroid>, bullets: &Vec<Bullet>, player: Point, points: i64) -> (r: Resolution)
    requires
        hazards_wf(hazards@),
        bullets_wf(bullets@),
        player.in_limit(),
        points >= 0,
    ensures
        r.hazards@ == hazards_after(hazards@, bullets@),
        r.bullets@ == bullets_after(hazards@, bullets@),
        r.points == capped(points + points_gained(hazards@, bullets@)),
        r.contacts == contacts(hazards@, player),
        hazards_wf(r.hazards@),
        bullets_wf(r.bullets@),
{
    let mut out: Vec<Asteroid> = Vec::new();
    let mut total: i64 = points;
    let mut i: usize = 0;
    while i < hazards.len()
        invariant
            hazards_wf(hazards@),
            bullets_wf(bullets@),
            points >= 0,
            0 <= i <= hazards.len(),
            out@ == hazards_after(hazards@.subrange(0, i as int), bullets@),
            hazards_wf(out@),
            total == capped(points + points_gained(hazards@.subrange(0, i as int), bullets@)),
        decreases hazards.len() - i,
    {
        proof {
            lemma_prefix_step(hazards@, i as int);
            lemma_points_nonneg(hazards@.subrange(0, i as int), bullets@);
        }
        let a = &hazards[i];
        let (hit, mut kids) = split_by(a, bullets, &mut total);
        if hit {
            out.append(&mut kids);
        } else {
            proof {
                lemma_hits_nonneg(*a, bullets@);
            }
            out.push(*a);
        }
        i = i + 1;
    }
    let mut kept: Vec<Bullet> = Vec::new();
    let mut j: usize = 0;
    while j < bullets.len()
        invariant
            hazards_wf(hazards@),
            bullets_wf(bullets@),
            0 <= j <= bullets.len(),
            kept@ == bullets_after(hazards@, bullets@.subrange(0, j as int)),
            bullets_wf(kept@),
        decreases bullets.len() - j,
    {
        proof {
            lemma_prefix_step(bullets@, j as int);
        }
        let b = &bullets[j];
        if !struck(hazards, b) {
            kept.push(*b);
        }
        j = j + 1;
    }
    let n = count_contacts(hazards, player);
    proof {
        assert(hazards@.subrange(0, hazards@.len() as int) =~= hazards@);
        assert(bullets@.subrange(0, bullets@.len() as int) =~= bullets@);
    }
    Resolution { hazards: out, bullets: kept, points: total, contacts: n }
}

/// A projectile that hits a size-3 hazard leaves exactly two size-2 hazards at
/// its place, each twice as fast and turned 45 degrees either way, earns a
/// split's points, and is spent; a size-1 hazard leaves nothing and earns
/// nothing.
pub proof fn split_law(a: Asteroid, b: Bullet)
    requires
        a.wf(),
        b.wf(),
        hazard_hits(a, b),
    ensures
        a.size == 3 ==> hazards_after(seq![a], seq![b]) == seq![piece(a, true), piece(a, false)],
        a.size == 3 ==> points_gained(seq![a], seq![b]) == SPLIT_POINTS,
        piece(a, true).size == a.size - 1 && piece(a, false).size == a.size - 1,
        piece(a, true).speed == 2 * a.speed && piece(a, false).speed == 2 * a.speed,
        piece(a, true).pos == a.pos && piece(a, false).pos == a.pos,
        piece(a, true).angle == offset_angle(a.angle as int, EIGHTH_TURN as int),
        piece(a, false).angle == offset_angle(a.angle as int, -EIGHTH_TURN),
        a.size == 1 ==> hazards_after(seq![a], seq![b]) == Seq::<Asteroid>::empty(),
        a.size == 1 ==> points_gained(seq![a], seq![b]) == 0,
        bullets_after(seq![a], seq![b]) == Seq::<Bullet>::empty(),
{
    let s = seq![a];
    let bs = seq![b];
    assert(s.drop_last() =~= Seq::<Asteroid>::empty());
    assert(bs.drop_last() =~= Seq::<Bullet>::empty());
    assert(s.last() == a);
    assert(bs.last() == b);
    assert(hits(a, Seq::<Bullet>::empty()) == 0);
    assert(hits(a, bs) == 1);
    assert(strikes(Seq::<Asteroid>::empty(), b) == 0);
    assert(strikes(s, b) == 1);
    assert(points_gained(Seq::<Asteroid>::empty(), bs) == 0);
    assert(hazards_after(Seq::<Asteroid>::empty(), bs) == Seq::<Asteroid>::empty());
    assert(bullets_after(s, Seq::<Bullet>::empty()) == Seq::<Bullet>::empty());
    assert(pieces_from(a, Seq::<Bullet>::empty()) == Seq::<Asteroid>::empty());
    if a.size > 1 {
        assert(pieces_from(a, bs) =~= seq![piece(a, true), piece(a, false)]);
    } else {
        assert(pieces_from(a, bs) =~= Seq::<Asteroid>::empty());
    }
    assert(hazards_after(s, bs) =~= outcome(a, bs));
    assert(bullets_after(s, bs) =~= Seq::<Bullet>::empty());
}

} // verus!
