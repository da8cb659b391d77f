use vstd::prelude::*;
use crate::geometry::{Dir, Point, advanced, wrapped};
use crate::hazards::{
    Asteroid, Bullet, angle_ok, bullets_after, bullets_wf, capped, contacts, hazards_after,
    hazards_wf, points_gained, resolve,
};
use crate::player::{Player, Steering, stepped};
use crate::timer::Timer;

verus! {

/// Period between two hazards, in microseconds.
pub const HAZARD_PERIOD: u64 = 2_000_000;

/// Cooldown between two automatic shots, in microseconds.
pub const FIRE_COOLDOWN: u64 = 300_000;

/// Speed of a projectile, in milli-units per second.
pub const BULLET_SPEED: i64 = 1_000_000;

/// Speed of a new hazard, in milli-units per second.
pub const HAZARD_SPEED: i64 = 100_000;

/// Size of a new hazard.
pub const HAZARD_SIZE: i64 = 3;

/// Lives at the start of a session.
pub const START_LIVES: i64 = 3;

/// Width of the frame in which new hazards are placed, in milli-units.
pub const SPAWN_WIDTH: i64 = 1_280_000;

/// Height of the frame in which new hazards are placed, in milli-units.
pub const SPAWN_HEIGHT: i64 = 720_000;

/// The phase of a session.
#[derive(Clone, Copy, Debug, PartialEq, Eq, Structural)]
pub enum Phase {
    Menu,
    Playing,
    GameOver,
}

/// Points and lives.
#[derive(Clone, Copy, Debug, PartialEq, Eq, Structural)]
pub struct Scoreboard {
    pub points: i64,
    pub lives: i64,
}

/// The logical inputs of one frame. `fire_pressed`, `confirm` and `cancel` are
/// edges; the others are levels.
#[derive(Clone, Copy, Debug, PartialEq, Eq, Structural)]
pub struct Controls {
    pub forward: bool,
    pub back: bool,
    pub left: bool,
    pub right: bool,
    pub fire_pressed: bool,
    pub fire_held: bool,
    pub confirm: bool,
    pub cancel: bool,
}

/// Where and how a new hazard appears: on the right edge at height `offset`,
/// or on the top edge at `offset` across; facing `angle`, whose direction is
/// `heading`.
#[derive(Clone, Copy, Debug, PartialEq, Eq, Structural)]
pub struct SpawnDraw {
    pub on_right: bool,
    pub offset: i64,
    pub angle: i64,
    pub heading: Dir,
}

impl SpawnDraw {
    pub open spec fn wf(self) -> bool {
        &&& 0 <= self.offset < if self.on_right { SPAWN_HEIGHT } else { SPAWN_WIDTH }
        &&& angle_ok(self.angle as int)
        &&& self.heading.wf()
    }
}

/// The hazard that a draw places.
pub open spec fn drawn_hazard(d: SpawnDraw) -> Asteroid {
    Asteroid {
        pos: if d.on_right {
            Point { x: SPAWN_WIDTH, y: d.offset }
        } else {
            Point { x: d.offset, y: SPAWN_HEIGHT }
        },
        angle: d.angle,
        heading: d.heading,
        speed: HAZARD_SPEED,
        size: HAZARD_SIZE,
    }
}

/// A hazard of the given draw.
pub fn spawn_hazard(d: &SpawnDraw) -> (a: Asteroid)
    requires
        d.wf(),
    ensures
        a == drawn_hazard(*d),
        a.wf(),
{
    let pos = if d.on_right {
        Point { x: SPAWN_WIDTH, y: d.offset }
    } else {
        Point { x: d.offset, y: SPAWN_HEIGHT }
    };
    Asteroid { pos, angle: d.angle, heading: d.heading, speed: HAZARD_SPEED, size: HAZARD_SIZE }
}

/// The projectile fired by the player `p`, facing along `heading`.
pub open spec fn fired_bullet(p: Player, heading: Dir) -> Bullet {
    Bullet { pos: p.pos, angle: p.angle, heading, speed: BULLET_SPEED }
}

/// Whether the fire control shoots in this frame, and the cooldown after it:
/// a press shoots at once and restarts the cooldown; holding shoots each time
/// the cooldown runs out.
pub open spec fn fire_outcome(t: Timer, c: Controls, dt: int) -> (bool, Timer) {
    if c.fire_pressed {
        (true, Timer { elapsed: 0, times_finished: 0, ..t })
    } else if c.fire_held {
        let total = t.elapsed + dt;
        let nt = Timer {
            elapsed: (total % (t.duration as int)) as u64,
            times_finished: (total / (t.duration as int)) as u64,
            ..t
        };
        (nt.times_finished > 0, nt)
    } else {
        (false, t)
    }
}

/// Runs the fire control for one frame; returns whether it shoots.
pub fn fire_control(t: &mut Timer, c: &Controls, dt: u32) -> (r: bool)
    requires
        old(t).wf(),
    ensures
        final(t).wf(),
        (r, *final(t)) == fire_outcome(*old(t), *c, dt as int),
{
    if c.fire_pressed {
        t.reset();
        true
    } else if c.fire_held {
        t.tick(dt);
        t.just_finished()
    } else {
        false
    }
}

/// Timer after `dt` microseconds.
pub open spec fn ticked(t: Timer, dt: int) -> Timer {
    Timer {
        elapsed: ((t.elapsed + dt) % (t.duration as int)) as u64,
        times_finished: ((t.elapsed + dt) / (t.duration as int)) as u64,
        ..t
    }
}

pub open spec fn hazard_moved(a: Asteroid, dt: int) -> Asteroid {
    Asteroid { pos: wrapped(advanced(a.pos, a.heading, a.speed as int, dt)), ..a }
}

pub open spec fn bullet_moved(b: Bullet, dt: int) -> Bullet {
    Bullet { pos: wrapped(advanced(b.pos, b.heading, b.speed as int, dt)), ..b }
}

pub open spec fn hazards_moved(s: Seq<Asteroid>, dt: int) -> Seq<Asteroid> {
    Seq::new(s.len(), |i: int| hazard_moved(s[i], dt))
}

pub open spec fn bullets_moved(s: Seq<Bullet>, dt: int) -> Seq<Bullet> {
    Seq::new(s.len(), |i: int| bullet_moved(s[i], dt))
}

/// Moves every hazard one step.
pub fn move_hazards(s: &mut Vec<Asteroid>, dt: u32)
    requires
        hazards_wf(old(s)@),
    ensures
        final(s)@ == hazards_moved(old(s)@, dt as int),
        hazards_wf(final(s)@),
{
    let ghost s0 = s@;
    let mut i: usize = 0;
    while i < s.len()
        invariant
            s@.len() == s0.len(),
            hazards_wf(s0),
            0 <= i <= s.len(),
            forall|k: int| 0 <= k < i ==> s@[k] == hazard_moved(s0[k], dt as int) && s@[k].wf(),
            forall|k: int| i <= k < s@.len() ==> s@[k] == s0[k],
        decreases s.len() - i,
    {
        let mut a = s[i];
        assert(s0[i as int].wf());
        a.step(dt);
        s.set(i, a);
        i = i + 1;
    }
    assert(s@ =~= hazards_moved(s0, dt as int));
}

/// Moves every projectile one step.
pub fn move_bullets(s: &mut Vec<Bullet>, dt: u32)
    requires
        bullets_wf(old(s)@),
    ensures
        final(s)@ == bullets_moved(old(s)@, dt as int),
        bullets_wf(final(s)@),
{
    let ghost s0 = s@;
    let mut i: usize = 0;
    while i < s.len()
        invariant
            s@.len() == s0.len(),
            bullets_wf(s0),
            0 <= i <= s.len(),
            forall|k: int| 0 <= k < i ==> s@[k] == bullet_moved(s0[k], dt as int) && s@[k].wf(),
            forall|k: int| i <= k < s@.len() ==> s@[k] == s0[k],
        decreases s.len() - i,
    {
        let mut b = s[i];
        assert(s0[i as int].wf());
        b.step(dt);
        s.set(i, b);
        i = i + 1;
    }
    assert(s@ =~= bullets_moved(s0, dt as int));
}

/// Lives after `k` losses, held up at `i64::MIN`.
pub open spec fn lives_after(l: int, k: int) -> int {
    if l - k < i64::MIN {
        i64::MIN as int
    } else {
        l - k
    }
}

/// A session: its phase, scoreboard, entities and timers.
#[derive(Debug)]
pub struct Game {
    pub phase: Phase,
    pub score: Scoreboard,
    pub player: Option<Player>,
    pub hazards: Vec<Asteroid>,
    pub bullets: Vec<Bullet>,
    pub hazard_timer: Timer,
    pub fire_timer: Timer,
}

/// What a session holds, as mathematical values.
pub struct GameView {
    pub phase: Phase,
    pub score: Scoreboard,
    pub player: Option<Player>,
    pub hazards: Seq<Asteroid>,
    pub bullets: Seq<Bullet>,
    pub hazard_timer: Timer,
    pub fire_timer: Timer,
}

impl View for Game {
    type V = GameView;

    open spec fn view(&self) -> GameView {
        GameView {
            phase: self.phase,
            score: self.score,
            player: self.player,
            hazards: self.hazards@,
            bullets: self.bullets@,
            hazard_timer: self.hazard_timer,
            fire_timer: self.fire_timer,
        }
    }
}

/// The session after `k` player-death signals.
pub open spec fn after_deaths(v: GameView, k: int) -> GameView {
    if k == 0 {
        v
    } else if v.score.lives - k < 0 {
        GameView {
            phase: Phase::GameOver,
            score: Scoreboard { lives: lives_after(v.score.lives as int, k) as i64, ..v.score },
            player: None,
            hazards: seq![],
            bullets: seq![],
            ..v
        }
    } else {
        GameView {
            score: Scoreboard { lives: (v.score.lives - k) as i64, ..v.score },
            player: Some(Player::spawn_spec()),
            ..v
        }
    }
}

/// One frame of play before death signals are handled: fire control, the
/// player's step, the hazard timer, every hazard and projectile moved, the
/// collisions resolved, then the new projectile and hazard added. The second
/// value is the number of death signals.
pub open spec fn play_frame(v: GameView, c: Controls, dt: int, heading: Dir, d: SpawnDraw) -> (GameView, int) {
    let p0 = v.player.unwrap();
    let (shoot, ft) = fire_outcome(v.fire_timer, c, dt);
    let p1 = stepped(p0, heading, steering_of(c), dt);
    let ht = ticked(v.hazard_timer, dt);
    let hs = hazards_moved(v.hazards, dt);
    let bs = bullets_moved(v.bullets, dt);
    let new_hazards = if ht.times_finished > 0 { seq![drawn_hazard(d)] } else { seq![] };
    let new_bullets = if shoot { seq![fired_bullet(p0, heading)] } else { seq![] };
    (
        GameView {
            phase: v.phase,
            score: Scoreboard {
                points: capped(v.score.points + points_gained(hs, bs)) as i64,
                lives: v.score.lives,
            },
            player: Some(p1),
            hazards: hazards_after(hs, bs) + new_hazards,
            bullets: bullets_after(hs, bs) + new_bullets,
            hazard_timer: ht,
            fire_timer: ft,
        },
        contacts(hs, p1.pos),
    )
}

/// The session after one frame in any phase: the menu starts play on confirm,
/// the game-over screen returns to the menu on cancel, and play runs a frame.
pub open spec fn frame(v: GameView, c: Controls, dt: int, heading: Dir, d: SpawnDraw) -> GameView {
    match v.phase {
        Phase::Menu => if c.confirm { started(v) } else { v },
        Phase::GameOver => if c.cancel { GameView { phase: Phase::Menu, ..v } } else { v },
        Phase::Playing => {
            let (w, k) = play_frame(v, c, dt, heading, d);
            after_deaths(w, k)
        },
    }
}

/// The session on entering play.
pub open spec fn started(v: GameView) -> GameView {
    GameView {
        phase: Phase::Playing,
        score: Scoreboard { points: 0, lives: START_LIVES },
        player: Some(Player::spawn_spec()),
        hazards: seq![],
        bullets: seq![],
        hazard_timer: Timer::new_spec(HAZARD_PERIOD),
        fire_timer: Timer::new_spec(FIRE_COOLDOWN),
    }
}

pub open spec fn steering_of(c: Controls) -> Steering {
    Steering { forward: c.forward, back: c.back, left: c.left, right: c.right }
}

impl Game {
    /// Advances the session by one frame of `dt` microseconds. `heading` is the
    /// direction of the player's current facing; `draw` places the hazard that
    /// the hazard timer may spawn in this frame.
    pub fn tick(&mut self, c: &Controls, dt: u32, heading: Dir, draw: &SpawnDraw)
        requires
            old(self).wf(),
            heading.wf(),
            draw.wf(),
        ensures
            final(self).wf(),
            final(self)@ == frame(old(self)@, *c, dt as int, heading, *draw),
    {
        match self.phase {
            Phase::Menu => {
                if c.confirm {
                    self.start_playing();
                }
            },
            Phase::GameOver => {
                if c.cancel {
                    self.return_to_menu();
                }
            },
            Phase::Playing => {
                let k = self.play(c, dt, heading, draw);
                self.player_death(k);
            },
        }
    }

    /// One frame of play, up to the death signals, whose number it returns.
    fn play(&mut self, c: &Controls, dt: u32, heading: Dir, draw: &SpawnDraw) -> (k: usize)
        requires
            old(self).wf(),
            old(self).phase == Phase::Playing,
            heading.wf(),
            draw.wf(),
        ensures
            final(self).wf(),
            (final(self)@, k as int) == play_frame(old(self)@, *c, dt as int, heading, *draw),
    {
        let p0 = match self.player {
            Some(p) => p,
            None => {
                proof {
                    assert(false);
                }
                return 0;
            },
        };
        let shoot = fire_control(&mut self.fire_timer, c, dt);
        let mut p1 = p0;
        p1.step(heading, Steering { forward: c.forward, back: c.back, left: c.left, right: c.right }, dt);
        self.hazard_timer.tick(dt);
        let spawn = self.hazard_timer.just_finished();
        move_hazards(&mut self.hazards, dt);
        move_bullets(&mut self.bullets, dt);
        let res = resolve(&self.hazards, &self.bullets, p1.pos, self.score.points);
        proof {
            crate::hazards::lemma_points_nonneg(self.hazards@, self.bullets@);
        }
        let k = res.contacts;
        let mut hazards = res.hazards;
        let mut bullets = res.bullets;
        if spawn {
            let a = spawn_hazard(draw);
            hazards.push(a);
            assert(hazards@.last() == a);
        }
        if shoot {
            let b = Bullet { pos: p0.pos, angle: p0.angle, heading, speed: BULLET_SPEED };
            bullets.push(b);
            assert(bullets@.last() == b);
        }
        assert(hazards_wf(hazards@));
        assert(bullets_wf(bullets@));
        self.hazards = hazards;
        self.bullets = bullets;
        self.score.points = res.points;
        self.player = Some(p1);
        proof {
            assert(self.hazards@ =~= play_frame(old(self)@, *c, dt as int, heading, *draw).0.hazards);
            assert(self.bullets@ =~= play_frame(old(self)@, *c, dt as int, heading, *draw).0.bullets);
        }
        k
    }

    /// The session invariant: exactly one player while playing and none
    /// otherwise, no hazard or projectile outside play, every entity well
    /// formed, and timers of the right periods.
    pub open spec fn wf(&self) -> bool {
        &&& (self.phase == Phase::Playing) == self.player.is_some()
        &&& self.player.is_some() ==> self.player.unwrap().wf()
        &&& self.phase != Phase::Playing ==> self.hazards@.len() == 0 && self.bullets@.len() == 0
        &&& self.phase == Phase::Playing ==> 0 <= self.score.lives <= START_LIVES
        &&& self.score.points >= 0
        &&& hazards_wf(self.hazards@)
        &&& bullets_wf(self.bullets@)
        &&& self.hazard_timer.wf() && self.hazard_timer.duration == HAZARD_PERIOD
        &&& self.fire_timer.wf() && self.fire_timer.duration == FIRE_COOLDOWN
    }

    /// No player, hazard or projectile is left.
    pub open spec fn is_clear(&self) -> bool {
        self.player.is_none() && self.hazards@.len() == 0 && self.bullets@.len() == 0
    }

    /// A session at the menu.
    pub fn new() -> (g: Game)
        ensures
            g.wf(),
            g.phase == Phase::Menu,
            g.is_clear(),
            g.score == (Scoreboard { points: 0, lives: START_LIVES }),
    {
        Game {
            phase: Phase::Menu,
            score: Scoreboard { points: 0, lives: START_LIVES },
            player: None,
            hazards: Vec::new(),
            bullets: Vec::new(),
            hazard_timer: Timer::new(HAZARD_PERIOD),
            fire_timer: Timer::new(FIRE_COOLDOWN),
        }
    }

    /// Enters play: a fresh scoreboard, a player at rest at the origin facing
    /// up, fresh timers, and no hazard or projectile.
    pub fn start_playing(&mut self)
        requires
            old(self).wf(),
            old(self).phase != Phase::Playing,
        ensures
            final(self).wf(),
            final(self).phase == Phase::Playing,
            final(self).score == (Scoreboard { points: 0, lives: START_LIVES }),
            final(self).player == Some(Player::spawn_spec()),
            final(self).hazards@.len() == 0,
            final(self).bullets@.len() == 0,
            final(self).hazard_timer == Timer::new_spec(HAZARD_PERIOD),
            final(self).fire_timer == Timer::new_spec(FIRE_COOLDOWN),
            final(self)@ == started(old(self)@),
    {
        self.phase = Phase::Playing;
        self.score = Scoreboard { points: 0, lives: START_LIVES };
        self.player = Some(Player::spawn());
        self.hazards = Vec::new();
        self.bullets = Vec::new();
        self.hazard_timer = Timer::new(HAZARD_PERIOD);
        self.fire_timer = Timer::new(FIRE_COOLDOWN);
        assert(self@.hazards =~= started(old(self)@).hazards);
        assert(self@.bullets =~= started(old(self)@).bullets);
    }

    /// Leaves play for the game-over screen, removing the player, every hazard
    /// and every projectile. The scoreboard stays for display.
    pub fn stop_game(&mut self)
        requires
            old(self).wf(),
            old(self).phase == Phase::Playing,
        ensures
            final(self).wf(),
            final(self).phase == Phase::GameOver,
            final(self).is_clear(),
            final(self).score == old(self).score,
            final(self).hazard_timer == old(self).hazard_timer,
            final(self).fire_timer == old(self).fire_timer,
    {
        self.phase = Phase::GameOver;
        self.player = None;
        self.hazards = Vec::new();
        self.bullets = Vec::new();
    }

    /// Leaves the game-over screen for the menu.
    pub fn return_to_menu(&mut self)
        requires
            old(self).wf(),
            old(self).phase == Phase::GameOver,
        ensures
            final(self).wf(),
            final(self).phase == Phase::Menu,
            final(self).is_clear(),
            final(self).score == old(self).score,
            final(self).hazard_timer == old(self).hazard_timer,
            final(self).fire_timer == old(self).fire_timer,
            final(self)@ == (GameView { phase: Phase::Menu, ..old(self)@ }),
    {
        self.phase = Phase::Menu;
    }

    /// Handles `k` player-death signals: each takes a life; when lives drop
    /// below zero the session ends, else the player is put back at rest at the
    /// origin facing up.
    pub fn player_death(&mut self, k: usize)
        requires
            old(self).wf(),
            old(self).phase == Phase::Playing,
        ensures
            final(self).wf(),
            final(self).score.points == old(self).score.points,
            final(self).score.lives == lives_after(old(self).score.lives as int, k as int),
            k == 0 ==> *final(self) == *old(self),
            final(self).phase == (if old(self).score.lives - k < 0 {
                Phase::GameOver
            } else {
                Phase::Playing
            }),
            old(self).score.lives - k < 0 ==> final(self).is_clear(),
            0 < k <= old(self).score.lives ==> final(self).player == Some(Player::spawn_spec())
                && final(self).hazards@ == old(self).hazards@
                && final(self).bullets@ == old(self).bullets@,
            final(self).hazard_timer == old(self).hazard_timer,
            final(self).fire_timer == old(self).fire_timer,
            final(self)@ == after_deaths(old(self)@, k as int),
    {
        if k == 0 {
            return;
        }
        let d: i128 = self.score.lives as i128 - k as i128;
        if d < 0 {
            self.stop_game();
            assert(self.hazards@ =~= Seq::<Asteroid>::empty());
            assert(self.bullets@ =~= Seq::<Bullet>::empty());
        } else {
            self.player = Some(Player::spawn());
        }
        self.score.lives = if d < i64::MIN as i128 { i64::MIN } else { d as i64 };
    }
}

/// A single player-death signal in play takes exactly one life, and the
/// session goes to the game-over screen exactly when the lives drop below zero.
pub proof fn death_law(v: GameView)
    requires
        v.phase == Phase::Playing,
        0 <= v.score.lives <= START_LIVES,
    ensures
        after_deaths(v, 1).score.lives == v.score.lives - 1,
        after_deaths(v, 1).score.points == v.score.points,
        (after_deaths(v, 1).phase == Phase::GameOver) == (v.score.lives - 1 < 0),
        (after_deaths(v, 1).phase == Phase::Playing) == (v.score.lives - 1 >= 0),
{
}

/// In play, a frame ends on the game-over screen exactly when it leaves the
/// lives below zero, and otherwise play goes on.
pub proof fn game_over_law(v: GameView, c: Controls, dt: int, heading: Dir, d: SpawnDraw)
    requires
        v.phase == Phase::Playing,
        v.player.is_some(),
        0 <= v.score.lives <= START_LIVES,
    ensures
        (frame(v, c, dt, heading, d).phase == Phase::GameOver) == (frame(v, c, dt, heading, d).score.lives < 0),
        (frame(v, c, dt, heading, d).phase == Phase::Playing) == (frame(v, c, dt, heading, d).score.lives >= 0),
{
    let p1 = stepped(v.player.unwrap(), heading, steering_of(c), dt);
    crate::hazards::lemma_contacts_nonneg(hazards_moved(v.hazards, dt), p1.pos);
}

/// Going from play to the game-over screen leaves no player, hazard or
/// projectile; the game-over screen returns to the menu, still clear; and
/// entering play from the menu resets the scoreboard to no points and three
/// lives, with one player and no hazard or projectile.
pub proof fn round_trip_law(v: GameView, c: Controls, dt: int, heading: Dir, d: SpawnDraw)
    requires
        v.phase != Phase::Menu ==> v.player.is_some(),
    ensures
        v.phase == Phase::Playing && frame(v, c, dt, heading, d).phase == Phase::GameOver ==> {
            let w = frame(v, c, dt, heading, d);
            w.player.is_none() && w.hazards.len() == 0 && w.bullets.len() == 0
        },
        v.phase == Phase::GameOver && c.cancel ==> {
            let w = frame(v, c, dt, heading, d);
            w.phase == Phase::Menu && w.player == v.player && w.hazards == v.hazards
                && w.bullets == v.bullets
        },
        v.phase == Phase::Menu && c.confirm ==> {
            let w = frame(v, c, dt, heading, d);
            &&& w.phase == Phase::Playing
            &&& w.score == (Scoreboard { points: 0, lives: START_LIVES })
            &&& w.player == Some(Player::spawn_spec())
            &&& w.hazards.len() == 0
            &&& w.bullets.len() == 0
        },
{
}

} // verus!
