use asteroids::geometry::{turn_45, wrap_position, Dir, Point};
use asteroids::hazards::{resolve, Asteroid, Bullet};
use asteroids::player::{ceil_sqrt, integrate_velocity, turn, Player, Steering, FACING_UP};
use asteroids::random::{draw_facing, draw_place};
use asteroids::session::{Controls, Game, Phase, Scoreboard, SpawnDraw};
use asteroids::timer::Timer;

const UP: Dir = Dir { c: 0, s: 1_000_000 };
const RIGHT: Dir = Dir { c: 1_000_000, s: 0 };

fn idle() -> Controls {
    Controls {
        forward: false,
        back: false,
        left: false,
        right: false,
        fire_pressed: false,
        fire_held: false,
        confirm: false,
        cancel: false,
    }
}

fn still() -> Steering {
    Steering { forward: false, back: false, left: false, right: false }
}

fn draw() -> SpawnDraw {
    SpawnDraw { on_right: true, offset: 0, angle: 0, heading: RIGHT }
}

fn hazard(x: i64, y: i64, size: i64, speed: i64) -> Asteroid {
    Asteroid { pos: Point { x, y }, angle: 0, heading: RIGHT, speed, size }
}

fn playing() -> Game {
    let mut g = Game::new();
    let c = Controls { confirm: true, ..idle() };
    g.tick(&c, 16_000, UP, &draw());
    assert_eq!(g.phase, Phase::Playing);
    g
}

#[test]
fn wrap_sends_past_edges_across() {
    let mut p = Point { x: 641_000, y: 0 };
    wrap_position(&mut p);
    assert_eq!(p, Point { x: -640_000, y: 0 });
    let mut p = Point { x: -641_000, y: 5 };
    wrap_position(&mut p);
    assert_eq!(p, Point { x: 640_000, y: 5 });
    let mut p = Point { x: 7, y: 361_000 };
    wrap_position(&mut p);
    assert_eq!(p, Point { x: 7, y: -360_000 });
    let mut p = Point { x: 7, y: -361_000 };
    wrap_position(&mut p);
    assert_eq!(p, Point { x: 7, y: 360_000 });
}

#[test]
fn wrap_leaves_inside_points_and_is_idempotent() {
    for (x, y) in [(0, 0), (640_000, 360_000), (-640_000, -360_000), (123, -456)] {
        let mut p = Point { x, y };
        wrap_position(&mut p);
        assert_eq!(p, Point { x, y });
        wrap_position(&mut p);
        assert_eq!(p, Point { x, y });
    }
}

#[test]
fn speed_cap_rescales_to_top_speed() {
    let v = integrate_velocity(Point { x: 1_000_000, y: 0 }, UP, still(), 16_000);
    assert_eq!(v, Point { x: 500_000, y: 0 });
    let v = integrate_velocity(Point { x: 3_000_000, y: 4_000_000 }, UP, still(), 16_000);
    assert_eq!(v, Point { x: 300_000, y: 400_000 });
}

#[test]
fn speed_cap_holds_for_large_inputs() {
    let s = Steering { forward: true, ..still() };
    for (x, y) in [(1 << 40, 1 << 40), (-(1 << 40), 12345), (499_999, 0), (0, -700_000)] {
        let v = integrate_velocity(Point { x, y }, RIGHT, s, u32::MAX);
        assert!((v.x as i128) * (v.x as i128) + (v.y as i128) * (v.y as i128) <= 500_000i128 * 500_000);
    }
}

#[test]
fn friction_takes_one_unit_per_step() {
    let v = integrate_velocity(Point { x: 300_000, y: 0 }, UP, still(), 16_000);
    assert_eq!(v, Point { x: 299_000, y: 0 });
    let v = integrate_velocity(Point { x: 0, y: -200 }, UP, still(), 16_000);
    assert_eq!(v, Point { x: 0, y: 800 });
}

#[test]
fn slow_velocity_snaps_to_rest() {
    let v = integrate_velocity(Point { x: 100, y: 100 }, UP, still(), 16_000);
    assert_eq!(v, Point { x: 0, y: 0 });
}

#[test]
fn thrust_accelerates_along_heading() {
    let s = Steering { forward: true, ..still() };
    let v = integrate_velocity(Point { x: 0, y: 0 }, RIGHT, s, 100_000);
    assert_eq!(v, Point { x: 49_000, y: 0 });
    let s = Steering { back: true, ..still() };
    let v = integrate_velocity(Point { x: 0, y: 0 }, UP, s, 100_000);
    assert_eq!(v, Point { x: 0, y: -49_000 });
    let s = Steering { forward: true, back: true, ..still() };
    let v = integrate_velocity(Point { x: 0, y: 0 }, UP, s, 100_000);
    assert_eq!(v, Point { x: 0, y: 0 });
}

#[test]
fn turning_composes_with_elapsed_time() {
    let s = Steering { left: true, ..still() };
    assert_eq!(turn(0, s, 500_000), 1_000_000);
    let s = Steering { right: true, ..still() };
    assert_eq!(turn(0, s, 500_000), -1_000_000);
    let s = Steering { left: true, right: true, ..still() };
    assert_eq!(turn(FACING_UP, s, 500_000), FACING_UP);
    let s = Steering { left: true, ..still() };
    assert_eq!(turn(3_000_000, s, 500_000), 4_000_000 - 6_283_185);
}

#[test]
fn player_step_moves_and_wraps() {
    let mut p = Player::spawn();
    p.vel = Point { x: 400_000, y: 0 };
    p.pos = Point { x: 639_000, y: 0 };
    p.step(UP, still(), 1_000_000);
    assert_eq!(p.vel, Point { x: 399_000, y: 0 });
    assert_eq!(p.pos, Point { x: -640_000, y: 0 });
}

#[test]
fn ceil_sqrt_values() {
    assert_eq!(ceil_sqrt(0), 0);
    assert_eq!(ceil_sqrt(1), 1);
    assert_eq!(ceil_sqrt(2), 2);
    assert_eq!(ceil_sqrt(16), 4);
    assert_eq!(ceil_sqrt(17), 5);
    assert_eq!(ceil_sqrt(250_000_000_000), 500_000);
}

#[test]
fn heading_turns_by_an_eighth() {
    assert_eq!(turn_45(RIGHT, true), Dir { c: 707_106, s: 707_106 });
    assert_eq!(turn_45(RIGHT, false), Dir { c: 707_106, s: -707_106 });
}

#[test]
fn shot_large_hazard_splits_in_two() {
    let a = hazard(0, 0, 3, 100_000);
    let b = Bullet { pos: Point { x: 1_000, y: 0 }, angle: 0, heading: RIGHT, speed: 1_000_000 };
    let r = resolve(&vec![a], &vec![b], Point { x: 500_000, y: 300_000 }, 0);
    assert_eq!(r.hazards.len(), 2);
    for h in &r.hazards {
        assert_eq!(h.size, 2);
        assert_eq!(h.speed, 200_000);
        assert_eq!(h.pos, Point { x: 0, y: 0 });
    }
    assert_eq!(r.hazards[0].angle, 785_398);
    assert_eq!(r.hazards[1].angle, -785_398);
    assert_eq!(r.points, 100);
    assert!(r.bullets.is_empty());
    assert_eq!(r.contacts, 0);
}

#[test]
fn shot_small_hazard_leaves_nothing() {
    let a = hazard(0, 0, 1, 100_000);
    let b = Bullet { pos: Point { x: 0, y: 0 }, angle: 0, heading: RIGHT, speed: 1_000_000 };
    let r = resolve(&vec![a], &vec![b], Point { x: 500_000, y: 300_000 }, 40);
    assert!(r.hazards.is_empty());
    assert!(r.bullets.is_empty());
    assert_eq!(r.points, 40);
}

#[test]
fn missed_hazards_and_bullets_stay() {
    let a = hazard(0, 0, 2, 100_000);
    let b = Bullet { pos: Point { x: 100_000, y: 0 }, angle: 0, heading: RIGHT, speed: 1_000_000 };
    let r = resolve(&vec![a, a], &vec![b], Point { x: 0, y: 0 }, 0);
    assert_eq!(r.hazards, vec![a, a]);
    assert_eq!(r.bullets, vec![b]);
    assert_eq!(r.points, 0);
    assert_eq!(r.contacts, 2);
}

#[test]
fn timer_repeats_and_carries_over() {
    let mut t = Timer::new(300_000);
    t.tick(200_000);
    assert!(!t.just_finished());
    t.tick(200_000);
    assert!(t.just_finished());
    assert_eq!(t.elapsed, 100_000);
    t.tick(700_000);
    assert_eq!(t.times_finished, 2);
    assert_eq!(t.elapsed, 200_000);
    t.reset();
    assert_eq!(t.elapsed, 0);
    assert!(!t.just_finished());
}

#[test]
fn contacts_take_lives_until_game_over() {
    let mut g = playing();
    assert_eq!(g.score, Scoreboard { points: 0, lives: 3 });
    g.hazards.push(hazard(0, 0, 3, 0));
    for lives in [2, 1, 0] {
        g.tick(&idle(), 16_000, UP, &draw());
        assert_eq!(g.score.lives, lives);
        assert_eq!(g.phase, Phase::Playing);
        assert_eq!(g.player.unwrap().pos, Point { x: 0, y: 0 });
    }
    g.tick(&idle(), 16_000, UP, &draw());
    assert_eq!(g.score.lives, -1);
    assert_eq!(g.phase, Phase::GameOver);
    assert!(g.player.is_none());
    assert!(g.hazards.is_empty());
}

#[test]
fn holding_fire_for_a_second_fires_four_times() {
    let mut g = playing();
    let press = Controls { fire_pressed: true, fire_held: true, ..idle() };
    let hold = Controls { fire_held: true, ..idle() };
    g.tick(&press, 0, UP, &draw());
    for _ in 0..10 {
        g.tick(&hold, 100_000, UP, &draw());
    }
    assert_eq!(g.bullets.len(), 4);
    assert!(g.hazards.is_empty());
}

#[test]
fn hazard_timer_spawns_every_two_seconds() {
    let mut g = playing();
    let d = SpawnDraw { on_right: false, offset: 5_000, angle: 0, heading: RIGHT };
    g.tick(&idle(), 1_999_999, UP, &d);
    assert!(g.hazards.is_empty());
    g.tick(&idle(), 1, UP, &d);
    assert_eq!(g.hazards, vec![Asteroid {
        pos: Point { x: 5_000, y: 720_000 },
        angle: 0,
        heading: RIGHT,
        speed: 100_000,
        size: 3
    }]);
}

#[test]
fn phase_round_trip_tears_down() {
    let mut g = playing();
    g.hazards.push(hazard(0, 0, 3, 0));
    let fire = Controls { fire_pressed: true, ..idle() };
    for _ in 0..4 {
        g.tick(&fire, 16_000, UP, &draw());
    }
    assert_eq!(g.phase, Phase::GameOver);
    assert!(g.player.is_none() && g.hazards.is_empty() && g.bullets.is_empty());
    g.tick(&Controls { cancel: true, ..idle() }, 16_000, UP, &draw());
    assert_eq!(g.phase, Phase::Menu);
    assert!(g.player.is_none() && g.hazards.is_empty() && g.bullets.is_empty());
    g.tick(&Controls { confirm: true, ..idle() }, 16_000, UP, &draw());
    assert_eq!(g.phase, Phase::Playing);
    assert_eq!(g.score, Scoreboard { points: 0, lives: 3 });
    assert_eq!(g.player, Some(Player::spawn()));
    assert!(g.hazards.is_empty() && g.bullets.is_empty());
}

#[test]
fn inactive_phases_ignore_other_inputs() {
    let mut g = Game::new();
    g.tick(&Controls { cancel: true, fire_pressed: true, ..idle() }, 16_000, UP, &draw());
    assert_eq!(g.phase, Phase::Menu);
    assert!(g.player.is_none());
}

#[test]
fn scoreboard_texts() {
    let (s, l) = Scoreboard { points: 1200, lives: -1 }.texts();
    assert_eq!(s, "SCORE: 1200\n");
    assert_eq!(l, "LIVES: -1");
    let (s, l) = Scoreboard { points: 0, lives: 3 }.texts();
    assert_eq!(s, "SCORE: 0\n");
    assert_eq!(l, "LIVES: 3");
}

#[test]
fn draws_stay_in_range() {
    for _ in 0..200 {
        let (right, off) = draw_place();
        assert!(off >= 0);
        assert!(off < if right { 720_000 } else { 1_280_000 });
        let a = draw_facing();
        assert!((-3_141_593..3_141_592).contains(&a));
    }
}
