use vstd::prelude::*;
use rand::Rng;
use crate::hazards::angle_ok;
use crate::player::{FULL_TURN, HALF_TURN};
use crate::session::{SPAWN_HEIGHT, SPAWN_WIDTH};

verus! {

/// Relies on `rand::thread_rng` and `Rng::gen::<bool>`: a fair coin. Nothing is
/// promised of the outcome.
#[verifier::external_body]
fn coin() -> bool {
    rand::thread_rng().gen::<bool>()
}

/// Relies on `rand::thread_rng` and `Rng::gen_range` on `lo..hi`: a value in
/// the half-open range, which must not be empty (it panics then).
#[verifier::external_body]
fn uniform_in(lo: i64, hi: i64) -> (r: i64)
    requires
        lo < hi,
    ensures
        lo <= r < hi,
{
    rand::thread_rng().gen_range(lo..hi)
}

/// Draws where a new hazard appears: the right edge (`true`) or the top edge,
/// each with even odds, and an offset along that edge inside the spawn frame.
pub fn draw_place() -> (r: (bool, i64))
    ensures
        0 <= r.1 < if r.0 { SPAWN_HEIGHT } else { SPAWN_WIDTH },
{
    let on_right = coin();
    let offset = if on_right { uniform_in(0, SPAWN_HEIGHT) } else { uniform_in(0, SPAWN_WIDTH) };
    (on_right, offset)
}

/// Draws a facing for a new hazard, uniformly over a full turn.
pub fn draw_facing() -> (r: i64)
    ensures
        angle_ok(r as int),
        -HALF_TURN <= r < FULL_TURN - HALF_TURN,
{
    uniform_in(-HALF_TURN, FULL_TURN - HALF_TURN)
}

} // verus!
