//! Random draws, taken from the game engine's generator, and the enemy
//! that a frame may spawn from them.

use vstd::prelude::*;
use crate::geometry::{Shape, MAX_SCREEN};

verus! {

/// Largest magnitude of a bound handed to the generator.
pub const RANDOM_LIMIT: i64 = 1_048_576;

/// A roll of at least this much, out of a hundred, spawns an enemy.
pub const SPAWN_ROLL: i64 = 95;

/// Smallest and largest size of a spawned enemy.
pub const MIN_ENEMY_SIZE: i64 = 1_600;

pub const MAX_ENEMY_SIZE: i64 = 6_400;

/// Slowest and fastest spawned enemy, in units per second.
pub const MIN_ENEMY_SPEED: i64 = 5_000;

pub const MAX_ENEMY_SPEED: i64 = 15_000;

/// Colour of an enemy when the palette has none to offer.
pub const FALLBACK_COLOR: u32 = 0x000000;

/// The enemy colours, from light to dark.
pub open spec fn palette_spec() -> Seq<u32> {
    seq![0xfca78bu32, 0xf6957du32, 0xf0826eu32, 0xea7060u32, 0xe45d51u32, 0xde4b43u32, 0xd83834u32]
}

/// Whether a roll out of a hundred spawns an enemy.
pub open spec fn spawns(roll: int) -> bool {
    roll >= SPAWN_ROLL
}

/// The enemy made from four draws. It starts just above the screen.
pub open spec fn new_enemy(size: i64, x: i64, speed: i64, color: Option<u32>) -> Shape {
    Shape {
        x,
        y: (-size) as i64,
        size,
        speed,
        color: match color {
            Some(c) => c,
            None => FALLBACK_COLOR,
        },
        collided: false,
    }
}

/// What holds of every enemy spawned for a screen of the given width.
pub open spec fn spawn_ok(s: Shape, screen_width: int) -> bool {
    &&& MIN_ENEMY_SIZE <= s.size <= MAX_ENEMY_SIZE
    &&& MIN_ENEMY_SPEED <= s.speed <= MAX_ENEMY_SPEED
    &&& s.y == -s.size
    &&& !s.collided
    &&& palette_spec().contains(s.color) || s.color == FALLBACK_COLOR
    &&& s.size <= screen_width ==> s.size / 2 <= s.x <= screen_width - s.size / 2
    &&& -MAX_ENEMY_SIZE <= s.x <= MAX_SCREEN + 1
}

/// Calls `quad_rand::gen_range` on two integers. Nothing here is proved of
/// it: the contract is what the generator's source gives.
///
/// The generator scales a fraction of `[0, 1)` onto the span from `low` to
/// `high` in double precision and drops what follows the point. Within
/// `RANDOM_LIMIT` that arithmetic is exact, so the draw lies between the
/// two bounds, and below `high` when the bounds are in order and not
/// negative. Which number is drawn is left open.
#[verifier::external_body]
pub(crate) fn random_between(low: i64, high: i64) -> (r: i64)
    requires
        -RANDOM_LIMIT <= low <= RANDOM_LIMIT,
        -RANDOM_LIMIT <= high <= RANDOM_LIMIT,
    ensures
        low <= high ==> low <= r <= high,
        high <= low ==> high <= r <= low,
        0 <= low < high ==> r < high,
{
    quad_rand::gen_range(low, high)
}

/// Calls `quad_rand::ChooseRandom::choose` on the palette. Nothing here is
/// proved of it: the contract is what the generator's source gives.
///
/// The generator draws an index and looks it up, so an empty palette gives
/// nothing, and whatever comes back is one of the palette's entries. Which
/// entry is drawn is left open.
#[verifier::external_body]
pub(crate) fn choose_color(palette: &Vec<u32>) -> (c: Option<u32>)
    ensures
        palette@.len() == 0 ==> c is None,
        c matches Some(v) ==> palette@.contains(v),
{
    quad_rand::ChooseRandom::choose(palette.as_slice()).copied()
}

/// The enemy colours, from light to dark.
pub fn enemy_palette() -> (p: Vec<u32>)
    ensures
        p@ == palette_spec(),
{
    let mut p: Vec<u32> = Vec::new();
    p.push(0xfca78b);
    p.push(0xf6957d);
    p.push(0xf0826e);
    p.push(0xea7060);
    p.push(0xe45d51);
    p.push(0xde4b43);
    p.push(0xd83834);
    assert(p@ =~= palette_spec());
    p
}

/// Draws one whole number from 0 to 99.
pub fn roll_percent() -> (r: i64)
    ensures
        0 <= r < 100,
{
    random_between(0, 100)
}

/// Whether a roll out of a hundred spawns an enemy: five rolls in a
/// hundred do.
pub fn should_spawn(roll: i64) -> (b: bool)
    ensures
        b == spawns(roll as int),
{
    roll >= SPAWN_ROLL
}

/// Makes an enemy from four draws: it starts just above the screen, and
/// takes the fallback colour where none was drawn.
pub fn enemy_from_draws(size: i64, x: i64, speed: i64, color: Option<u32>) -> (e: Shape)
    requires
        size > i64::MIN,
    ensures
        e == new_enemy(size, x, speed, color),
        e.y == -size,
{
    let color: u32 = match color {
        Some(c) => c,
        None => FALLBACK_COLOR,
    };
    Shape { x, y: -size, size, speed, color, collided: false }
}

/// Rolls for a new enemy and, if the roll says so, draws its size, speed,
/// place and colour.
pub fn draw_enemy(screen_width: i64) -> (e: Option<Shape>)
    requires
        0 <= screen_width <= MAX_SCREEN,
    ensures
        e matches Some(s) ==> s.wf() && spawn_ok(s, screen_width as int),
{
    let roll = roll_percent();
    spawn_on_roll(roll, screen_width)
}

/// Spawns an enemy exactly when the roll says so, and then draws its size,
/// speed, place and colour.
pub fn spawn_on_roll(roll: i64, screen_width: i64) -> (e: Option<Shape>)
    requires
        0 <= screen_width <= MAX_SCREEN,
    ensures
        e is Some <==> spawns(roll as int),
        e matches Some(s) ==> s.wf() && spawn_ok(s, screen_width as int),
{
    if !should_spawn(roll) {
        return None;
    }
    let size = random_between(MIN_ENEMY_SIZE, MAX_ENEMY_SIZE + 1);
    let speed = random_between(MIN_ENEMY_SPEED, MAX_ENEMY_SPEED + 1);
    let x = random_between(size / 2, screen_width - size / 2 + 1);
    let palette = enemy_palette();
    let color = choose_color(&palette);
    Some(enemy_from_draws(size, x, speed, color))
}

} // verus!
