//! How a frame moves the ship, the enemies and the bullets.

use vstd::prelude::*;
use crate::geometry::{
    all_wf, clamp, clamped, lemma_travel_bounds, none_collided, travel, travel_of, Screen, Shape,
    MAX_COORD, MAX_FRAME_MS, MAX_SCREEN, MAX_SPEED,
};

verus! {

/// Least time between two shots, in milliseconds.
pub const FIRE_COOLDOWN_MS: u64 = 250;

/// Edge length of a bullet.
pub const BULLET_SIZE: i64 = 3_200;

/// How far above the ship's centre a bullet starts.
pub const BULLET_OFFSET: i64 = 2_400;

/// Colour of a bullet.
pub const BULLET_COLOR: u32 = 0xffffff;

/// The keys that steer the ship.
#[derive(Clone, Copy, Debug, PartialEq, Eq, Structural)]
pub struct Steering {
    pub left: bool,
    pub right: bool,
    pub up: bool,
    pub down: bool,
}

/// The ship after `dt_ms` milliseconds under the given keys: moved by its
/// speed along each axis whose key is held, then kept on the screen, a
/// full size away from every edge.
pub open spec fn steered(ship: Shape, keys: Steering, screen: Screen, dt_ms: int) -> Shape {
    let step = travel_of(ship.speed as int, dt_ms);
    let x = ship.x + (if keys.right {
        step
    } else {
        0
    }) - (if keys.left {
        step
    } else {
        0
    });
    let y = ship.y + (if keys.down {
        step
    } else {
        0
    }) - (if keys.up {
        step
    } else {
        0
    });
    bounded(Shape { x: x as i64, y: y as i64, ..ship }, screen)
}

/// The ship kept on the screen, a full size away from every edge.
pub open spec fn bounded(ship: Shape, screen: Screen) -> Shape {
    Shape {
        x: clamped(ship.x as int, ship.size as int, screen.width - ship.size) as i64,
        y: clamped(ship.y as int, ship.size as int, screen.height - ship.size) as i64,
        ..ship
    }
}

/// Whether a shot may follow the last one.
pub open spec fn cooled_down(last_shot: Option<u64>, now_ms: u64) -> bool {
    match last_shot {
        None => true,
        Some(t) => now_ms - t >= FIRE_COOLDOWN_MS,
    }
}

/// The bullet that the ship fires: it starts above the ship's centre and
/// flies twice as fast as the ship moves.
pub open spec fn bullet_of(ship: Shape) -> Shape {
    Shape {
        x: ship.x,
        y: (ship.y - BULLET_OFFSET) as i64,
        size: BULLET_SIZE,
        speed: (2 * ship.speed) as i64,
        color: BULLET_COLOR,
        collided: false,
    }
}

/// A shape moved down the screen for `dt_ms` milliseconds.
pub open spec fn fall(dt_ms: int) -> spec_fn(Shape) -> Shape {
    |s: Shape| Shape { y: (s.y + travel_of(s.speed as int, dt_ms)) as i64, ..s }
}

/// A shape moved up the screen for `dt_ms` milliseconds.
pub open spec fn rise(dt_ms: int) -> spec_fn(Shape) -> Shape {
    |s: Shape| Shape { y: (s.y - travel_of(s.speed as int, dt_ms)) as i64, ..s }
}

/// The shapes that have not yet left through the bottom of the screen.
pub open spec fn above_bottom(screen_height: int) -> spec_fn(Shape) -> bool {
    |s: Shape| s.y < screen_height + s.size
}

/// The shapes that have not yet left through the top of the screen.
pub open spec fn below_top() -> spec_fn(Shape) -> bool {
    |s: Shape| 2 * s.y > -s.size
}

/// The enemies after a frame of falling, without those that left the
/// screen.
pub open spec fn enemies_moved(enemies: Seq<Shape>, dt_ms: int, screen_height: int) -> Seq<
    Shape,
> {
    enemies.map_values(fall(dt_ms)).filter(above_bottom(screen_height))
}

/// The bullets after a frame of rising, without those that left the
/// screen.
pub open spec fn bullets_moved(bullets: Seq<Shape>, dt_ms: int) -> Seq<Shape> {
    bullets.map_values(rise(dt_ms)).filter(below_top())
}

/// Keeps the ship on the screen, a full size away from every edge.
pub fn bound(ship: &Shape, screen: &Screen) -> (r: Shape)
    requires
        ship.wf(),
        screen.wf(),
    ensures
        r == bounded(*ship, *screen),
        r.wf(),
        r.size <= r.x <= screen.width - r.size || r.x == r.size || r.x == screen.width - r.size,
        r.size <= r.y <= screen.height - r.size || r.y == r.size || r.y == screen.height
            - r.size,
{
    Shape {
        x: clamp(ship.x, ship.size, screen.width - ship.size),
        y: clamp(ship.y, ship.size, screen.height - ship.size),
        ..*ship
    }
}

/// Moves the ship for one frame under the given keys and keeps it on the
/// screen.
pub fn steer(ship: &Shape, keys: &Steering, screen: &Screen, dt_ms: u64) -> (r: Shape)
    requires
        ship.wf(),
        screen.wf(),
        dt_ms <= MAX_FRAME_MS,
    ensures
        r == steered(*ship, *keys, *screen, dt_ms as int),
        r.wf(),
        r.size == ship.size,
        r.speed == ship.speed,
        r.collided == ship.collided,
        -ship.size <= r.y,
{
    let step = travel(ship.speed, dt_ms);
    let mut x: i64 = ship.x;
    let mut y: i64 = ship.y;
    if keys.right {
        x = x + step;
    }
    if keys.left {
        x = x - step;
    }
    if keys.down {
        y = y + step;
    }
    if keys.up {
        y = y - step;
    }
    Shape {
        x: clamp(x, ship.size, screen.width - ship.size),
        y: clamp(y, ship.size, screen.height - ship.size),
        ..*ship
    }
}

/// Whether a shot may follow the last one: there was none, or at least
/// the cooldown has passed since.
pub fn may_fire(last_shot: Option<u64>, now_ms: u64) -> (b: bool)
    ensures
        b == cooled_down(last_shot, now_ms),
{
    match last_shot {
        None => true,
        Some(t) => now_ms >= t && now_ms - t >= FIRE_COOLDOWN_MS,
    }
}

/// The bullet that the ship fires.
pub fn bullet_from(ship: &Shape) -> (b: Shape)
    requires
        ship.wf(),
        2 * ship.speed <= MAX_SPEED,
        ship.y >= BULLET_OFFSET - MAX_COORD,
    ensures
        b == bullet_of(*ship),
        b.wf(),
        !b.collided,
{
    Shape {
        x: ship.x,
        y: ship.y - BULLET_OFFSET,
        size: BULLET_SIZE,
        speed: 2 * ship.speed,
        color: BULLET_COLOR,
        collided: false,
    }
}

/// Moves every enemy down for one frame and drops those that have left
/// the screen: an enemy stays while its centre is less than its size below
/// the bottom edge.
pub fn advance_enemies(enemies: &mut Vec<Shape>, dt_ms: u64, screen_height: i64)
    requires
        all_wf(old(enemies)@),
        dt_ms <= MAX_FRAME_MS,
        0 <= screen_height <= MAX_SCREEN,
    ensures
        final(enemies)@ == enemies_moved(old(enemies)@, dt_ms as int, screen_height as int),
        all_wf(final(enemies)@),
        none_collided(old(enemies)@) ==> none_collided(final(enemies)@),
{
    let ghost moved = enemies@.map_values(fall(dt_ms as int));
    let ghost keep = above_bottom(screen_height as int);
    let mut kept: Vec<Shape> = Vec::new();
    let mut i: usize = 0;
    proof {
        assert(moved.take(0) =~= Seq::<Shape>::empty());
        assert(Seq::<Shape>::empty().filter(keep) =~= Seq::<Shape>::empty()) by {
            reveal(Seq::filter);
        }
    }
    while i < enemies.len()
        invariant
            i <= enemies.len(),
            dt_ms <= MAX_FRAME_MS,
            0 <= screen_height <= MAX_SCREEN,
            all_wf(enemies@),
            moved == enemies@.map_values(fall(dt_ms as int)),
            keep == above_bottom(screen_height as int),
            kept@ == moved.take(i as int).filter(keep),
            all_wf(kept@),
            none_collided(enemies@) ==> none_collided(kept@),
        decreases enemies.len() - i,
    {
        let s = enemies[i];
        let next = Shape { y: s.y + travel(s.speed, dt_ms), ..s };
        proof {
            assert(next == moved[i as int]);
            moved.take(i as int).lemma_filter_push(next, keep);
            assert(moved.take(i + 1) =~= moved.take(i as int).push(next));
        }
        if next.y < screen_height + next.size {
            kept.push(next);
        }
        i += 1;
    }
    assert(moved.take(enemies.len() as int) =~= moved);
    *enemies = kept;
}

/// Moves every bullet up for one frame and drops those that have left the
/// screen: a bullet stays while its centre is less than half its size
/// above the top edge.
pub fn advance_bullets(bullets: &mut Vec<Shape>, dt_ms: u64)
    requires
        all_wf(old(bullets)@),
        dt_ms <= MAX_FRAME_MS,
    ensures
        final(bullets)@ == bullets_moved(old(bullets)@, dt_ms as int),
        all_wf(final(bullets)@),
        none_collided(old(bullets)@) ==> none_collided(final(bullets)@),
{
    let ghost moved = bullets@.map_values(rise(dt_ms as int));
    let ghost keep = below_top();
    let mut kept: Vec<Shape> = Vec::new();
    let mut i: usize = 0;
    proof {
        assert(moved.take(0) =~= Seq::<Shape>::empty());
        assert(Seq::<Shape>::empty().filter(keep) =~= Seq::<Shape>::empty()) by {
            reveal(Seq::filter);
        }
    }
    while i < bullets.len()
        invariant
            i <= bullets.len(),
            dt_ms <= MAX_FRAME_MS,
            all_wf(bullets@),
            moved == bullets@.map_values(rise(dt_ms as int)),
            keep == below_top(),
            kept@ == moved.take(i as int).filter(keep),
            all_wf(kept@),
            none_collided(bullets@) ==> none_collided(kept@),
        decreases bullets.len() - i,
    {
        let s = bullets[i];
        let next = Shape { y: s.y - travel(s.speed, dt_ms), ..s };
        proof {
            assert(next == moved[i as int]);
            moved.take(i as int).lemma_filter_push(next, keep);
            assert(moved.take(i + 1) =~= moved.take(i as int).push(next));
        }
        if 2 * next.y > -next.size {
            kept.push(next);
        }
        i += 1;
    }
    assert(moved.take(bullets.len() as int) =~= moved);
    *bullets = kept;
}

/// Enemies that were well formed and unflagged are so after their move.
pub proof fn lemma_enemies_moved_wf(enemies: Seq<Shape>, dt_ms: int, screen_height: int)
    requires
        all_wf(enemies),
        0 <= dt_ms <= MAX_FRAME_MS,
        0 <= screen_height <= MAX_SCREEN,
    ensures
        all_wf(enemies_moved(enemies, dt_ms, screen_height)),
        none_collided(enemies) ==> none_collided(enemies_moved(enemies, dt_ms, screen_height)),
{
    let moved = enemies.map_values(fall(dt_ms));
    let keep = above_bottom(screen_height);
    let kept = moved.filter(keep);
    assert forall|k: int| 0 <= k < kept.len() implies (#[trigger] kept[k]).wf() && (none_collided(
        enemies,
    ) ==> !kept[k].collided) by {
        moved.lemma_filter_pred(keep, k);
        assert(kept.contains(kept[k]));
        moved.lemma_filter_contains_rev(keep, kept[k]);
        let at = choose|at: int| 0 <= at < moved.len() && moved[at] == kept[k];
        assert(enemies[at].wf());
        lemma_travel_bounds(enemies[at].speed as int, dt_ms);
    }
}

/// Bullets that were well formed and unflagged are so after their move.
pub proof fn lemma_bullets_moved_wf(bullets: Seq<Shape>, dt_ms: int)
    requires
        all_wf(bullets),
        0 <= dt_ms <= MAX_FRAME_MS,
    ensures
        all_wf(bullets_moved(bullets, dt_ms)),
        none_collided(bullets) ==> none_collided(bullets_moved(bullets, dt_ms)),
{
    let moved = bullets.map_values(rise(dt_ms));
    let keep = below_top();
    let kept = moved.filter(keep);
    assert forall|k: int| 0 <= k < kept.len() implies (#[trigger] kept[k]).wf() && (none_collided(
        bullets,
    ) ==> !kept[k].collided) by {
        moved.lemma_filter_pred(keep, k);
        assert(kept.contains(kept[k]));
        moved.lemma_filter_contains_rev(keep, kept[k]);
        let at = choose|at: int| 0 <= at < moved.len() && moved[at] == kept[k];
        assert(bullets[at].wf());
        lemma_travel_bounds(bullets[at].speed as int, dt_ms);
    }
}

/// A well-formed ship is well formed after steering, and no further above
/// the screen than its own size.
pub proof fn lemma_steered_wf(ship: Shape, keys: Steering, screen: Screen, dt_ms: int)
    requires
        ship.wf(),
        screen.wf(),
        0 <= dt_ms <= MAX_FRAME_MS,
    ensures
        steered(ship, keys, screen, dt_ms).wf(),
        steered(ship, keys, screen, dt_ms).size == ship.size,
        steered(ship, keys, screen, dt_ms).speed == ship.speed,
        steered(ship, keys, screen, dt_ms).collided == ship.collided,
        steered(ship, keys, screen, dt_ms).y >= -ship.size,
{
    lemma_travel_bounds(ship.speed as int, dt_ms);
}

/// Keeping the ship on the screen twice is keeping it there once, on a
/// screen that has room for it.
pub proof fn lemma_bounded_idempotent(ship: Shape, screen: Screen)
    requires
        ship.wf(),
        screen.wf(),
        2 * ship.size <= screen.width,
        2 * ship.size <= screen.height,
    ensures
        bounded(bounded(ship, screen), screen) == bounded(ship, screen),
{
}

} // verus!
