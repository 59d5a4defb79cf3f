//! Which picture a shape is drawn with.

use vstd::prelude::*;
use crate::motion::Steering;

verus! {

/// An enemy larger than this is drawn with the large picture.
pub const LARGE_ABOVE: i64 = 4_800;

/// An enemy larger than this is drawn with the medium picture at least.
pub const MEDIUM_ABOVE: i64 = 2_400;

/// How long a turn lasts before the ship leans fully, in milliseconds.
pub const LEAN_AFTER_MS: u64 = 200;

/// The three pictures of an enemy.
#[derive(Clone, Copy, Debug, PartialEq, Eq, Structural)]
pub enum EnemySprite {
    Small,
    Medium,
    Large,
}

/// The five animations of the ship, in the order of their rows in the
/// sprite sheet.
#[derive(Clone, Copy, Debug, PartialEq, Eq, Structural)]
pub enum ShipPose {
    Idle,
    SlightLeft,
    Left,
    SlightRight,
    Right,
}

/// The picture for an enemy of the given size.
pub open spec fn sprite_of(size: int) -> EnemySprite {
    if size > LARGE_ABOVE {
        EnemySprite::Large
    } else if size > MEDIUM_ABOVE {
        EnemySprite::Medium
    } else {
        EnemySprite::Small
    }
}

/// Since when the ship has been turning, after this frame: a released
/// turn key forgets the old turn, and a held one starts a turn where none
/// is under way.
pub open spec fn turn_after(
    since: Option<u64>,
    released: bool,
    keys: Steering,
    now_ms: u64,
) -> Option<u64> {
    let kept = if released {
        None
    } else {
        since
    };
    if (keys.left || keys.right) && kept is None {
        Some(now_ms)
    } else {
        kept
    }
}

/// Whether a turn that began at `since` has lasted long enough for the
/// full lean.
pub open spec fn leans_fully(since: Option<u64>, now_ms: u64) -> bool {
    match since {
        Some(t) => now_ms - t > LEAN_AFTER_MS,
        None => false,
    }
}

/// The animation of the ship: idle while no turn key is held, else a
/// slight or full lean to the side of the key, the left one if both are
/// held.
pub open spec fn pose_of(keys: Steering, since: Option<u64>, now_ms: u64) -> ShipPose {
    if keys.left {
        if leans_fully(since, now_ms) {
            ShipPose::Left
        } else {
            ShipPose::SlightLeft
        }
    } else if keys.right {
        if leans_fully(since, now_ms) {
            ShipPose::Right
        } else {
            ShipPose::SlightRight
        }
    } else {
        ShipPose::Idle
    }
}

/// The picture for an enemy of the given size.
pub fn enemy_sprite(size: i64) -> (s: EnemySprite)
    ensures
        s == sprite_of(size as int),
{
    if size > LARGE_ABOVE {
        EnemySprite::Large
    } else if size > MEDIUM_ABOVE {
        EnemySprite::Medium
    } else {
        EnemySprite::Small
    }
}

/// Since when the ship has been turning, after this frame.
pub fn track_turn(since: Option<u64>, released: bool, keys: &Steering, now_ms: u64) -> (r: Option<
    u64,
>)
    ensures
        r == turn_after(since, released, *keys, now_ms),
{
    let kept: Option<u64> = if released {
        None
    } else {
        since
    };
    if (keys.left || keys.right) && kept.is_none() {
        Some(now_ms)
    } else {
        kept
    }
}

/// The animation of the ship.
pub fn ship_pose(keys: &Steering, since: Option<u64>, now_ms: u64) -> (p: ShipPose)
    ensures
        p == pose_of(*keys, since, now_ms),
{
    let full = match since {
        Some(t) => now_ms > t && now_ms - t > LEAN_AFTER_MS,
        None => false,
    };
    if keys.left {
        if full {
            ShipPose::Left
        } else {
            ShipPose::SlightLeft
        }
    } else if keys.right {
        if full {
            ShipPose::Right
        } else {
            ShipPose::SlightRight
        }
    } else {
        ShipPose::Idle
    }
}

/// The row of an animation in the ship's sprite sheet.
pub fn animation_row(pose: ShipPose) -> (row: usize)
    ensures
        row == (match pose {
            ShipPose::Idle => 0usize,
            ShipPose::SlightLeft => 1usize,
            ShipPose::Left => 2usize,
            ShipPose::SlightRight => 3usize,
            ShipPose::Right => 4usize,
        }),
{
    match pose {
        ShipPose::Idle => 0,
        ShipPose::SlightLeft => 1,
        ShipPose::Left => 2,
        ShipPose::SlightRight => 3,
        ShipPose::Right => 4,
    }
}

} // verus!
