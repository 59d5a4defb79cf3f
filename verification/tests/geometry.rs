use arcade_shooter::geometry::{clamp, travel, Rect, Screen, Shape, MAX_COORD, MAX_SIZE};
use arcade_shooter::motion::{bound, steer, Steering};

fn shape(x_px: i64, y_px: i64, size_px: i64) -> Shape {
    Shape { x: x_px * 100, y: y_px * 100, size: size_px * 100, speed: 0, color: 0, collided: false }
}

#[test]
fn fully_overlapping_shapes_collide() {
    let ship = shape(100, 100, 32);
    let enemy = shape(100, 100, 16);
    assert!(ship.collides_with(&enemy));
}

#[test]
fn disjoint_shapes_do_not_collide() {
    let ship = shape(0, 0, 32);
    let enemy = shape(200, 200, 16);
    assert!(!ship.collides_with(&enemy));
}

#[test]
fn collision_is_symmetric() {
    let places = [-50i64, 0, 10, 23, 24, 25, 40, 300];
    let a = shape(0, 0, 32);
    for &x in places.iter() {
        for &y in places.iter() {
            let b = shape(x, y, 16);
            assert_eq!(a.collides_with(&b), b.collides_with(&a));
        }
    }
}

#[test]
fn touching_edges_do_not_collide() {
    let a = shape(0, 0, 32);
    // Half sizes are 16 and 8: the boxes touch at a distance of 24.
    assert!(!a.collides_with(&shape(24, 0, 16)));
    assert!(!a.collides_with(&shape(0, 24, 16)));
    assert!(!a.collides_with(&shape(-24, 0, 16)));
    let mut near = shape(24, 0, 16);
    near.x -= 1;
    assert!(a.collides_with(&near));
}

#[test]
fn overlap_needs_both_axes() {
    let a = shape(0, 0, 32);
    assert!(!a.collides_with(&shape(0, 100, 16)));
    assert!(!a.collides_with(&shape(100, 0, 16)));
    assert!(a.collides_with(&shape(10, -10, 16)));
}

#[test]
fn odd_sizes_are_exact() {
    let a = Shape { x: 0, y: 0, size: 3, speed: 0, color: 0, collided: false };
    let b = Shape { x: 2, y: 0, size: 1, speed: 0, color: 0, collided: false };
    // Half sizes 1.5 and 0.5: they touch at a distance of 2.
    assert!(!a.collides_with(&b));
    let c = Shape { x: 2, y: 0, size: 2, speed: 0, color: 0, collided: false };
    assert!(a.collides_with(&c));
}

#[test]
fn rect_is_centred_on_the_shape() {
    let s = shape(100, 50, 32);
    let r = s.rect();
    assert_eq!(r, Rect { left: 2 * 10_000 - 3_200, top: 2 * 5_000 - 3_200, width: 6_400, height: 6_400 });
}

#[test]
fn rect_overlap_is_strict() {
    let a = Rect { left: 0, top: 0, width: 10, height: 10 };
    assert!(a.overlaps(&Rect { left: 9, top: 9, width: 10, height: 10 }));
    assert!(!a.overlaps(&Rect { left: 10, top: 0, width: 10, height: 10 }));
    assert!(!a.overlaps(&Rect { left: 0, top: 10, width: 10, height: 10 }));
    assert!(!a.overlaps(&Rect { left: -10, top: 0, width: 10, height: 10 }));
}

#[test]
fn rect_overlap_at_the_limits_of_the_type() {
    let a = Rect { left: i64::MAX, top: i64::MAX, width: i64::MAX, height: i64::MAX };
    let b = Rect { left: i64::MIN, top: i64::MIN, width: 1, height: 1 };
    assert!(!a.overlaps(&b));
    assert!(a.overlaps(&a));
}

#[test]
fn clamp_bounds_a_value() {
    assert_eq!(clamp(5, 10, 20), 10);
    assert_eq!(clamp(25, 10, 20), 20);
    assert_eq!(clamp(15, 10, 20), 15);
    assert_eq!(clamp(10, 10, 20), 10);
    assert_eq!(clamp(20, 10, 20), 20);
}

#[test]
fn clamp_is_idempotent() {
    for v in -30i64..60 {
        let once = clamp(v, 10, 20);
        assert_eq!(clamp(once, 10, 20), once);
    }
}

#[test]
fn clamp_with_bounds_out_of_order_tests_the_lower_first() {
    assert_eq!(clamp(0, 10, 5), 10);
    assert_eq!(clamp(10, 10, 5), 5);
    assert_eq!(clamp(7, 10, 5), 10);
}

#[test]
fn travel_is_speed_times_time() {
    assert_eq!(travel(20_000, 16), 320);
    assert_eq!(travel(20_000, 1_000), 20_000);
    assert_eq!(travel(5_000, 0), 0);
    assert_eq!(travel(999, 1), 0);
    assert_eq!(travel(1_000_000_000, 1_000_000), MAX_COORD);
}

#[test]
fn validity_of_shapes_and_screens() {
    assert!(shape(0, 0, 32).is_valid());
    assert!(!Shape { size: 0, ..shape(0, 0, 32) }.is_valid());
    assert!(!Shape { size: MAX_SIZE + 1, ..shape(0, 0, 32) }.is_valid());
    assert!(!Shape { speed: -1, ..shape(0, 0, 32) }.is_valid());
    assert!(!Shape { x: MAX_COORD + 1, ..shape(0, 0, 32) }.is_valid());
    assert!(!Shape { y: -MAX_COORD - 1, ..shape(0, 0, 32) }.is_valid());
    assert!(Screen { width: 80_000, height: 60_000 }.is_valid());
    assert!(!Screen { width: -1, height: 60_000 }.is_valid());
    assert!(!Screen { width: 0, height: 1_000_001 }.is_valid());
}

#[test]
fn ship_is_kept_on_the_screen() {
    let screen = Screen { width: 80_000, height: 60_000 };
    let mut ship = shape(0, 0, 32);
    ship.speed = 20_000;
    let r = bound(&ship, &screen);
    assert_eq!((r.x, r.y), (3_200, 3_200));
    ship.x = 100_000;
    ship.y = 100_000;
    let r = bound(&ship, &screen);
    assert_eq!((r.x, r.y), (80_000 - 3_200, 60_000 - 3_200));
    ship.x = 40_000;
    ship.y = 30_000;
    assert_eq!(bound(&ship, &screen), ship);
}

#[test]
fn bounding_twice_is_bounding_once() {
    let screen = Screen { width: 80_000, height: 60_000 };
    for x in [-500_000i64, 0, 3_199, 3_200, 40_000, 76_800, 76_801, 900_000] {
        for y in [-1i64, 3_200, 56_800, 60_000] {
            let ship = Shape { x, y, size: 3_200, speed: 20_000, color: 0, collided: false };
            let once = bound(&ship, &screen);
            assert_eq!(bound(&once, &screen), once);
        }
    }
}

#[test]
fn bounding_on_a_screen_too_small_is_not_idempotent() {
    let screen = Screen { width: 5_000, height: 60_000 };
    let ship = Shape { x: 0, y: 30_000, size: 3_200, speed: 20_000, color: 0, collided: false };
    let once = bound(&ship, &screen);
    assert_eq!(once.x, 3_200);
    let twice = bound(&once, &screen);
    assert_eq!(twice.x, 1_800);
}

#[test]
fn steering_moves_by_speed_and_time() {
    let screen = Screen { width: 80_000, height: 60_000 };
    let ship = Shape { x: 40_000, y: 30_000, size: 3_200, speed: 20_000, color: 7, collided: false };
    let none = Steering { left: false, right: false, up: false, down: false };
    assert_eq!(steer(&ship, &none, &screen, 16), ship);
    let r = steer(&ship, &Steering { right: true, ..none }, &screen, 16);
    assert_eq!((r.x, r.y), (40_320, 30_000));
    let r = steer(&ship, &Steering { left: true, up: true, ..none }, &screen, 100);
    assert_eq!((r.x, r.y), (38_000, 28_000));
    let r = steer(&ship, &Steering { down: true, ..none }, &screen, 1_000);
    assert_eq!((r.x, r.y), (40_000, 50_000));
    let r = steer(&ship, &Steering { left: true, right: true, up: true, down: true }, &screen, 500);
    assert_eq!(r, ship);
    let r = steer(&ship, &Steering { right: true, down: true, ..none }, &screen, 10_000);
    assert_eq!((r.x, r.y), (76_800, 56_800));
}
