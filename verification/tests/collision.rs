//! The overlap test: rectangle intersection by axis projections, with the
//! literal coordinates the design fixes.

use beeline::CollisionRect;

fn rect(cx: i64, cy: i64, w: i64, h: i64) -> CollisionRect {
    CollisionRect::new_rectangle(cx, cy, w, h)
}

#[test]
fn separated_rectangles_do_not_overlap() {
    // Combined half extents are 24; a centre distance of 30 on the x axis
    // keeps them apart.
    let player = rect(0, 0, 24, 24);
    let hazard = rect(30, 0, 24, 24);
    assert!(!player.is_collided_with(&hazard));
}

#[test]
fn near_rectangles_overlap() {
    let player = rect(0, 0, 24, 24);
    let hazard = rect(20, 0, 24, 24);
    assert!(player.is_collided_with(&hazard));
}

#[test]
fn overlap_needs_both_axes() {
    let a = rect(0, 0, 24, 24);
    // Near on x, far on y: the y projections do not meet.
    let b = rect(10, 40, 24, 24);
    assert!(!a.is_collided_with(&b));
    // Far on x, near on y.
    let c = rect(40, 10, 24, 24);
    assert!(!a.is_collided_with(&c));
    // Near on both.
    let d = rect(10, 10, 24, 24);
    assert!(a.is_collided_with(&d));
}

#[test]
fn overlap_is_symmetric() {
    let a = rect(0, 0, 24, 24);
    let b = rect(20, 5, 12, 24);
    assert_eq!(a.is_collided_with(&b), b.is_collided_with(&a));
    let c = rect(200, 5, 12, 24);
    assert_eq!(a.is_collided_with(&c), c.is_collided_with(&a));
}

#[test]
fn recentring_moves_the_shape() {
    let a = rect(0, 0, 24, 24);
    let moved = a.with_center(30, 0);
    assert!(!rect(0, 0, 24, 24).is_collided_with(&moved));
    let back = moved.with_center(6, 0);
    assert!(rect(0, 0, 24, 24).is_collided_with(&back));
}
