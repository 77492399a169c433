//! Pursuit math: exact headings, convergence on a stationary target, and
//! the ballistic law's indifference to anything but heading and speed.

use beeline::geom::Vec2;
use beeline::pursue::{ballistic, pursue};

fn dist_sq(a: Vec2, b: Vec2) -> i64 {
    let dx = a.x - b.x;
    let dy = a.y - b.y;
    dx * dx + dy * dy
}

#[test]
fn pursue_aims_straight_at_the_target() {
    let v = pursue(Vec2 { x: 0, y: 0 }, Vec2 { x: 100, y: 0 }, 400);
    assert_eq!(v, Vec2 { x: 400, y: 0 });
    let v = pursue(Vec2 { x: 0, y: 0 }, Vec2 { x: 3, y: 4 }, 100);
    assert_eq!(v, Vec2 { x: 60, y: 80 });
    let v = pursue(Vec2 { x: 3, y: 4 }, Vec2 { x: 0, y: 0 }, 100);
    assert_eq!(v, Vec2 { x: -60, y: -80 });
}

#[test]
fn pursue_at_the_target_is_zero() {
    let v = pursue(Vec2 { x: 7, y: -9 }, Vec2 { x: 7, y: -9 }, 400);
    assert_eq!(v, Vec2 { x: 0, y: 0 });
}

#[test]
fn pursue_converges_on_a_stationary_target() {
    // One step's travel per application; the squared distance must fall
    // strictly every step until the target is within one step.
    let target = Vec2 { x: 0, y: 0 };
    let mut pos = Vec2 { x: 300, y: 400 };
    let step: i64 = 50;
    let mut d2 = dist_sq(pos, target);
    let mut steps = 0;
    while d2 > step * step {
        let v = pursue(pos, target, step);
        pos = Vec2 { x: pos.x + v.x, y: pos.y + v.y };
        let nd2 = dist_sq(pos, target);
        assert!(nd2 < d2, "distance did not shrink at step {steps}");
        d2 = nd2;
        steps += 1;
        assert!(steps < 100, "did not converge");
    }
}

#[test]
fn ballistic_scales_the_heading() {
    let v = ballistic(Vec2 { x: 1000, y: 0 }, 300);
    assert_eq!(v, Vec2 { x: 300, y: 0 });
    let v = ballistic(Vec2 { x: 0, y: -1000 }, 300);
    assert_eq!(v, Vec2 { x: 0, y: -300 });
    let v = ballistic(Vec2 { x: 600, y: 800 }, 100);
    assert_eq!(v, Vec2 { x: 60, y: 80 });
}

#[test]
fn ballistic_ignores_everything_but_heading_and_speed() {
    // The same heading and speed give the identical vector, whatever else
    // is going on in the world; the heading never flips sign.
    let heading = Vec2 { x: 707, y: -707 };
    let first = ballistic(heading, 300);
    for _ in 0..10 {
        assert_eq!(ballistic(heading, 300), first);
    }
    assert!(first.x > 0 && first.y < 0);
}
