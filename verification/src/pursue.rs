//! Pursuit math: the two motion laws that drive projectiles.
//!
//! `pursue` aims directly at the target's current position (no prediction of
//! target motion) at a given speed; it is recomputed every tick, so the
//! heading continuously re-aims as the target moves. `ballistic` scales a
//! heading fixed at spawn time to a given speed and ignores everything else.
//!
//! Both return a velocity vector to be integrated by multiplying by elapsed
//! time. Vectors live in integer world units; a heading of magnitude `m` is
//! produced by scaling each component by `m` and dividing by the integer
//! length of the displacement, rounding each component toward zero.

use vstd::prelude::*;
use vstd::arithmetic::div_mod::{
    lemma_fundamental_div_mod, lemma_mod_division_less_than_divisor,
    lemma_div_is_ordered, lemma_div_multiples_vanish, lemma_div_non_zero, lemma_div_pos_is_pos,
};
use crate::geom::{abs64, abs_int, isqrt, isqrt_spec, lemma_isqrt_bounds, sign_int, Vec2, WORLD_LIMIT};

verus! {

/// Speeds and per-step travel distances handed to the pursuit math stay
/// within this bound, so scaled components fit in `i64`.
pub const SPEED_LIMIT: i64 = 0x10_0000;

/// One component of a displacement `(dx, dy)` scaled to overall magnitude
/// `m`: the component's share `|c| * m / d` of the magnitude, with the
/// component's own sign, where `d` is the integer length of the displacement.
pub open spec fn scaled_component(c: int, m: int, d: int) -> int
    recommends
        d > 0,
{
    sign_int(c) * ((abs_int(c) * m) / d)
}

/// The vector of magnitude (up to rounding) `m` in the direction of
/// `(dx, dy)`; the zero displacement yields the zero vector.
pub open spec fn spec_heading(dx: int, dy: int, m: int) -> (int, int) {
    let d = isqrt_spec((dx * dx + dy * dy) as nat) as int;
    if d == 0 {
        (0, 0)
    } else {
        (scaled_component(dx, m, d), scaled_component(dy, m, d))
    }
}

/// Each absolute component of a displacement is at most the displacement's
/// integer length.
pub(crate) proof fn lemma_component_le_norm(dx: int, dy: int)
    ensures
        abs_int(dx) <= isqrt_spec((dx * dx + dy * dy) as nat),
        abs_int(dy) <= isqrt_spec((dx * dx + dy * dy) as nat),
{
    let ax = abs_int(dx);
    let ay = abs_int(dy);
    let n = (dx * dx + dy * dy) as nat;
    assert(dx * dx == ax * ax && dy * dy == ay * ay) by (nonlinear_arith)
        requires
            (ax == dx || ax == -dx) && (ay == dy || ay == -dy),
    ;
    let d = isqrt_spec(n);
    lemma_isqrt_bounds(n);
    if ax > d {
        assert(ax * ax >= (d + 1) * (d + 1)) by (nonlinear_arith)
            requires
                ax >= d + 1,
                d >= 0,
        ;
        assert(ay * ay >= 0) by (nonlinear_arith);
    }
    if ay > d {
        assert(ay * ay >= (d + 1) * (d + 1)) by (nonlinear_arith)
            requires
                ay >= d + 1,
                d >= 0,
        ;
        assert(ax * ax >= 0) by (nonlinear_arith);
    }
}

/// Scale a displacement to magnitude `m`, rounding components toward zero.
fn heading_scaled(dx: i64, dy: i64, m: i64) -> (v: Vec2)
    requires
        -2 * WORLD_LIMIT <= dx <= 2 * WORLD_LIMIT,
        -2 * WORLD_LIMIT <= dy <= 2 * WORLD_LIMIT,
        0 <= m <= SPEED_LIMIT,
    ensures
        (v.x as int, v.y as int) == spec_heading(dx as int, dy as int, m as int),
        v.wf(),
{
    let ax = abs64(dx);
    let ay = abs64(dy);
    proof {
        assert(ax * ax + ay * ay < 0x1000_0000_0000 && (dx as int) * (dx as int) == (
        ax as int) * (ax as int) && (dy as int) * (dy as int) == (ay as int) * (ay as int))
            by (nonlinear_arith)
            requires
                ax == abs_int(dx as int),
                ay == abs_int(dy as int),
                -0x20_0000 <= dx <= 0x20_0000,
                -0x20_0000 <= dy <= 0x20_0000,
        ;
    }
    let n = ax * ax + ay * ay;
    let d = isqrt(n);
    if d == 0 {
        Vec2::new(0, 0)
    } else {
        proof {
            lemma_component_le_norm(dx as int, dy as int);
            assert(d < 0x40_0000) by (nonlinear_arith)
                requires
                    0 <= d,
                    d * d < 0x1000_0000_0000,
            ;
            assert(ax * (m as u64) <= d * (m as u64) && d * (m as u64) < 0x8000_0000_0000_0000)
                by (nonlinear_arith)
                requires
                    0 < d <= 0x4000_0000,
                    ax <= d,
                    0 <= (m as u64) <= 0x10_0000,
            ;
            assert(ay * (m as u64) <= d * (m as u64)) by (nonlinear_arith)
                requires
                    d > 0,
                    ay <= d,
                    (m as u64) >= 0,
            ;
            lemma_div_pos_is_pos((ax * (m as u64)) as int, d as int);
            lemma_div_is_ordered((ax * (m as u64)) as int, (d * (m as u64)) as int, d as int);
            lemma_div_multiples_vanish(m as int, d as int);
            lemma_div_pos_is_pos((ay * (m as u64)) as int, d as int);
            lemma_div_is_ordered((ay * (m as u64)) as int, (d * (m as u64)) as int, d as int);
        }
        let vx_mag = ax * m as u64 / d;
        let vy_mag = ay * m as u64 / d;
        proof {
            vstd::arithmetic::div_mod::lemma_div_of0(d as int);
            assert(vx_mag == (abs_int(dx as int) * (m as int)) / (d as int));
            assert(vy_mag == (abs_int(dy as int) * (m as int)) / (d as int));
            if dx == 0 {
                assert(abs_int(dx as int) * (m as int) == 0) by (nonlinear_arith)
                    requires
                        abs_int(dx as int) == 0,
                ;
            }
            if dy == 0 {
                assert(abs_int(dy as int) * (m as int) == 0) by (nonlinear_arith)
                    requires
                        abs_int(dy as int) == 0,
                ;
            }
        }
        let vx: i64 = if dx < 0 { -(vx_mag as i64) } else { vx_mag as i64 };
        let vy: i64 = if dy < 0 { -(vy_mag as i64) } else { vy_mag as i64 };
        Vec2::new(vx, vy)
    }
}

/// The velocity that closes on a stationary target: aim from `pos` straight
/// at `target` at magnitude `speed`. Returns the zero vector when already at
/// the target.
pub fn pursue(pos: Vec2, target: Vec2, speed: i64) -> (v: Vec2)
    requires
        pos.wf(),
        target.wf(),
        0 <= speed <= SPEED_LIMIT,
    ensures
        (v.x as int, v.y as int) == spec_heading(
            target.x - pos.x,
            target.y - pos.y,
            speed as int,
        ),
        v.wf(),
{
    heading_scaled(target.x - pos.x, target.y - pos.y, speed)
}

/// The velocity of a projectile with a heading fixed at spawn time: the
/// heading scaled to magnitude `speed`. It reads nothing but its two
/// arguments — in particular neither the projectile's nor any target's
/// position.
pub fn ballistic(heading: Vec2, speed: i64) -> (v: Vec2)
    requires
        heading.wf(),
        0 <= speed <= SPEED_LIMIT,
    ensures
        (v.x as int, v.y as int) == spec_heading(heading.x as int, heading.y as int, speed as int),
        v.wf(),
{
    heading_scaled(heading.x, heading.y, speed)
}

/// For a displacement with larger component `a` and smaller component `b`,
/// a step of travel `m` toward the target moves the larger component by at
/// least one unit and neither component past zero, so the squared distance
/// strictly shrinks.
proof fn lemma_step_shrinks(a: int, b: int, d: int, m: int)
    requires
        a >= b >= 0,
        d * d <= a * a + b * b,
        a <= d,
        b <= d,
        2 <= m <= d,
    ensures
        1 <= (a * m) / d <= a,
        0 <= (b * m) / d <= b,
        (a - (a * m) / d) * (a - (a * m) / d) + (b - (b * m) / d) * (b - (b * m) / d) < a * a + b
            * b,
{
    let va = (a * m) / d;
    let vb = (b * m) / d;
    assert(a * m >= 0 && b * m >= 0 && a * m <= a * d && b * m <= b * d) by (nonlinear_arith)
        requires
            a >= 0 && b >= 0 && 0 <= m <= d,
    ;
    lemma_div_pos_is_pos(a * m, d);
    lemma_div_pos_is_pos(b * m, d);
    lemma_div_is_ordered(a * m, a * d, d);
    lemma_div_is_ordered(b * m, b * d, d);
    lemma_div_multiples_vanish(a, d);
    lemma_div_multiples_vanish(b, d);
    assert(a * d == d * a && b * d == d * b) by (nonlinear_arith);
    assert(va <= a && vb <= b);
    // The larger component covers at least half the distance, so its share
    // of a travel of two or more is at least one unit.
    assert(2 * a >= d) by (nonlinear_arith)
        requires
            a >= b >= 0,
            d * d <= a * a + b * b,
            d >= 2,
    ;
    assert(a * m >= d) by (nonlinear_arith)
        requires
            m >= 2,
            a >= 0,
            2 * a >= d,
    ;
    lemma_div_non_zero(a * m, d);
    assert((a - va) * (a - va) < a * a) by (nonlinear_arith)
        requires
            1 <= va <= a,
    ;
    assert((b - vb) * (b - vb) <= b * b) by (nonlinear_arith)
        requires
            0 <= vb <= b,
    ;
}

/// Direct-intercept convergence: while a stationary target is at least one
/// step's travel away (and the step covers at least two units), applying the
/// pursuit vector as one step of motion strictly decreases the squared
/// distance to the target.
pub proof fn lemma_pursue_converges(dx: int, dy: int, m: int)
    requires
        2 <= m,
        m <= isqrt_spec((dx * dx + dy * dy) as nat),
    ensures
        ({
            let (vx, vy) = spec_heading(dx, dy, m);
            (dx - vx) * (dx - vx) + (dy - vy) * (dy - vy) < dx * dx + dy * dy
        }),
{
    let n = (dx * dx + dy * dy) as nat;
    let d = isqrt_spec(n) as int;
    lemma_isqrt_bounds(n);
    lemma_component_le_norm(dx, dy);
    let ax = abs_int(dx);
    let ay = abs_int(dy);
    assert(dx * dx == ax * ax && dy * dy == ay * ay) by (nonlinear_arith)
        requires
            (ax == dx || ax == -dx) && (ay == dy || ay == -dy),
    ;
    let vxm = (ax * m) / d;
    let vym = (ay * m) / d;
    let (vx, vy) = spec_heading(dx, dy, m);
    if ax >= ay {
        lemma_step_shrinks(ax, ay, d, m);
    } else {
        lemma_step_shrinks(ay, ax, d, m);
    }
    assert((dx - vx) * (dx - vx) == (ax - vxm) * (ax - vxm)) by (nonlinear_arith)
        requires
            (dx == ax && vx == vxm) || (dx == -ax && vx == -vxm),
    ;
    assert((dy - vy) * (dy - vy) == (ay - vym) * (ay - vym)) by (nonlinear_arith)
        requires
            (dy == ay && vy == vym) || (dy == -ay && vy == -vym),
    ;
}

/// Ballistic invariance: the scaled vector never turns against the fixed
/// heading on either axis, and it is collinear with the heading up to less
/// than one unit of rounding per component — the deviation `vx * hy - vy *
/// hx` from exact collinearity stays below the heading's larger component.
/// The vector is a function of the heading and the speed alone: no position
/// or target enters `spec_heading(hx, hy, m)`.
pub proof fn lemma_ballistic_heading(hx: int, hy: int, m: int)
    requires
        m >= 0,
    ensures
        ({
            let (vx, vy) = spec_heading(hx, hy, m);
            vx * hx >= 0 && vy * hy >= 0 && abs_int(vx * hy - vy * hx) <= (if abs_int(hx)
                >= abs_int(hy) {
                abs_int(hx)
            } else {
                abs_int(hy)
            })
        }),
{
    let n = (hx * hx + hy * hy) as nat;
    let d = isqrt_spec(n) as int;
    lemma_isqrt_bounds(n);
    let ax = abs_int(hx);
    let ay = abs_int(hy);
    let (vx, vy) = spec_heading(hx, hy, m);
    if d == 0 {
        assert(vx * hx == 0 && vy * hy == 0 && vx * hy - vy * hx == 0) by (nonlinear_arith)
            requires
                vx == 0 && vy == 0,
        ;
    } else {
        let vxm = (ax * m) / d;
        let vym = (ay * m) / d;
        assert(ax * m >= 0 && ay * m >= 0) by (nonlinear_arith)
            requires
                ax >= 0 && ay >= 0 && m >= 0,
        ;
        lemma_div_pos_is_pos(ax * m, d);
        lemma_div_pos_is_pos(ay * m, d);
        vstd::arithmetic::div_mod::lemma_div_of0(d);
        if hx == 0 {
            assert(ax * m == 0) by (nonlinear_arith)
                requires
                    ax == 0,
            ;
        }
        if hy == 0 {
            assert(ay * m == 0) by (nonlinear_arith)
                requires
                    ay == 0,
            ;
        }
        let cross = vxm * ay - vym * ax;
        assert(vx * hx == vxm * ax && vy * hy == vym * ay) by (nonlinear_arith)
            requires
                (hx == ax && vx == vxm) || (hx == -ax && vx == -vxm),
                (hy == ay && vy == vym) || (hy == -ay && vy == -vym),
        ;
        if (hx < 0) == (hy < 0) {
            assert(vx * hy - vy * hx == cross) by (nonlinear_arith)
                requires
                    cross == vxm * ay - vym * ax,
                    (hx == ax && vx == vxm && hy == ay && vy == vym) || (hx == -ax && vx == -vxm
                        && hy == -ay && vy == -vym),
            ;
        } else {
            assert(vx * hy - vy * hx == -cross) by (nonlinear_arith)
                requires
                    cross == vxm * ay - vym * ax,
                    (hx == ax && vx == vxm && hy == -ay && vy == -vym) || (hx == -ax && vx == -vxm
                        && hy == ay && vy == vym),
            ;
        }
        assert(vxm * ax >= 0 && vym * ay >= 0) by (nonlinear_arith)
            requires
                vxm >= 0 && vym >= 0 && ax >= 0 && ay >= 0,
        ;
        let rx = (ax * m) % d;
        let ry = (ay * m) % d;
        lemma_mod_division_less_than_divisor(ax * m, d);
        lemma_mod_division_less_than_divisor(ay * m, d);
        lemma_fundamental_div_mod(ax * m, d);
        lemma_fundamental_div_mod(ay * m, d);
        let mx = if ax >= ay {
            ax
        } else {
            ay
        };
        assert(d * (vxm * ay - vym * ax) == ry * ax - rx * ay) by (nonlinear_arith)
            requires
                ax * m == d * vxm + rx,
                ay * m == d * vym + ry,
        ;
        assert(abs_int(vxm * ay - vym * ax) <= mx) by (nonlinear_arith)
            requires
                d * (vxm * ay - vym * ax) == ry * ax - rx * ay,
                0 <= rx < d,
                0 <= ry < d,
                0 <= ax <= mx,
                0 <= ay <= mx,
                d > 0,
                abs_int(vxm * ay - vym * ax) == vxm * ay - vym * ax || abs_int(
                    vxm * ay - vym * ax,
                ) == -(vxm * ay - vym * ax),
        ;
    }
}

} // verus!
