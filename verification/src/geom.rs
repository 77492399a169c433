//! Integer plane geometry: the vector type used for world positions and
//! velocities, and an exact integer square root used to normalise headings.
//!
//! World space is measured in integer units; a tile is `TILE_SIZE` units on
//! a side, and a cell at grid `(col, row)` sits at `(col * TILE_SIZE,
//! -row * TILE_SIZE)` — y decreases with the row index.

use vstd::prelude::*;

verus! {

/// Side length of one grid tile in world units.
pub const TILE_SIZE: i64 = 24;

/// Positions handed to the pursuit math stay within this bound, so squared
/// distances and scaled components fit comfortably in `i64`.
pub const WORLD_LIMIT: i64 = 0x10_0000;

/// A plane vector (or point) in world units.
#[derive(Clone, Copy, PartialEq, Eq, Structural, Debug)]
pub struct Vec2 {
    pub x: i64,
    pub y: i64,
}

impl Vec2 {
    /// Both coordinates within `WORLD_LIMIT`.
    pub open spec fn wf(self) -> bool {
        &&& -WORLD_LIMIT <= self.x <= WORLD_LIMIT
        &&& -WORLD_LIMIT <= self.y <= WORLD_LIMIT
    }

    pub fn new(x: i64, y: i64) -> (v: Vec2)
        ensures
            v.x == x && v.y == y,
    {
        Vec2 { x, y }
    }

    /// Squared Euclidean length, as a mathematical integer.
    pub open spec fn norm_sq(self) -> int {
        self.x * self.x + self.y * self.y
    }
}

/// Mathematical absolute value.
pub open spec fn abs_int(x: int) -> int {
    if x < 0 { -x } else { x }
}

/// Sign as a factor: -1, 0 or 1.
pub open spec fn sign_int(x: int) -> int {
    if x < 0 { -1 } else if x > 0 { 1 } else { 0 }
}

/// The integer square root: the largest `r` with `r * r <= n`, defined by
/// counting up so that proofs can proceed by induction on `n`.
pub open spec fn isqrt_spec(n: nat) -> nat
    decreases n,
{
    if n == 0 {
        0
    } else {
        let r = isqrt_spec((n - 1) as nat);
        if (r + 1) * (r + 1) <= n {
            r + 1
        } else {
            r
        }
    }
}

/// `isqrt_spec(n)` squared is at most `n`, and the next square exceeds `n`.
pub proof fn lemma_isqrt_bounds(n: nat)
    ensures
        isqrt_spec(n) * isqrt_spec(n) <= n,
        n < (isqrt_spec(n) + 1) * (isqrt_spec(n) + 1),
    decreases n,
{
    if n > 0 {
        lemma_isqrt_bounds((n - 1) as nat);
        let r = isqrt_spec((n - 1) as nat);
        let s = isqrt_spec(n);
        assert(((n - 1) as nat) < ((r + 1) * (r + 1)));
        if (r + 1) * (r + 1) <= n {
            assert(s == r + 1);
            assert(n == (r + 1) * (r + 1));
            assert((r + 1) * (r + 1) < (r + 2) * (r + 2)) by (nonlinear_arith);
            assert(s * s <= n);
            assert(n < (s + 1) * (s + 1));
        } else {
            assert(s == r);
            assert(r * r <= ((n - 1) as nat));
            assert(s * s <= n);
            assert(n < (s + 1) * (s + 1));
        }
    } else {
        assert(isqrt_spec(0) == 0);
        assert((isqrt_spec(0) + 1) * (isqrt_spec(0) + 1) == 1) by (nonlinear_arith)
            requires
                isqrt_spec(0) == 0nat,
        ;
    }
}

/// Any `r` bracketed by the two squares is the integer square root.
pub proof fn lemma_isqrt_unique(n: nat, r: nat)
    requires
        r * r <= n,
        n < (r + 1) * (r + 1),
    ensures
        r == isqrt_spec(n),
{
    lemma_isqrt_bounds(n);
    let s = isqrt_spec(n);
    if r < s {
        assert((r + 1) * (r + 1) <= s * s) by (nonlinear_arith)
            requires
                r + 1 <= s,
        ;
    }
    if s < r {
        assert((s + 1) * (s + 1) <= r * r) by (nonlinear_arith)
            requires
                s + 1 <= r,
        ;
    }
}

/// Integer square root by binary search on the root.
pub fn isqrt(n: u64) -> (r: u64)
    requires
        n < 0x4000_0000_0000_0000,
    ensures
        r == isqrt_spec(n as nat),
        r * r <= n < (r + 1) * (r + 1),
{
    let mut lo: u64 = 0;
    let mut hi: u64 = 0x8000_0000;
    proof {
        assert(0x8000_0000int * 0x8000_0000int == 0x4000_0000_0000_0000int) by (nonlinear_arith);
    }
    while lo + 1 < hi
        invariant
            lo < hi <= 0x8000_0000,
            lo * lo <= n,
            n < hi * hi,
        decreases hi - lo,
    {
        let mid = lo + (hi - lo) / 2;
        proof {
            assert(mid * mid < 0x4000_0000_0000_0000) by (nonlinear_arith)
                requires
                    0 <= mid < 0x8000_0000,
            ;
        }
        if mid * mid <= n {
            lo = mid;
        } else {
            hi = mid;
        }
    }
    proof {
        lemma_isqrt_unique(n as nat, lo as nat);
    }
    lo
}

/// Absolute value of an `i64` above `i64::MIN`, as a `u64`.
pub fn abs64(x: i64) -> (r: u64)
    requires
        x > i64::MIN,
    ensures
        r == abs_int(x as int),
{
    if x < 0 { (-x) as u64 } else { x as u64 }
}

} // verus!
