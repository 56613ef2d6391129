//! Integer plane geometry for moving actors.
use vstd::prelude::*;
use crate::region::{sq, COORD_LIMIT};

verus! {

/// Largest magnitude of an actor's coordinate.
pub const POS_LIMIT: i64 = 500_000_000_000;

/// Largest speed, sight radius, delay or time step.
pub const SCALAR_LIMIT: i64 = 1_000_000_000_000;

/// `isqrt` accepts values below `SQRT_BOUND * SQRT_BOUND`.
pub const SQRT_BOUND: u128 = 1_125_899_906_842_624;

pub open spec fn in_pos_range(v: int) -> bool {
    -POS_LIMIT <= v <= POS_LIMIT
}

pub open spec fn in_scalar_range(v: int) -> bool {
    0 <= v <= SCALAR_LIMIT
}

/// `v` moved into the range of actor coordinates.
pub open spec fn clamp_pos(v: int) -> int {
    if v < -POS_LIMIT {
        -POS_LIMIT as int
    } else if v > POS_LIMIT {
        POS_LIMIT as int
    } else {
        v
    }
}

pub open spec fn is_floor_sqrt(r: int, n: int) -> bool {
    0 <= r && r * r <= n < (r + 1) * (r + 1)
}

/// The largest integer whose square is at most `n`.
pub open spec fn floor_sqrt(n: int) -> int {
    choose|r: int| is_floor_sqrt(r, n)
}

/// Integer division rounding toward zero.
pub open spec fn div_toward_zero(a: int, b: int) -> int {
    if a >= 0 {
        a / b
    } else {
        -((-a) / b)
    }
}

/// Length of the vector `(dx, dy)`, rounded down.
pub open spec fn mag_spec(dx: int, dy: int) -> int {
    floor_sqrt(sq(dx) + sq(dy))
}

/// The vector of length `len` pointing along `(dx, dy)`, each axis rounded
/// toward zero; the zero vector when `(dx, dy)` is zero.
pub open spec fn scaled_dir_spec(dx: int, dy: int, len: int) -> (int, int) {
    if dx == 0 && dy == 0 {
        (0, 0)
    } else {
        let m = mag_spec(dx, dy);
        (div_toward_zero(dx * len, m), div_toward_zero(dy * len, m))
    }
}

/// `(x1, y1)` lies within distance `d` of `(x2, y2)`.
pub open spec fn within_spec(x1: int, y1: int, x2: int, y2: int, d: int) -> bool {
    sq(x2 - x1) + sq(y2 - y1) <= sq(d)
}

proof fn lemma_floor_sqrt_unique(r1: int, r2: int, n: int)
    requires
        is_floor_sqrt(r1, n),
        is_floor_sqrt(r2, n),
    ensures
        r1 == r2,
{
    if r1 < r2 {
        assert((r1 + 1) * (r1 + 1) <= r2 * r2) by (nonlinear_arith)
            requires
                0 <= r1 + 1 <= r2,
        ;
    } else if r2 < r1 {
        assert((r2 + 1) * (r2 + 1) <= r1 * r1) by (nonlinear_arith)
            requires
                0 <= r2 + 1 <= r1,
        ;
    }
}

/// The square root of `n`, rounded down.
pub fn isqrt(n: u128) -> (r: u128)
    requires
        n < SQRT_BOUND * SQRT_BOUND,
    ensures
        is_floor_sqrt(r as int, n as int),
        r == floor_sqrt(n as int),
        r < SQRT_BOUND,
{
    let mut lo: u128 = 0;
    let mut hi: u128 = SQRT_BOUND;
    while hi - lo > 1
        invariant
            lo < hi <= SQRT_BOUND,
            lo * lo <= n < hi * hi,
        decreases hi - lo,
    {
        let mid = lo + (hi - lo) / 2;
        assert(mid * mid <= SQRT_BOUND * SQRT_BOUND) by (nonlinear_arith)
            requires
                mid <= SQRT_BOUND,
        ;
        if mid * mid <= n {
            lo = mid;
        } else {
            hi = mid;
        }
    }
    proof {
        assert(hi == lo + 1);
        assert(is_floor_sqrt(lo as int, n as int));
        lemma_floor_sqrt_unique(lo as int, floor_sqrt(n as int), n as int);
    }
    lo
}

/// A value whose square is at most `n` is at most the square root of `n`.
proof fn lemma_abs_le_sqrt(v: int, n: int, r: int)
    requires
        is_floor_sqrt(r, n),
        v * v <= n,
    ensures
        v * v <= r * r,
{
    let a = if v >= 0 { v } else { -v };
    assert(a * a == v * v) by (nonlinear_arith)
        requires
            a == v || a == -v,
    ;
    if a > r {
        crate::region::lemma_sq_monotone(r + 1, a);
    }
    crate::region::lemma_sq_monotone(a, r);
}

/// `v` moved into the range of actor coordinates.
pub fn clamp(v: i128) -> (r: i64)
    ensures
        r == clamp_pos(v as int),
{
    if v < -(POS_LIMIT as i128) {
        -POS_LIMIT
    } else if v > POS_LIMIT as i128 {
        POS_LIMIT
    } else {
        v as i64
    }
}

/// Length of the vector `(x, y)`, rounded down.
pub fn mag(x: i64, y: i64) -> (r: i64)
    requires
        -2 * POS_LIMIT <= x <= 2 * POS_LIMIT,
        -2 * POS_LIMIT <= y <= 2 * POS_LIMIT,
    ensures
        r == mag_spec(x as int, y as int),
        0 <= r,
        x * x <= r * r,
        y * y <= r * r,
{
    let xx = x as i128;
    let yy = y as i128;
    assert(xx * xx <= 4 * POS_LIMIT * POS_LIMIT) by (nonlinear_arith)
        requires
            -2 * POS_LIMIT <= xx <= 2 * POS_LIMIT,
    ;
    assert(yy * yy <= 4 * POS_LIMIT * POS_LIMIT) by (nonlinear_arith)
        requires
            -2 * POS_LIMIT <= yy <= 2 * POS_LIMIT,
    ;
    assert(xx * xx >= 0 && yy * yy >= 0) by (nonlinear_arith);
    let n = (xx * xx + yy * yy) as u128;
    let m = isqrt(n);
    proof {
        let mi = m as int;
        lemma_abs_le_sqrt(x as int, n as int, mi);
        lemma_abs_le_sqrt(y as int, n as int, mi);
        assert(mi <= 4 * POS_LIMIT) by {
            if mi > 4 * POS_LIMIT {
                crate::region::lemma_sq_monotone(4 * POS_LIMIT, mi);
            }
        }
    }
    m as i64
}

/// Whether `(x1, y1)` is within distance `d` of `(x2, y2)`.
pub fn distance_cmp(x1: i64, y1: i64, x2: i64, y2: i64, d: i64) -> (r: bool)
    requires
        in_pos_range(x1 as int),
        in_pos_range(y1 as int),
        in_pos_range(x2 as int),
        in_pos_range(y2 as int),
    ensures
        r == within_spec(x1 as int, y1 as int, x2 as int, y2 as int, d as int),
{
    let dx = x2 as i128 - x1 as i128;
    let dy = y2 as i128 - y1 as i128;
    let dd = d as i128;
    proof {
        crate::region::lemma_sq_bound(dx as int, COORD_LIMIT as int);
        crate::region::lemma_sq_bound(dy as int, COORD_LIMIT as int);
        crate::region::lemma_sq_bound(dd as int, i64::MAX + 1);
    }
    dx * dx + dy * dy <= dd * dd
}

/// `a / b` rounded toward zero.
fn div_toward_zero_exec(a: i128, b: i128) -> (r: i128)
    requires
        b > 0,
        a > i128::MIN,
    ensures
        r == div_toward_zero(a as int, b as int),
        a >= 0 ==> 0 <= r <= a,
        a < 0 ==> a <= r <= 0,
{
    if a >= 0 {
        assert(a / b <= a) by (nonlinear_arith)
            requires
                a >= 0,
                b > 0,
        ;
        a / b
    } else {
        let na = -a;
        assert(na / b <= na) by (nonlinear_arith)
            requires
                na >= 0,
                b > 0,
        ;
        -(na / b)
    }
}

/// The displacement of length `len` from `(x1, y1)` toward `(x2, y2)`, each
/// axis rounded toward zero. Zero when the two points coincide.
pub fn direction(x1: i64, y1: i64, x2: i64, y2: i64, len: i64) -> (r: (i128, i128))
    requires
        in_pos_range(x1 as int),
        in_pos_range(y1 as int),
        in_pos_range(x2 as int),
        in_pos_range(y2 as int),
        0 <= len,
    ensures
        (r.0 as int, r.1 as int) == scaled_dir_spec(x2 - x1, y2 - y1, len as int),
        -(len as int) <= r.0 <= len,
        -(len as int) <= r.1 <= len,
{
    let dx = x2 - x1;
    let dy = y2 - y1;
    if dx == 0 && dy == 0 {
        return (0, 0);
    }
    let m = mag(dx, dy);
    proof {
        assert(m > 0) by (nonlinear_arith)
            requires
                dx * dx <= m * m,
                dy * dy <= m * m,
                dx != 0 || dy != 0,
                m >= 0,
        ;
    }
    let l = len as i128;
    assert(-(2 * POS_LIMIT * l) <= dx * l <= 2 * POS_LIMIT * l) by (nonlinear_arith)
        requires
            -2 * POS_LIMIT <= dx <= 2 * POS_LIMIT,
            0 <= l <= i64::MAX,
    ;
    assert(-(2 * POS_LIMIT * l) <= dy * l <= 2 * POS_LIMIT * l) by (nonlinear_arith)
        requires
            -2 * POS_LIMIT <= dy <= 2 * POS_LIMIT,
            0 <= l <= i64::MAX,
    ;
    let ax = dx as i128 * l;
    let ay = dy as i128 * l;
    assert(-(m * l) <= ax <= m * l) by (nonlinear_arith)
        requires
            dx * dx <= m * m,
            m > 0,
            l >= 0,
            ax == dx * l,
    ;
    assert(-(m * l) <= ay <= m * l) by (nonlinear_arith)
        requires
            dy * dy <= m * m,
            m > 0,
            l >= 0,
            ay == dy * l,
    ;
    let mx = div_toward_zero_exec(ax, m as i128);
    let my = div_toward_zero_exec(ay, m as i128);
    proof {
        lemma_div_bound(ax as int, m as int, l as int);
        lemma_div_bound(ay as int, m as int, l as int);
    }
    (mx, my)
}

proof fn lemma_div_bound(a: int, m: int, l: int)
    requires
        m > 0,
        l >= 0,
        -(m * l) <= a <= m * l,
    ensures
        -l <= div_toward_zero(a, m) <= l,
{
    if a >= 0 {
        assert(a / m <= l) by (nonlinear_arith)
            requires
                0 <= a <= m * l,
                m > 0,
        ;
    } else {
        assert((-a) / m <= l) by (nonlinear_arith)
            requires
                0 <= -a <= m * l,
                m > 0,
        ;
    }
}

} // verus!
