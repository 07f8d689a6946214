//! Fixed-point vectors and the arithmetic the movement rules need.
use vstd::prelude::*;

verus! {

/// Fixed-point units per metre: one unit is a tenth of a millimetre.
pub const UNIT: i64 = 10_000;

/// Largest coordinate magnitude the simulation accepts.
pub const COORD_LIMIT: i64 = 1_099_511_627_776;

/// A point or direction in fixed-point units.
#[derive(Clone, Copy, Debug, PartialEq, Eq, Structural)]
pub struct Vec3 {
    pub x: i64,
    pub y: i64,
    pub z: i64,
}

/// A half-line from `origin` along `direction`.
#[derive(Clone, Copy, Debug, PartialEq, Eq, Structural)]
pub struct Ray {
    pub origin: Vec3,
    pub direction: Vec3,
}

/// Squared euclidean length, as a mathematical integer.
pub open spec fn norm_sq(v: Vec3) -> int {
    v.x * v.x + v.y * v.y + v.z * v.z
}

/// Every component lies within `[-b, b]`.
pub open spec fn bounded_by(v: Vec3, b: int) -> bool {
    -b <= v.x <= b && -b <= v.y <= b && -b <= v.z <= b
}

/// `r` is the integer square root of `n`.
pub open spec fn is_int_sqrt(n: int, r: int) -> bool {
    0 <= r && r * r <= n && n < (r + 1) * (r + 1)
}

/// The integer square root of a non-negative `n`.
pub open spec fn int_sqrt(n: int) -> int {
    choose|r: int| is_int_sqrt(n, r)
}

/// Division rounding toward zero, as Rust's `/` on signed integers does.
pub open spec fn trunc_div(a: int, b: int) -> int {
    if a >= 0 {
        a / b
    } else {
        -((-a) / b)
    }
}

/// `v` rescaled to Euclidean length `len` (rounding each component toward
/// zero); the zero vector stays zero.
pub open spec fn scaled(v: Vec3, len: int) -> Vec3 {
    let n = int_sqrt(norm_sq(v));
    if n == 0 {
        v
    } else {
        Vec3 {
            x: trunc_div(v.x * len, n) as i64,
            y: trunc_div(v.y * len, n) as i64,
            z: trunc_div(v.z * len, n) as i64,
        }
    }
}

/// The integer square root is unique.
pub proof fn lemma_int_sqrt_unique(n: int, r: int)
    requires
        is_int_sqrt(n, r),
    ensures
        int_sqrt(n) == r,
{
    let s = int_sqrt(n);
    assert(is_int_sqrt(n, s));
    if s < r {
        assert((s + 1) * (s + 1) <= r * r) by (nonlinear_arith)
            requires
                0 <= s < r,
        ;
    } else if r < s {
        assert((r + 1) * (r + 1) <= s * s) by (nonlinear_arith)
            requires
                0 <= r < s,
        ;
    }
}

/// Integer square root of `n`, by bisection.
pub fn isqrt(n: u64) -> (r: u64)
    requires
        n < 0x4000_0000_0000_0000,
    ensures
        is_int_sqrt(n as int, r as int),
        r == int_sqrt(n as int),
        r < 0x8000_0000,
{
    let mut lo: u64 = 0;
    let mut hi: u64 = 0x8000_0000;
    assert(0x8000_0000u64 * 0x8000_0000u64 == 0x4000_0000_0000_0000u64) by (nonlinear_arith);
    while hi - lo > 1
        invariant
            lo < hi <= 0x8000_0000,
            lo * lo <= n,
            n < hi * hi,
        decreases hi - lo,
    {
        let mid: u64 = lo + (hi - lo) / 2;
        assert(mid * mid < 0x4000_0000_0000_0000) by (nonlinear_arith)
            requires
                mid < 0x8000_0000,
        ;
        if mid * mid <= n {
            lo = mid;
        } else {
            hi = mid;
        }
    }
    proof {
        lemma_int_sqrt_unique(n as int, lo as int);
    }
    lo
}

/// Each component is at most the root of the squared length.
proof fn lemma_component_le_root(c: int, n: int, r: int)
    requires
        0 <= c * c <= n,
        is_int_sqrt(n, r),
    ensures
        -r <= c <= r,
{
    if c > r {
        assert((r + 1) * (r + 1) <= c * c) by (nonlinear_arith)
            requires
                0 <= r < c,
        ;
    } else if c < -r {
        assert((r + 1) * (r + 1) <= c * c) by (nonlinear_arith)
            requires
                0 <= r,
                c < -r,
        ;
    }
}

/// `|a| <= n` and `0 <= len` give `|trunc_div(a * len, n)| <= len`.
proof fn lemma_scaled_component(a: int, len: int, n: int)
    requires
        0 < n,
        0 <= len,
        -n <= a <= n,
    ensures
        -len <= trunc_div(a * len, n) <= len,
{
    if a >= 0 {
        assert(a * len <= n * len) by (nonlinear_arith)
            requires
                0 <= a <= n,
                0 <= len,
        ;
        assert(0 <= a * len) by (nonlinear_arith)
            requires
                0 <= a,
                0 <= len,
        ;
        assert((a * len) / n <= (n * len) / n) by (nonlinear_arith)
            requires
                a * len <= n * len,
                0 < n,
        ;
        assert((n * len) / n == len) by (nonlinear_arith)
            requires
                0 < n,
        ;
        assert(0 <= (a * len) / n) by (nonlinear_arith)
            requires
                0 <= a * len,
                0 < n,
        ;
    } else {
        assert(-a * len <= n * len) by (nonlinear_arith)
            requires
                0 < -a <= n,
                0 <= len,
        ;
        assert(0 <= -a * len) by (nonlinear_arith)
            requires
                0 < -a,
                0 <= len,
        ;
        assert((-a * len) / n <= (n * len) / n) by (nonlinear_arith)
            requires
                -a * len <= n * len,
                0 < n,
        ;
        assert((n * len) / n == len) by (nonlinear_arith)
            requires
                0 < n,
        ;
        assert(0 <= (-a * len) / n) by (nonlinear_arith)
            requires
                0 <= -a * len,
                0 < n,
        ;
        assert(-(a * len) == -a * len) by (nonlinear_arith);
    }
}

/// Rounding division toward zero of `a` by a positive `b`.
fn div_toward_zero(a: i64, b: i64) -> (r: i64)
    requires
        b > 0,
        a > i64::MIN,
    ensures
        r == trunc_div(a as int, b as int),
{
    if a >= 0 {
        a / b
    } else {
        -((-a) / b)
    }
}

/// Rescales `v` to length `len`, keeping its direction; the zero vector
/// stays zero.
pub fn scale_to(v: Vec3, len: i64) -> (r: Vec3)
    requires
        bounded_by(v, 2 * UNIT),
        0 <= len <= UNIT,
    ensures
        r == scaled(v, len as int),
        bounded_by(r, 2 * UNIT),
        v != (Vec3 { x: 0, y: 0, z: 0 }) ==> bounded_by(r, len as int),
{
    assert(v.x * v.x <= 4 * UNIT * UNIT) by (nonlinear_arith)
        requires
            -2 * UNIT <= v.x <= 2 * UNIT,
    ;
    assert(v.y * v.y <= 4 * UNIT * UNIT) by (nonlinear_arith)
        requires
            -2 * UNIT <= v.y <= 2 * UNIT,
    ;
    assert(v.z * v.z <= 4 * UNIT * UNIT) by (nonlinear_arith)
        requires
            -2 * UNIT <= v.z <= 2 * UNIT,
    ;
    assert(0 <= v.x * v.x && 0 <= v.y * v.y && 0 <= v.z * v.z) by (nonlinear_arith);
    let sq: u64 = (v.x * v.x + v.y * v.y + v.z * v.z) as u64;
    let n = isqrt(sq);
    if n == 0 {
        proof {
            assert(is_int_sqrt(sq as int, 0));
            assert(sq < 1) by (nonlinear_arith)
                requires
                    (sq as int) < (0 + 1) * (0 + 1),
            ;
            assert(v.x * v.x <= 0 && v.y * v.y <= 0 && v.z * v.z <= 0);
            assert(v.x == 0 && v.y == 0 && v.z == 0) by (nonlinear_arith)
                requires
                    v.x * v.x <= 0,
                    v.y * v.y <= 0,
                    v.z * v.z <= 0,
            ;
        }
        v
    } else {
        let ni = n as i64;
        proof {
            lemma_component_le_root(v.x as int, sq as int, n as int);
            lemma_component_le_root(v.y as int, sq as int, n as int);
            lemma_component_le_root(v.z as int, sq as int, n as int);
            lemma_scaled_component(v.x as int, len as int, n as int);
            lemma_scaled_component(v.y as int, len as int, n as int);
            lemma_scaled_component(v.z as int, len as int, n as int);
            assert(-2 * UNIT * UNIT <= v.x * len <= 2 * UNIT * UNIT) by (nonlinear_arith)
                requires
                    -2 * UNIT <= v.x <= 2 * UNIT,
                    0 <= len <= UNIT,
            ;
            assert(-2 * UNIT * UNIT <= v.y * len <= 2 * UNIT * UNIT) by (nonlinear_arith)
                requires
                    -2 * UNIT <= v.y <= 2 * UNIT,
                    0 <= len <= UNIT,
            ;
            assert(-2 * UNIT * UNIT <= v.z * len <= 2 * UNIT * UNIT) by (nonlinear_arith)
                requires
                    -2 * UNIT <= v.z <= 2 * UNIT,
                    0 <= len <= UNIT,
            ;
        }
        let r = Vec3 {
            x: div_toward_zero(v.x * len, ni),
            y: div_toward_zero(v.y * len, ni),
            z: div_toward_zero(v.z * len, ni),
        };
        r
    }
}

} // verus!
