//! Fixed-point plane geometry: points, squared distances, integer square
//! roots and a one-degree sine table.
use vstd::prelude::*;

verus! {

/// A position in the plane, in thousandths of a world unit.
#[derive(Clone, Copy, Debug, PartialEq, Eq, Structural)]
pub struct Point {
    pub x: i32,
    pub y: i32,
}

/// Squared Euclidean distance between two points.
pub open spec fn dist_sq(a: Point, b: Point) -> int {
    (a.x - b.x) * (a.x - b.x) + (a.y - b.y) * (a.y - b.y)
}

/// `a` and `b` are strictly closer to each other than `reach`.
pub open spec fn closer_than(a: Point, b: Point, reach: int) -> bool {
    reach > 0 && dist_sq(a, b) < reach * reach
}

/// `v` limited to the range of an `i32`.
pub open spec fn clamp_i32(v: int) -> int {
    if v < i32::MIN {
        i32::MIN as int
    } else if v > i32::MAX {
        i32::MAX as int
    } else {
        v
    }
}

/// `r` is the integer square root of `n`: the largest integer whose square
/// does not exceed `n`.
pub open spec fn is_isqrt(r: int, n: int) -> bool {
    0 <= r && r * r <= n && n < (r + 1) * (r + 1)
}

/// The integer square root of `n` (meaningful for `n >= 0`).
pub open spec fn isqrt(n: int) -> int {
    choose|r: int| is_isqrt(r, n)
}

/// Euclidean distance between two points, rounded down.
pub open spec fn distance(a: Point, b: Point) -> int {
    isqrt(dist_sq(a, b))
}

/// Two square roots of the same number are equal.
pub proof fn lemma_isqrt_unique(r1: int, r2: int, n: int)
    requires
        is_isqrt(r1, n),
        is_isqrt(r2, n),
    ensures
        r1 == r2,
{
    if r1 < r2 {
        assert((r1 + 1) * (r1 + 1) <= r2 * r2) by (nonlinear_arith)
            requires
                0 <= r1,
                r1 + 1 <= r2,
        ;
    } else if r2 < r1 {
        assert((r2 + 1) * (r2 + 1) <= r1 * r1) by (nonlinear_arith)
            requires
                0 <= r2,
                r2 + 1 <= r1,
        ;
    }
}

/// Any witness of the defining property is the integer square root.
pub proof fn lemma_isqrt_is(r: int, n: int)
    requires
        is_isqrt(r, n),
    ensures
        isqrt(n) == r,
{
    lemma_isqrt_unique(isqrt(n), r, n);
}

/// Absolute difference of two coordinates.
pub fn abs_diff(a: i32, b: i32) -> (d: u32)
    ensures
        d == if a >= b { a - b } else { b - a },
{
    if a >= b {
        (a as i64 - b as i64) as u32
    } else {
        (b as i64 - a as i64) as u32
    }
}

/// Squared distance between two points.
pub fn distance_squared(a: Point, b: Point) -> (r: u128)
    ensures
        r == dist_sq(a, b),
        r <= 2 * 0xffff_ffff * 0xffff_ffff,
{
    let dx: u128 = abs_diff(a.x, b.x) as u128;
    let dy: u128 = abs_diff(a.y, b.y) as u128;
    assert(dx * dx == (a.x - b.x) * (a.x - b.x)) by (nonlinear_arith)
        requires
            dx == a.x - b.x || dx == b.x - a.x,
    ;
    assert(dy * dy == (a.y - b.y) * (a.y - b.y)) by (nonlinear_arith)
        requires
            dy == a.y - b.y || dy == b.y - a.y,
    ;
    assert(dx * dx <= 0xffff_ffff * 0xffff_ffff) by (nonlinear_arith)
        requires
            dx <= 0xffff_ffff,
    ;
    assert(dy * dy <= 0xffff_ffff * 0xffff_ffff) by (nonlinear_arith)
        requires
            dy <= 0xffff_ffff,
    ;
    dx * dx + dy * dy
}

/// Whether two points are strictly closer to each other than `reach`.
pub fn is_within(a: Point, b: Point, reach: u64) -> (r: bool)
    ensures
        r == closer_than(a, b, reach as int),
{
    let d2: u128 = distance_squared(a, b);
    let limit: u128 = reach as u128;
    assert(limit * limit <= 0xffff_ffff_ffff_ffff * 0xffff_ffff_ffff_ffff) by (nonlinear_arith)
        requires
            limit <= 0xffff_ffff_ffff_ffff,
    ;
    assert(limit == 0 ==> limit * limit == 0) by (nonlinear_arith);
    d2 < limit * limit
}

/// Integer square root by bisection.
pub fn integer_sqrt(n: u128) -> (r: u64)
    ensures
        is_isqrt(r as int, n as int),
        r == isqrt(n as int),
{
    let mut lo: u128 = 0;
    let mut hi: u128 = 0x1_0000_0000_0000_0000;
    assert(hi * hi > n) by (nonlinear_arith)
        requires
            hi == 0x1_0000_0000_0000_0000,
            n <= u128::MAX,
    ;
    while hi - lo > 1
        invariant
            lo < hi <= 0x1_0000_0000_0000_0000,
            lo * lo <= n < hi * hi,
        decreases hi - lo,
    {
        let mid: u128 = lo + (hi - lo) / 2;
        assert(mid * mid <= 0xffff_ffff_ffff_ffff * 0xffff_ffff_ffff_ffff) by (nonlinear_arith)
            requires
                mid <= 0xffff_ffff_ffff_ffff,
        ;
        if mid * mid <= n {
            lo = mid;
        } else {
            hi = mid;
        }
    }
    proof {
        lemma_isqrt_is(lo as int, n as int);
    }
    lo as u64
}

/// A thousand times the sine of 0, 1, ... 90 degrees, rounded to the
/// nearest integer.
pub const QUARTER_SINE: [i32; 91] = [
    0, 17, 35, 52, 70, 87, 105, 122, 139, 156,
    174, 191, 208, 225, 242, 259, 276, 292, 309, 326,
    342, 358, 375, 391, 407, 423, 438, 454, 469, 485,
    500, 515, 530, 545, 559, 574, 588, 602, 616, 629,
    643, 656, 669, 682, 695, 707, 719, 731, 743, 755,
    766, 777, 788, 799, 809, 819, 829, 839, 848, 857,
    866, 875, 883, 891, 899, 906, 914, 921, 927, 934,
    940, 946, 951, 956, 961, 966, 970, 974, 978, 982,
    985, 988, 990, 993, 995, 996, 998, 999, 999, 1000,
    1000,
];

/// A thousand times the sine of `d` degrees, for `d` within one turn,
/// read from the first quarter of the wave.
pub open spec fn wave(d: int) -> int {
    if d <= 90 {
        QUARTER_SINE[d] as int
    } else if d <= 180 {
        QUARTER_SINE[180 - d] as int
    } else if d <= 270 {
        -QUARTER_SINE[d - 180]
    } else {
        -QUARTER_SINE[360 - d]
    }
}

/// A thousand times the sine of an angle given in whole degrees.
pub open spec fn sine(deg: int) -> int {
    wave(deg % 360)
}

/// A thousand times the cosine of an angle given in whole degrees.
pub open spec fn cosine(deg: int) -> int {
    sine(deg + 90)
}

/// `length` times `milli / 1000`, rounded towards zero.
pub open spec fn scaled(milli: int, length: int) -> int {
    if milli >= 0 {
        (milli * length) / 1000
    } else {
        -(((-milli) * length) / 1000)
    }
}

/// The point at the angle `deg` on the circle of the given radius around
/// `center`, each coordinate limited to the range of an `i32`.
pub open spec fn circle_point(center: Point, deg: int, radius: int) -> Point {
    Point {
        x: clamp_i32(center.x + scaled(cosine(deg), radius)) as i32,
        y: clamp_i32(center.y + scaled(sine(deg), radius)) as i32,
    }
}

/// The entries of the table lie between 0 and 1000.
pub proof fn lemma_quarter_sine_bounds(d: int)
    requires
        0 <= d <= 90,
    ensures
        0 <= QUARTER_SINE[d] <= 1000,
{
}

/// Sine and cosine repeat after a full turn.
pub proof fn lemma_full_turn(deg: int)
    ensures
        sine(deg % 360) == sine(deg),
        cosine(deg % 360) == cosine(deg),
{
    assert((deg % 360) % 360 == deg % 360);
    assert((deg % 360 + 90) % 360 == (deg + 90) % 360);
}

/// An entry of the table and the entry of the complementary angle are the
/// sine and the cosine of one angle: their squares add up to a million, to
/// within little more than a thousandth.  Proved pair by pair, for the
/// first half of the quarter; the second half has the same pairs.
proof fn lemma_quarter_pair(q: int)
    requires
        0 <= q <= 90,
    ensures
        998_800 <= QUARTER_SINE[q] * QUARTER_SINE[q] + QUARTER_SINE[90 - q] * QUARTER_SINE[90 - q]
            <= 1_001_200,
{
    let m = if q <= 45 {
        q
    } else {
        90 - q
    };
    let s = QUARTER_SINE[m] as int;
    let c = QUARTER_SINE[90 - m] as int;
    assert(998_800 <= s * s + c * c <= 1_001_200) by (nonlinear_arith)
        requires
            ({
                ||| (s == 0 && c == 1000)
                ||| (s == 17 && c == 1000)
                ||| (s == 35 && c == 999)
                ||| (s == 52 && c == 999)
                ||| (s == 70 && c == 998)
                ||| (s == 87 && c == 996)
                ||| (s == 105 && c == 995)
                ||| (s == 122 && c == 993)
                ||| (s == 139 && c == 990)
                ||| (s == 156 && c == 988)
                ||| (s == 174 && c == 985)
                ||| (s == 191 && c == 982)
                ||| (s == 208 && c == 978)
                ||| (s == 225 && c == 974)
                ||| (s == 242 && c == 970)
                ||| (s == 259 && c == 966)
                ||| (s == 276 && c == 961)
                ||| (s == 292 && c == 956)
                ||| (s == 309 && c == 951)
                ||| (s == 326 && c == 946)
                ||| (s == 342 && c == 940)
                ||| (s == 358 && c == 934)
                ||| (s == 375 && c == 927)
                ||| (s == 391 && c == 921)
                ||| (s == 407 && c == 914)
                ||| (s == 423 && c == 906)
                ||| (s == 438 && c == 899)
                ||| (s == 454 && c == 891)
                ||| (s == 469 && c == 883)
                ||| (s == 485 && c == 875)
                ||| (s == 500 && c == 866)
                ||| (s == 515 && c == 857)
                ||| (s == 530 && c == 848)
                ||| (s == 545 && c == 839)
                ||| (s == 559 && c == 829)
                ||| (s == 574 && c == 819)
                ||| (s == 588 && c == 809)
                ||| (s == 602 && c == 799)
                ||| (s == 616 && c == 788)
                ||| (s == 629 && c == 777)
                ||| (s == 643 && c == 766)
                ||| (s == 656 && c == 755)
                ||| (s == 669 && c == 743)
                ||| (s == 682 && c == 731)
                ||| (s == 695 && c == 719)
                ||| (s == 707 && c == 707)
            }),
    ;
}

/// Sine and cosine of an angle lie between -1000 and 1000, and the point
/// they give lies on the circle of radius 1000 to within little more than
/// a thousandth: the squares add up to a million, give or take 1200.
pub proof fn lemma_unit_circle(deg: int)
    ensures
        -1000 <= sine(deg) <= 1000,
        -1000 <= cosine(deg) <= 1000,
        998_800 <= sine(deg) * sine(deg) + cosine(deg) * cosine(deg) <= 1_001_200,
{
    let d = deg % 360;
    let e = (deg + 90) % 360;
    assert(e == if d < 270 {
        d + 90
    } else {
        d - 270
    });
    let q = if d <= 90 {
        d
    } else if d <= 180 {
        180 - d
    } else if d <= 270 {
        d - 180
    } else {
        360 - d
    };
    lemma_quarter_pair(q);
    lemma_quarter_sine_bounds(q);
    lemma_quarter_sine_bounds(90 - q);
    let s = QUARTER_SINE[q] as int;
    let c = QUARTER_SINE[90 - q] as int;
    assert(sine(deg) == s || sine(deg) == -s);
    assert(cosine(deg) == c || cosine(deg) == -c);
    assert(sine(deg) * sine(deg) == s * s) by (nonlinear_arith)
        requires
            sine(deg) == s || sine(deg) == -s,
    ;
    assert(cosine(deg) * cosine(deg) == c * c) by (nonlinear_arith)
        requires
            cosine(deg) == c || cosine(deg) == -c,
    ;
}

/// A thousand times the sine of `deg` degrees.
pub fn sin_milli(deg: u32) -> (s: i32)
    ensures
        s == sine(deg as int),
        -1000 <= s <= 1000,
{
    let d: u32 = deg % 360;
    if d <= 90 {
        proof {
            lemma_quarter_sine_bounds(d as int);
        }
        QUARTER_SINE[d as usize]
    } else if d <= 180 {
        proof {
            lemma_quarter_sine_bounds(180 - d);
        }
        QUARTER_SINE[(180 - d) as usize]
    } else if d <= 270 {
        proof {
            lemma_quarter_sine_bounds(d - 180);
        }
        -QUARTER_SINE[(d - 180) as usize]
    } else {
        proof {
            lemma_quarter_sine_bounds(360 - d);
        }
        -QUARTER_SINE[(360 - d) as usize]
    }
}

/// A thousand times the cosine of `deg` degrees.
pub fn cos_milli(deg: u32) -> (c: i32)
    ensures
        c == cosine(deg as int),
        -1000 <= c <= 1000,
{
    proof {
        lemma_full_turn(deg as int);
    }
    sin_milli(deg % 360 + 90)
}

/// `length` times `milli / 1000`, rounded towards zero.
pub fn scale(milli: i32, length: u32) -> (r: i64)
    ensures
        r == scaled(milli as int, length as int),
        -1000 <= milli <= 1000 ==> -(length as int) <= r <= length as int,
{
    let m: u64 = if milli >= 0 {
        milli as u64
    } else {
        (-(milli as i64)) as u64
    };
    assert(m * length <= 0x8000_0000 * 0xffff_ffff) by (nonlinear_arith)
        requires
            0 <= m <= 0x8000_0000,
            0 <= length <= 0xffff_ffff,
    ;
    assert(m <= 1000 ==> m * length <= 1000 * length) by (nonlinear_arith)
        requires
            0 <= m,
            0 <= length,
    ;
    let part: u64 = m * (length as u64) / 1000;
    if milli >= 0 {
        part as i64
    } else {
        -(part as i64)
    }
}

/// The point at the angle `deg` on the circle of the given radius around
/// `center`.
pub fn point_on_circle(center: Point, deg: u32, radius: u32) -> (p: Point)
    ensures
        p == circle_point(center, deg as int, radius as int),
{
    let x: i64 = center.x as i64 + scale(cos_milli(deg), radius);
    let y: i64 = center.y as i64 + scale(sin_milli(deg), radius);
    Point { x: saturate(x), y: saturate(y) }
}

/// `v` limited to the range of an `i32`.
pub fn saturate(v: i64) -> (r: i32)
    ensures
        r == clamp_i32(v as int),
{
    if v < i32::MIN as i64 {
        i32::MIN
    } else if v > i32::MAX as i64 {
        i32::MAX
    } else {
        v as i32
    }
}

} // verus!
