//! A cubic spline through given points that keeps their order: where the
//! points rise the spline rises, where they fall it falls, and between two
//! neighbouring points it stays between their values.

use vstd::prelude::*;
use vstd::string::StringExecFns;
use crate::errors::SplineError;

verus! {

/// Largest coordinate, up or down, that a spline is made for.
pub const MAX_COORD: i64 = 1_000_000_000;

/// One whole, for the position within a segment and for slopes.
pub const UNIT: i128 = 1_000_000;

/// The second power of [`UNIT`].
pub const SQUARE: i128 = 1_000_000_000_000;

/// The third power of [`UNIT`].
pub const CUBE: i128 = 1_000_000_000_000_000_000;

/// Bound on the slopes of a spline, in millionths.
pub const MAX_SLOPE: i128 = 4_000_000_000_000_000;

/// A spline through the points `(x[i], y[i])`, with the slope `m[i]` at each
/// point, in millionths.
#[derive(Debug)]
pub struct MonotonicCubicSpline {
    pub x: Vec<i64>,
    pub y: Vec<i64>,
    pub m: Vec<i64>,
}

/// The points can carry a spline: there are at least two, as many values
/// as positions, the positions rise, and all are within the limits.
pub open spec fn points_ok(x: Seq<i64>, y: Seq<i64>) -> bool {
    &&& x.len() >= 2
    &&& x.len() == y.len()
    &&& forall|i: int| 0 <= i < x.len() ==> -MAX_COORD <= (#[trigger] x[i]) <= MAX_COORD
    &&& forall|i: int| 0 <= i < y.len() ==> -MAX_COORD <= (#[trigger] y[i]) <= MAX_COORD
    &&& forall|i: int, j: int| 0 <= i && j == i + 1 && j < x.len() ==> (#[trigger] x[i]) < (
    #[trigger] x[j])
}

/// `a / b` for a positive `b`, rounded towards zero.
pub open spec fn toward_zero(a: int, b: int) -> int {
    if a >= 0 {
        a / b
    } else {
        -((-a) / b)
    }
}

/// Slope of the line from point `k` to the next, in millionths.
pub open spec fn secant(x: Seq<i64>, y: Seq<i64>, k: int) -> int {
    toward_zero((y[k + 1] - y[k]) * UNIT, x[k + 1] - x[k])
}

/// The harmonic mean of two slopes that both rise or both fall; nothing
/// where they do not.
pub open spec fn harmonic(a: int, b: int) -> int {
    if a > 0 && b > 0 {
        (2 * a * b) / (a + b)
    } else if a < 0 && b < 0 {
        -((2 * a * b) / (-a - b))
    } else {
        0
    }
}

/// Slope of the spline at point `k`, in millionths: at the ends that of the
/// line to the neighbour; in between the harmonic mean of the slopes of the
/// lines to the two neighbours.
pub open spec fn tangent(x: Seq<i64>, y: Seq<i64>, k: int) -> int {
    if k <= 0 {
        secant(x, y, 0)
    } else if k >= x.len() - 1 {
        secant(x, y, x.len() - 2)
    } else {
        harmonic(secant(x, y, k - 1), secant(x, y, k))
    }
}

/// `v` held between `a` and `b`, whichever is the lower.
pub open spec fn between(v: int, a: int, b: int) -> int {
    let lo = if a <= b {
        a
    } else {
        b
    };
    let hi = if a <= b {
        b
    } else {
        a
    };
    if v < lo {
        lo
    } else if v > hi {
        hi
    } else {
        v
    }
}

/// The cubic of a segment at the position `t`, in millionths of the
/// segment's length: the part of the way from the first value of the
/// segment to the second that is done at `t`, times the third power of
/// [`UNIT`]. The value rises by `r` over the segment; `a` and `b` are what
/// the slopes at its two ends come to over its length.
pub open spec fn cubic(a: int, b: int, r: int, t: int) -> int {
    a * t * SQUARE + (3 * r - 2 * a - b) * (t * t) * UNIT + (a + b - 2 * r) * (t * t * t)
}

/// What the slope `m` comes to over the length `h`.
pub open spec fn over_length(m: int, h: int) -> int {
    toward_zero(m * h, UNIT as int)
}

/// Value of the cubic over the segment from point `k` to the next, at the
/// position `t` within it, in millionths of its length; held between the
/// values of its two points.
pub open spec fn segment_value(s: MonotonicCubicSpline, k: int, t: int) -> int {
    let h = s.x@[k + 1] - s.x@[k];
    let r = s.y@[k + 1] - s.y@[k];
    let a = over_length(s.m@[k] as int, h);
    let b = over_length(s.m@[k + 1] as int, h);
    if t >= UNIT {
        s.y@[k + 1] as int
    } else {
        between(s.y@[k] + toward_zero(cubic(a, b, r, t), CUBE as int), s.y@[k] as int, s.y@[
            k + 1
        ] as int)
    }
}

/// `k` is the segment that holds `x`: the last one that begins at or
/// before it.
pub open spec fn holds(xs: Seq<i64>, k: int, x: int) -> bool {
    &&& 0 <= k <= xs.len() - 2
    &&& xs[k] <= x
    &&& k < xs.len() - 2 ==> x < xs[k + 1]
}

impl MonotonicCubicSpline {
    /// The spline is made of sound points and their slopes.
    pub open spec fn wf(&self) -> bool {
        &&& points_ok(self.x@, self.y@)
        &&& self.m@.len() == self.x@.len()
        &&& forall|k: int|
            0 <= k < self.m@.len() ==> (#[trigger] self.m@[k]) == tangent(self.x@, self.y@, k)
    }

    /// `r` is the value of the spline at `x`: that of the first or the last
    /// point where `x` lies before or after all points, else that of the
    /// cubic over the segment that holds `x`.
    pub open spec fn value_at(&self, x: i64, r: int) -> bool {
        let n = self.x@.len() as int;
        if x <= self.x@[0] {
            r == self.y@[0]
        } else if x >= self.x@[n - 1] {
            r == self.y@[n - 1]
        } else {
            exists|k: int|
                holds(self.x@, k, x as int) && r == #[trigger] segment_value(
                    *self,
                    k,
                    ((x - self.x@[k]) * UNIT) / (self.x@[k + 1] - self.x@[k]),
                )
        }
    }
}

/// Divides by a positive number and rounds towards zero.
pub fn div_toward_zero(a: i128, b: i128) -> (r: i128)
    requires
        b > 0,
        -1_000_000_000_000_000_000_000_000_000_000_000 <= a
            <= 1_000_000_000_000_000_000_000_000_000_000_000,
    ensures
        r == toward_zero(a as int, b as int),
{
    if a >= 0 {
        a / b
    } else {
        -((-a) / b)
    }
}

/// Rounding towards zero keeps the sign, does not make a number greater in
/// size, and keeps the order of numbers.
proof fn lemma_toward_zero(a: int, c: int, b: int)
    requires
        b >= 1,
        a <= c,
    ensures
        toward_zero(a, b) <= toward_zero(c, b),
        a >= 0 ==> 0 <= toward_zero(a, b) <= a && toward_zero(a, b) * b <= a,
        a <= 0 ==> a <= toward_zero(a, b) <= 0 && toward_zero(a, b) * b >= a,
{
    if a >= 0 {
        assert(0 <= a / b <= a && (a / b) * b <= a && a / b <= c / b) by (nonlinear_arith)
            requires
                b >= 1,
                0 <= a <= c,
        ;
    } else {
        let p = -a;
        assert(0 <= p / b <= p && (p / b) * b <= p) by (nonlinear_arith)
            requires
                b >= 1,
                p >= 0,
        ;
        assert((-(p / b)) * b == -((p / b) * b)) by (nonlinear_arith);
        if c >= 0 {
            assert(0 <= c / b) by (nonlinear_arith)
                requires
                    b >= 1,
                    c >= 0,
            ;
        } else {
            let q = -c;
            assert(q / b <= p / b) by (nonlinear_arith)
                requires
                    b >= 1,
                    0 <= q <= p,
            ;
        }
    }
}

/// The harmonic mean of two positive numbers is no more than twice either.
proof fn lemma_harmonic_bounded(a: int, b: int)
    requires
        a > 0,
        b > 0,
    ensures
        0 <= (2 * a * b) / (a + b) <= 2 * a,
        (2 * a * b) / (a + b) <= 2 * b,
{
    assert(0 <= (2 * a * b) / (a + b) <= 2 * a) by (nonlinear_arith)
        requires
            a > 0,
            b > 0,
    ;
    assert((2 * a * b) / (a + b) <= 2 * b) by (nonlinear_arith)
        requires
            a > 0,
            b > 0,
    ;
}

/// The harmonic mean of two slopes lies between nothing and twice either.
proof fn lemma_harmonic_between(a: int, b: int)
    ensures
        a >= 0 ==> 0 <= harmonic(a, b) <= 2 * a,
        b >= 0 ==> 0 <= harmonic(a, b) <= 2 * b,
        a <= 0 ==> 2 * a <= harmonic(a, b) <= 0,
        b <= 0 ==> 2 * b <= harmonic(a, b) <= 0,
{
    if a > 0 && b > 0 {
        lemma_harmonic_bounded(a, b);
    } else if a < 0 && b < 0 {
        assert(2 * a * b == 2 * (-a) * (-b)) by (nonlinear_arith);
        lemma_harmonic_bounded(-a, -b);
    }
}

/// The slope of the line over a segment has the sign of the rise over the
/// segment, and over the length of the segment it comes to no more than the
/// rise.
proof fn lemma_secant_sign(x: Seq<i64>, y: Seq<i64>, k: int)
    requires
        points_ok(x, y),
        0 <= k <= x.len() - 2,
    ensures
        -MAX_SLOPE / 2 <= secant(x, y, k) <= MAX_SLOPE / 2,
        y[k + 1] >= y[k] ==> 0 <= secant(x, y, k) && secant(x, y, k) * (x[k + 1] - x[k]) <= (y[k
            + 1] - y[k]) * UNIT,
        y[k + 1] <= y[k] ==> secant(x, y, k) <= 0 && secant(x, y, k) * (x[k + 1] - x[k]) >= (y[k
            + 1] - y[k]) * UNIT,
{
    let r = y[k + 1] - y[k];
    let h = x[k + 1] - x[k];
    assert(x[k] < x[k + 1]);
    assert(-2_000_000_000_000_000 <= r * UNIT <= 2_000_000_000_000_000) by (nonlinear_arith)
        requires
            -2_000_000_000 <= r <= 2_000_000_000,
    ;
    lemma_toward_zero(r * UNIT, r * UNIT, h);
}

/// The slopes of the spline at the two ends of a segment lie between
/// nothing and twice the slope of the line over the segment.
proof fn lemma_tangents_between(x: Seq<i64>, y: Seq<i64>, k: int)
    requires
        points_ok(x, y),
        0 <= k <= x.len() - 2,
    ensures
        secant(x, y, k) >= 0 ==> 0 <= tangent(x, y, k) <= 2 * secant(x, y, k) && 0 <= tangent(
            x,
            y,
            k + 1,
        ) <= 2 * secant(x, y, k),
        secant(x, y, k) <= 0 ==> 2 * secant(x, y, k) <= tangent(x, y, k) <= 0 && 2 * secant(
            x,
            y,
            k,
        ) <= tangent(x, y, k + 1) <= 0,
        -MAX_SLOPE <= tangent(x, y, k) <= MAX_SLOPE,
        -MAX_SLOPE <= tangent(x, y, k + 1) <= MAX_SLOPE,
{
    lemma_secant_sign(x, y, k);
    let d = secant(x, y, k);
    if k > 0 {
        lemma_secant_sign(x, y, k - 1);
        lemma_harmonic_between(secant(x, y, k - 1), d);
    }
    if k + 1 < x.len() - 1 {
        lemma_secant_sign(x, y, k + 1);
        lemma_harmonic_between(d, secant(x, y, k + 1));
    }
}

/// What the slopes at the two ends of a segment come to over its length
/// lies between nothing and twice the rise over the segment.
proof fn lemma_leads_between(s: MonotonicCubicSpline, k: int)
    requires
        s.wf(),
        0 <= k <= s.x@.len() - 2,
    ensures
        ({
            let h = s.x@[k + 1] - s.x@[k];
            let r = s.y@[k + 1] - s.y@[k];
            let a = over_length(s.m@[k] as int, h);
            let b = over_length(s.m@[k + 1] as int, h);
            &&& h >= 1
            &&& r >= 0 ==> 0 <= a <= 2 * r && 0 <= b <= 2 * r
            &&& r <= 0 ==> 2 * r <= a <= 0 && 2 * r <= b <= 0
        }),
{
    let x = s.x@;
    let y = s.y@;
    let h = x[k + 1] - x[k];
    let r = y[k + 1] - y[k];
    assert(x[k] < x[k + 1]);
    lemma_secant_sign(x, y, k);
    lemma_tangents_between(x, y, k);
    let d = secant(x, y, k);
    let m0 = s.m@[k] as int;
    let m1 = s.m@[k + 1] as int;
    assert(m0 == tangent(x, y, k));
    assert(m1 == tangent(x, y, k + 1));
    if r >= 0 {
        assert(d >= 0);
        lemma_lead_bounded(m0, d, h, r);
        lemma_lead_bounded(m1, d, h, r);
    }
    if r <= 0 {
        assert(d <= 0);
        assert((-m0) * h == -(m0 * h)) by (nonlinear_arith);
        assert((-m1) * h == -(m1 * h)) by (nonlinear_arith);
        assert((-d) * h == -(d * h)) by (nonlinear_arith);
        assert((-r) * UNIT == -(r * UNIT)) by (nonlinear_arith);
        lemma_lead_bounded(-m0, -d, h, -r);
        lemma_lead_bounded(-m1, -d, h, -r);
    }
}

/// A slope that is no more than twice the slope of the line over a segment
/// comes to no more than twice the rise over the length of the segment.
proof fn lemma_lead_bounded(m: int, d: int, h: int, r: int)
    requires
        h >= 1,
        r >= 0,
        0 <= m <= 2 * d,
        d * h <= r * UNIT,
    ensures
        0 <= (m * h) / (UNIT as int) <= 2 * r,
        m * h >= 0,
{
    assert(0 <= m * h <= 2 * r * 1_000_000) by (nonlinear_arith)
        requires
            h >= 1,
            0 <= m <= 2 * d,
            d * h <= r * 1_000_000,
    ;
    let p = m * h;
    assert(0 <= p / 1_000_000 <= 2 * r) by (nonlinear_arith)
        requires
            0 <= p <= 2 * r * 1_000_000,
    ;
}

/// What a step along a rising segment adds to the cubic is not negative.
proof fn lemma_cubic_step(a: int, b: int, r: int, t: int)
    requires
        r >= 0,
        0 <= a <= 2 * r,
        0 <= b <= 2 * r,
        0 <= t < UNIT,
    ensures
        cubic(a, b, r, t) <= cubic(a, b, r, t + 1),
{
    let s: int = 1_000_000;
    let one = 2 * t + 1;
    let two = 3 * (t * t) + 3 * t + 1;
    assert((t + 1) * (t + 1) == t * t + one) by (nonlinear_arith)
        requires
            one == 2 * t + 1,
    ;
    assert((t + 1) * (t + 1) * (t + 1) == t * t * t + two) by (nonlinear_arith)
        requires
            two == 3 * (t * t) + 3 * t + 1,
    ;
    let c2 = 3 * r - 2 * a - b;
    let c3 = a + b - 2 * r;
    let step = a * SQUARE + c2 * one * UNIT + c3 * two;
    assert(cubic(a, b, r, t + 1) - cubic(a, b, r, t) == step) by (nonlinear_arith)
        requires
            (t + 1) * (t + 1) == t * t + one,
            (t + 1) * (t + 1) * (t + 1) == t * t * t + two,
            step == a * 1_000_000_000_000 + c2 * one * 1_000_000 + c3 * two,
            cubic(a, b, r, t + 1) == a * (t + 1) * 1_000_000_000_000 + c2 * ((t + 1) * (t + 1))
                * 1_000_000 + c3 * ((t + 1) * (t + 1) * (t + 1)),
            cubic(a, b, r, t) == a * t * 1_000_000_000_000 + c2 * (t * t) * 1_000_000 + c3 * (t * t
                * t),
    ;
    // what the step is at the four corners of the range of `a` and `b`, each divided by `r`
    let flat = 3 * s * one - 2 * two;
    let lead = 2 * s * s - s * one;
    let tail = s * one;
    let both = 2 * s * s - 3 * s * one + 2 * two;
    assert(flat >= 0) by (nonlinear_arith)
        requires
            flat == 3 * 1_000_000 * (2 * t + 1) - 2 * (3 * (t * t) + 3 * t + 1),
            0 <= t < 1_000_000,
    ;
    assert(lead >= 0 && tail >= 0);
    let w = 2 * t - s + 1;
    assert(2 * both == 3 * (w * w) + s * s + 1) by (nonlinear_arith)
        requires
            both == 2 * 1_000_000 * 1_000_000 - 3 * 1_000_000 * (2 * t + 1) + 2 * (3 * (t * t) + 3
                * t + 1),
            w == 2 * t - 1_000_000 + 1,
            s == 1_000_000,
    ;
    assert(w * w >= 0) by (nonlinear_arith);
    assert(both >= 0);
    if a + b <= 2 * r {
        assert(2 * step == (2 * r - a - b) * flat + a * lead + b * tail) by (nonlinear_arith)
            requires
                step == a * 1_000_000_000_000 + (3 * r - 2 * a - b) * one * 1_000_000 + (a + b - 2
                    * r) * two,
                flat == 3 * 1_000_000 * one - 2 * two,
                lead == 2 * 1_000_000 * 1_000_000 - 1_000_000 * one,
                tail == 1_000_000 * one,
        ;
        assert((2 * r - a - b) * flat >= 0 && a * lead >= 0 && b * tail >= 0) by (nonlinear_arith)
            requires
                2 * r - a - b >= 0,
                flat >= 0,
                a >= 0,
                lead >= 0,
                b >= 0,
                tail >= 0,
        ;
    } else {
        assert(2 * step == (2 * r - b) * lead + (2 * r - a) * tail + (a + b - 2 * r) * both)
            by (nonlinear_arith)
            requires
                step == a * 1_000_000_000_000 + (3 * r - 2 * a - b) * one * 1_000_000 + (a + b - 2
                    * r) * two,
                lead == 2 * 1_000_000 * 1_000_000 - 1_000_000 * one,
                tail == 1_000_000 * one,
                both == 2 * 1_000_000 * 1_000_000 - 3 * 1_000_000 * one + 2 * two,
        ;
        assert((2 * r - b) * lead >= 0 && (2 * r - a) * tail >= 0 && (a + b - 2 * r) * both >= 0)
            by (nonlinear_arith)
            requires
                2 * r - b >= 0,
                lead >= 0,
                2 * r - a >= 0,
                tail >= 0,
                a + b - 2 * r >= 0,
                both >= 0,
        ;
    }
}

/// Along a rising segment the cubic does not fall.
proof fn lemma_cubic_rises(a: int, b: int, r: int, t: int, u: int)
    requires
        r >= 0,
        0 <= a <= 2 * r,
        0 <= b <= 2 * r,
        0 <= t <= u <= UNIT,
    ensures
        cubic(a, b, r, t) <= cubic(a, b, r, u),
    decreases u - t,
{
    if t < u {
        lemma_cubic_rises(a, b, r, t, u - 1);
        lemma_cubic_step(a, b, r, u - 1);
    }
}

/// The cubic of a falling segment is that of the rising segment with the
/// same numbers, with the sign turned.
proof fn lemma_cubic_mirror(a: int, b: int, r: int, t: int)
    ensures
        cubic(-a, -b, -r, t) == -cubic(a, b, r, t),
{
    assert(cubic(-a, -b, -r, t) == -cubic(a, b, r, t)) by (nonlinear_arith)
        requires
            cubic(a, b, r, t) == a * t * 1_000_000_000_000 + (3 * r - 2 * a - b) * (t * t)
                * 1_000_000 + (a + b - 2 * r) * (t * t * t),
            cubic(-a, -b, -r, t) == (-a) * t * 1_000_000_000_000 + (3 * (-r) - 2 * (-a) - (-b)) * (
            t * t) * 1_000_000 + ((-a) + (-b) - 2 * (-r)) * (t * t * t),
    ;
}

/// At its start the cubic is nothing, at its end it is the whole rise.
proof fn lemma_cubic_ends(a: int, b: int, r: int)
    ensures
        cubic(a, b, r, 0) == 0,
        cubic(a, b, r, UNIT as int) == r * CUBE,
{
    let s: int = 1_000_000;
    assert(cubic(a, b, r, 0) == 0) by (nonlinear_arith)
        requires
            cubic(a, b, r, 0) == a * 0 * 1_000_000_000_000 + (3 * r - 2 * a - b) * (0 * 0int)
                * 1_000_000 + (a + b - 2 * r) * (0 * 0 * 0int),
    ;
    assert(s * s == 1_000_000_000_000 && s * s * s == 1_000_000_000_000_000_000)
        by (nonlinear_arith)
        requires
            s == 1_000_000,
    ;
    assert(cubic(a, b, r, s) == r * 1_000_000_000_000_000_000) by (nonlinear_arith)
        requires
            cubic(a, b, r, s) == a * s * 1_000_000_000_000 + (3 * r - 2 * a - b) * (s * s)
                * 1_000_000 + (a + b - 2 * r) * (s * s * s),
            s == 1_000_000,
            s * s == 1_000_000_000_000,
            s * s * s == 1_000_000_000_000_000_000,
    ;
}

/// Over a segment the spline keeps the order of the two points of the
/// segment: where the second point is no lower than the first, the spline
/// does not fall over the segment; where it is no higher, the spline does
/// not rise.
pub proof fn law_segment_keeps_order(s: MonotonicCubicSpline, k: int, t: int, u: int)
    requires
        s.wf(),
        0 <= k <= s.x@.len() - 2,
        0 <= t <= u,
    ensures
        s.y@[k] <= s.y@[k + 1] ==> segment_value(s, k, t) <= segment_value(s, k, u),
        s.y@[k] >= s.y@[k + 1] ==> segment_value(s, k, t) >= segment_value(s, k, u),
{
    let h = s.x@[k + 1] - s.x@[k];
    let r = s.y@[k + 1] - s.y@[k];
    let a = over_length(s.m@[k] as int, h);
    let b = over_length(s.m@[k + 1] as int, h);
    lemma_leads_between(s, k);
    if u < UNIT {
        if r >= 0 {
            lemma_cubic_rises(a, b, r, t, u);
            lemma_toward_zero(cubic(a, b, r, t), cubic(a, b, r, u), CUBE as int);
        }
        if r <= 0 {
            lemma_cubic_rises(-a, -b, -r, t, u);
            lemma_cubic_mirror(a, b, r, t);
            lemma_cubic_mirror(a, b, r, u);
            lemma_toward_zero(cubic(a, b, r, u), cubic(a, b, r, t), CUBE as int);
        }
    }
}

/// Over a segment the spline stays between the values of the two points of
/// the segment; at the start of the segment it has the value of the first,
/// and at its end that of the second.
pub proof fn law_spline_stays_between(s: MonotonicCubicSpline, k: int, t: int)
    requires
        s.wf(),
        0 <= k <= s.x@.len() - 2,
        0 <= t,
    ensures
        segment_value(s, k, t) == between(segment_value(s, k, t), s.y@[k] as int, s.y@[k + 1] as int),
        segment_value(s, k, 0) == s.y@[k],
        t >= UNIT ==> segment_value(s, k, t) == s.y@[k + 1],
{
    let h = s.x@[k + 1] - s.x@[k];
    let r = s.y@[k + 1] - s.y@[k];
    let a = over_length(s.m@[k] as int, h);
    let b = over_length(s.m@[k + 1] as int, h);
    lemma_cubic_ends(a, b, r);
}

/// The positions of sound points rise.
proof fn lemma_points_rise(x: Seq<i64>, y: Seq<i64>, i: int, j: int)
    requires
        points_ok(x, y),
        0 <= i < x.len(),
        0 <= j < x.len(),
    ensures
        i < j ==> x[i] < x[j],
        i == j ==> x[i] == x[j],
    decreases j - i,
{
    if i < j {
        lemma_points_rise(x, y, i, j - 1);
        assert(x[j - 1] < x[j]);
    }
}

/// At each of its points the spline has the value of the point.
pub proof fn law_spline_hits_points(s: MonotonicCubicSpline, k: int, r: int)
    requires
        s.wf(),
        0 <= k < s.x@.len(),
        s.value_at(s.x@[k], r),
    ensures
        r == s.y@[k],
{
    let n = s.x@.len() as int;
    let x = s.x@[k];
    lemma_points_rise(s.x@, s.y@, 0, k);
    lemma_points_rise(s.x@, s.y@, k, n - 1);
    if x <= s.x@[0] {
        assert(k == 0);
    } else if x >= s.x@[n - 1] {
        assert(k == n - 1);
    } else {
        let j = choose|j: int|
            holds(s.x@, j, x as int) && r == #[trigger] segment_value(
                s,
                j,
                ((x - s.x@[j]) * UNIT) / (s.x@[j + 1] - s.x@[j]),
            );
        lemma_points_rise(s.x@, s.y@, j, k);
        lemma_points_rise(s.x@, s.y@, k, j);
        lemma_points_rise(s.x@, s.y@, k, j + 1);
        lemma_points_rise(s.x@, s.y@, j + 1, k);
        assert(j == k);
        assert((x - s.x@[j]) * UNIT == 0);
        law_spline_stays_between(s, j, 0);
    }
}

/// The values of the points do not fall from one point to the next.
pub open spec fn values_rise(y: Seq<i64>) -> bool {
    forall|i: int, j: int| 0 <= i && j == i + 1 && j < y.len() ==> (#[trigger] y[i]) <= (
    #[trigger] y[j])
}

/// The values of the points do not rise from one point to the next.
pub open spec fn values_fall(y: Seq<i64>) -> bool {
    forall|i: int, j: int| 0 <= i && j == i + 1 && j < y.len() ==> (#[trigger] y[i]) >= (
    #[trigger] y[j])
}

/// Values that do not fall from one point to the next do not fall from a
/// point to any later one; likewise for values that do not rise.
proof fn lemma_values_ordered(y: Seq<i64>, i: int, j: int)
    requires
        0 <= i <= j < y.len(),
    ensures
        values_rise(y) ==> y[i] <= y[j],
        values_fall(y) ==> y[i] >= y[j],
    decreases j - i,
{
    if i < j {
        lemma_values_ordered(y, i, j - 1);
        if values_rise(y) {
            assert(y[j - 1] <= y[j]);
        }
        if values_fall(y) {
            assert(y[j - 1] >= y[j]);
        }
    }
}

/// The value of the spline at a place between its first and its last
/// point lies between the values of the two points of the segment that holds
/// the place.
proof fn lemma_value_in_segment(s: MonotonicCubicSpline, x: i64, r: int) -> (k: int)
    requires
        s.wf(),
        s.x@[0] < x < s.x@[s.x@.len() - 1],
        s.value_at(x, r),
    ensures
        holds(s.x@, k, x as int),
        x < s.x@[k + 1],
        r == segment_value(s, k, ((x - s.x@[k]) * UNIT) / (s.x@[k + 1] - s.x@[k])),
        r == between(r, s.y@[k] as int, s.y@[k + 1] as int),
{
    let k = choose|k: int|
        holds(s.x@, k, x as int) && r == #[trigger] segment_value(
            s,
            k,
            ((x - s.x@[k]) * UNIT) / (s.x@[k + 1] - s.x@[k]),
        );
    let h = s.x@[k + 1] - s.x@[k];
    assert(s.x@[k] < s.x@[k + 1]);
    let t = ((x - s.x@[k]) * UNIT) / h;
    assert(t >= 0) by (nonlinear_arith)
        requires
            t == ((x - s.x@[k]) * UNIT) / h,
            x - s.x@[k] >= 0,
            h >= 1,
    ;
    law_spline_stays_between(s, k, t);
    k
}

/// The spline keeps the order of its points: through points whose values
/// do not fall, it does not fall; through points whose values do not rise,
/// it does not rise.
pub proof fn law_spline_keeps_order(s: MonotonicCubicSpline, x: i64, z: i64, r: int, q: int)
    requires
        s.wf(),
        x <= z,
        s.value_at(x, r),
        s.value_at(z, q),
    ensures
        values_rise(s.y@) ==> r <= q,
        values_fall(s.y@) ==> r >= q,
{
    let n = s.x@.len() as int;
    let first = s.x@[0];
    let last = s.x@[n - 1];
    lemma_points_rise(s.x@, s.y@, 0, n - 1);
    lemma_values_ordered(s.y@, 0, n - 1);
    if x <= first {
        if z <= first {
        } else if z >= last {
        } else {
            let j = lemma_value_in_segment(s, z, q);
            lemma_values_ordered(s.y@, 0, j);
        }
    } else if x >= last {
    } else {
        let k = lemma_value_in_segment(s, x, r);
        if z >= last {
            lemma_values_ordered(s.y@, k + 1, n - 1);
        } else {
            let j = lemma_value_in_segment(s, z, q);
            if j < k {
                lemma_points_rise(s.x@, s.y@, j + 1, k);
            } else if j == k {
                let h = s.x@[k + 1] - s.x@[k];
                let t = ((x - s.x@[k]) * UNIT) / h;
                let u = ((z - s.x@[k]) * UNIT) / h;
                assert(0 <= t <= u) by (nonlinear_arith)
                    requires
                        t == ((x - s.x@[k]) * UNIT) / h,
                        u == ((z - s.x@[k]) * UNIT) / h,
                        0 <= x - s.x@[k] <= z - s.x@[k],
                        h >= 1,
                ;
                law_segment_keeps_order(s, k, t, u);
            } else {
                lemma_values_ordered(s.y@, k + 1, j);
            }
        }
    }
}

/// Works out the slope of the line from point `k` to the next.
fn secant_of(x: &Vec<i64>, y: &Vec<i64>, k: usize) -> (r: i128)
    requires
        points_ok(x@, y@),
        k + 2 <= x.len(),
    ensures
        r == secant(x@, y@, k as int),
        -MAX_SLOPE / 2 <= r <= MAX_SLOPE / 2,
{
    proof {
        lemma_secant_sign(x@, y@, k as int);
    }
    assert(x@[k as int] < x@[k + 1]);
    let rise: i128 = y[k + 1] as i128 - y[k] as i128;
    let h: i128 = x[k + 1] as i128 - x[k] as i128;
    div_toward_zero(rise * UNIT, h)
}

/// Works out the slope of the spline at point `k`.
fn tangent_of(x: &Vec<i64>, y: &Vec<i64>, k: usize) -> (r: i64)
    requires
        points_ok(x@, y@),
        k < x.len(),
    ensures
        r == tangent(x@, y@, k as int),
{
    let n = x.len();
    if k == 0 {
        secant_of(x, y, 0) as i64
    } else if k >= n - 1 {
        secant_of(x, y, n - 2) as i64
    } else {
        let a = secant_of(x, y, k - 1);
        let b = secant_of(x, y, k);
        proof {
            lemma_harmonic_between(a as int, b as int);
        }
        if a > 0 && b > 0 {
            assert(0 <= 2 * a * b <= 2 * MAX_SLOPE * MAX_SLOPE) by (nonlinear_arith)
                requires
                    0 < a <= MAX_SLOPE,
                    0 < b <= MAX_SLOPE,
            ;
            ((2 * a * b) / (a + b)) as i64
        } else if a < 0 && b < 0 {
            assert(0 <= 2 * a * b <= 2 * MAX_SLOPE * MAX_SLOPE) by (nonlinear_arith)
                requires
                    -MAX_SLOPE <= a < 0,
                    -MAX_SLOPE <= b < 0,
            ;
            (-((2 * a * b) / (-a - b))) as i64
        } else {
            0
        }
    }
}

impl MonotonicCubicSpline {
    /// Makes the spline through the given points.
    pub fn new(x: &Vec<i64>, y: &Vec<i64>) -> (r: Result<MonotonicCubicSpline, SplineError>)
        ensures
            match r {
                Ok(s) => points_ok(x@, y@) && s.wf() && s.x@ == x@ && s.y@ == y@,
                Err(e) => !points_ok(x@, y@) && e.0@ == "points cannot carry a spline"@,
            },
    {
        if !check_points(x, y) {
            return Err(SplineError(String::from_str("points cannot carry a spline")));
        }
        let n = x.len();
        let mut m: Vec<i64> = Vec::new();
        let mut k: usize = 0;
        while k < n
            invariant
                points_ok(x@, y@),
                n == x.len(),
                k <= n,
                m@.len() == k,
                forall|j: int| 0 <= j < k ==> (#[trigger] m@[j]) == tangent(x@, y@, j),
            decreases n - k,
        {
            m.push(tangent_of(x, y, k));
            k += 1;
        }
        Ok(MonotonicCubicSpline { x: x.clone(), y: y.clone(), m })
    }

    /// Checks that the spline is made of sound points and their slopes.
    pub fn is_valid(&self) -> (r: bool)
        ensures
            r == self.wf(),
    {
        if !check_points(&self.x, &self.y) || self.m.len() != self.x.len() {
            return false;
        }
        let n = self.x.len();
        let mut k: usize = 0;
        while k < n
            invariant
                points_ok(self.x@, self.y@),
                n == self.x.len(),
                n == self.m.len(),
                k <= n,
                forall|j: int|
                    0 <= j < k ==> (#[trigger] self.m@[j]) == tangent(self.x@, self.y@, j),
            decreases n - k,
        {
            if self.m[k] != tangent_of(&self.x, &self.y, k) {
                return false;
            }
            k += 1;
        }
        true
    }

    /// The value of the spline at `x`. Before the first point it is the
    /// value of the first point, after the last that of the last; at a point
    /// it is the point's value, and between two points it lies between
    /// their values.
    pub fn interpolate(&self, x: i64) -> (r: i64)
        requires
            self.wf(),
        ensures
            self.value_at(x, r as int),
            -MAX_COORD <= r <= MAX_COORD,
    {
        let n = self.x.len();
        if x <= self.x[0] {
            return self.y[0];
        }
        if x >= self.x[n - 1] {
            return self.y[n - 1];
        }
        let k = self.find_segment(x);
        assert(self.x@[k as int] < self.x@[k + 1]);
        let h: i128 = self.x[k + 1] as i128 - self.x[k] as i128;
        let u: i128 = x as i128 - self.x[k] as i128;
        assert(0 <= u * UNIT <= h * UNIT && (u * UNIT) / (h as int) <= UNIT) by (nonlinear_arith)
            requires
                0 <= u <= h,
                h >= 1,
        ;
        let t: i128 = (u * UNIT) / h;
        self.eval_segment(k, t)
    }

    /// Finds the segment that holds `x`, by halving.
    fn find_segment(&self, x: i64) -> (k: usize)
        requires
            self.wf(),
            self.x@[0] < x < self.x@[self.x@.len() - 1],
        ensures
            holds(self.x@, k as int, x as int),
            x < self.x@[k + 1],
    {
        let n = self.x.len();
        let mut lo: usize = 0;
        let mut hi: usize = n - 1;
        while hi - lo > 1
            invariant
                self.wf(),
                n == self.x@.len(),
                lo < hi <= n - 1,
                self.x@[lo as int] <= x < self.x@[hi as int],
            decreases hi - lo,
        {
            let mid = lo + (hi - lo) / 2;
            if self.x[mid] <= x {
                lo = mid;
            } else {
                hi = mid;
            }
        }
        lo
    }

    /// Evaluates the cubic over the segment `k` at the position `t`.
    fn eval_segment(&self, k: usize, t: i128) -> (r: i64)
        requires
            self.wf(),
            k + 2 <= self.x.len(),
            0 <= t <= UNIT,
        ensures
            r == segment_value(*self, k as int, t as int),
            -MAX_COORD <= r <= MAX_COORD,
    {
        proof {
            lemma_tangents_between(self.x@, self.y@, k as int);
            lemma_leads_between(*self, k as int);
        }
        assert(self.x@[k as int] < self.x@[k + 1]);
        let y0: i128 = self.y[k] as i128;
        let y1: i128 = self.y[k + 1] as i128;
        if t >= UNIT {
            return self.y[k + 1];
        }
        let h: i128 = self.x[k + 1] as i128 - self.x[k] as i128;
        let rise: i128 = y1 - y0;
        let m0: i128 = self.m[k] as i128;
        let m1: i128 = self.m[k + 1] as i128;
        let bound: i128 = 8_000_000_000_000_000_000_000_000;
        assert(-bound <= m0 * h <= bound) by (nonlinear_arith)
            requires
                -MAX_SLOPE <= m0 <= MAX_SLOPE,
                1 <= h <= 2_000_000_000,
                bound == 8_000_000_000_000_000_000_000_000,
        ;
        assert(-bound <= m1 * h <= bound) by (nonlinear_arith)
            requires
                -MAX_SLOPE <= m1 <= MAX_SLOPE,
                1 <= h <= 2_000_000_000,
                bound == 8_000_000_000_000_000_000_000_000,
        ;
        let a = div_toward_zero(m0 * h, UNIT);
        let b = div_toward_zero(m1 * h, UNIT);
        assert(-4_000_000_000 <= a <= 4_000_000_000);
        assert(-4_000_000_000 <= b <= 4_000_000_000);
        let c2: i128 = 3 * rise - 2 * a - b;
        let c3: i128 = a + b - 2 * rise;
        assert(0 <= t * t <= 1_000_000_000_000 && 0 <= t * t * t <= 1_000_000_000_000_000_000)
            by (nonlinear_arith)
            requires
                0 <= t <= 1_000_000,
        ;
        let t2: i128 = t * t;
        let t3: i128 = t2 * t;
        let big: i128 = 20_000_000_000_000_000_000_000_000_000;
        assert(-big <= a * t <= big && -big <= a * t * SQUARE <= big) by (nonlinear_arith)
            requires
                -4_000_000_000 <= a <= 4_000_000_000,
                0 <= t <= 1_000_000,
                big == 20_000_000_000_000_000_000_000_000_000,
        ;
        assert(-big <= c2 * t2 <= big && -big <= c2 * t2 * UNIT <= big) by (nonlinear_arith)
            requires
                -20_000_000_000 <= c2 <= 20_000_000_000,
                0 <= t2 <= 1_000_000_000_000,
                big == 20_000_000_000_000_000_000_000_000_000,
        ;
        assert(-big <= c3 * t3 <= big) by (nonlinear_arith)
            requires
                -20_000_000_000 <= c3 <= 20_000_000_000,
                0 <= t3 <= 1_000_000_000_000_000_000,
                big == 20_000_000_000_000_000_000_000_000_000,
        ;
        let raw: i128 = y0 + div_toward_zero(a * t * SQUARE + c2 * t2 * UNIT + c3 * t3, CUBE);
        proof {
            lemma_toward_zero(
                (a * t * SQUARE + c2 * t2 * UNIT + c3 * t3) as int,
                (a * t * SQUARE + c2 * t2 * UNIT + c3 * t3) as int,
                CUBE as int,
            );
        }
        let lo: i128 = if y0 <= y1 {
            y0
        } else {
            y1
        };
        let hi: i128 = if y0 <= y1 {
            y1
        } else {
            y0
        };
        if raw < lo {
            lo as i64
        } else if raw > hi {
            hi as i64
        } else {
            raw as i64
        }
    }
}

/// Checks whether the points can carry a spline.
pub fn check_points(x: &Vec<i64>, y: &Vec<i64>) -> (r: bool)
    ensures
        r == points_ok(x@, y@),
{
    let n = x.len();
    if n < 2 || y.len() != n {
        return false;
    }
    let mut i: usize = 0;
    while i < n
        invariant
            n == x.len(),
            n == y.len(),
            n >= 2,
            i <= n,
            forall|j: int| 0 <= j < i ==> -MAX_COORD <= (#[trigger] x@[j]) <= MAX_COORD,
            forall|j: int| 0 <= j < i ==> -MAX_COORD <= (#[trigger] y@[j]) <= MAX_COORD,
            forall|j: int, k: int|
                0 <= j && k == j + 1 && k < i ==> (#[trigger] x@[j]) < (#[trigger] x@[k]),
        decreases n - i,
    {
        if x[i] < -MAX_COORD || x[i] > MAX_COORD || y[i] < -MAX_COORD || y[i] > MAX_COORD {
            return false;
        }
        if i > 0 && x[i - 1] >= x[i] {
            assert(!(x@[i - 1] < x@[i as int]));
            return false;
        }
        i += 1;
    }
    true
}

} // verus!
