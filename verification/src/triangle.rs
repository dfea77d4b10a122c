//! Filling a triangle given by integer screen points with one color, by the sign of
//! the barycentric weights of each pixel of its bounding box.
use crate::error::RenderError;
use crate::framebuffer::{Canvas, Color};
use crate::geometry::{
    cross, cross_spec, dot_spec, lemma_total_vectors, minus_spec_all, norm_spec, normalize_spec,
    points_view, Vec2i, Vec3, Vec_,
};
use crate::model::Model;
use crate::shaders::{vec3, vec3_spec, HEIGHT, WIDTH};
use crate::util::{
    random_channel, thread_rng, to_channel, to_channel_spec, to_screen, to_screen_spec, usable,
    NumLike, RgbaImageExt,
};
use vstd::prelude::*;

verus! {

/// Barycentric weights as exact fractions: weight `i` is `num[i] / den`, and `den` is
/// not zero.
#[derive(Debug, PartialEq, Eq, Clone, Copy)]
pub struct Weights {
    pub num: [i128; 3],
    pub den: i128,
}

/// The x and y coordinates of three points, as mathematical integers.
pub open spec fn coords(pts: Seq<Seq<i32>>) -> (int, int, int, int, int, int) {
    (
        pts[0][0] as int,
        pts[0][1] as int,
        pts[1][0] as int,
        pts[1][1] as int,
        pts[2][0] as int,
        pts[2][1] as int,
    )
}

/// Twice the signed area of the triangle: zero exactly where the three points lie on
/// one line.
pub open spec fn doubled_area(pts: Seq<Seq<i32>>) -> int {
    let (x0, y0, x1, y1, x2, y2) = coords(pts);
    (x2 - x0) * (y1 - y0) - (x1 - x0) * (y2 - y0)
}

/// The numerators of the three weights of the point `(px, py)` over the common
/// denominator `doubled_area(pts)`.
pub open spec fn numerators(pts: Seq<Seq<i32>>, px: int, py: int) -> (int, int, int) {
    let (x0, y0, x1, y1, x2, y2) = coords(pts);
    let u0 = (x1 - x0) * (y0 - py) - (x0 - px) * (y1 - y0);
    let u1 = (x0 - px) * (y2 - y0) - (x2 - x0) * (y0 - py);
    (doubled_area(pts) - u0 - u1, u1, u0)
}

/// The weights of the point `(px, py)` in the triangle `pts`, as numerators and a
/// denominator. Where the points lie on one line there are no weights, and the result
/// is -1, 1 and 1 over 1, which has a negative weight.
pub open spec fn weights_spec(pts: Seq<Seq<i32>>, px: int, py: int) -> (int, int, int, int) {
    let den = doubled_area(pts);
    let (n0, n1, n2) = numerators(pts, px, py);
    if den == 0 {
        (-1, 1, 1, 1)
    } else {
        (n0, n1, n2, den)
    }
}

/// Whether the fraction `num / den` is below zero.
pub open spec fn is_negative(num: int, den: int) -> bool {
    (num < 0 && den > 0) || (num > 0 && den < 0)
}

/// Whether the triangle `pts` covers the point `(px, py)`: none of its weights is
/// negative.
pub open spec fn covers(pts: Seq<Seq<i32>>, px: int, py: int) -> bool {
    let (n0, n1, n2, den) = weights_spec(pts, px, py);
    !is_negative(n0, den) && !is_negative(n1, den) && !is_negative(n2, den)
}

impl Weights {
    /// The weights as numerators and a denominator.
    pub open spec fn view(&self) -> (int, int, int, int) {
        (self.num@[0] as int, self.num@[1] as int, self.num@[2] as int, self.den as int)
    }

    /// Whether one of the weights is below zero.
    pub fn any_negative(&self) -> (r: bool)
        ensures
            r == (is_negative(self.view().0, self.view().3) || is_negative(
                self.view().1,
                self.view().3,
            ) || is_negative(self.view().2, self.view().3)),
    {
        let den = self.den;
        let mut i: usize = 0;
        while i < 3
            invariant
                i <= 3,
                den == self.den,
                forall|k: int| 0 <= k < i ==> !is_negative(self.num@[k] as int, den as int),
            decreases 3 - i,
        {
            let n = self.num[i];
            if (n < 0 && den > 0) || (n > 0 && den < 0) {
                return true;
            }
            i += 1;
        }
        false
    }
}

/// The barycentric weights of `p` in the triangle `pts`.
pub fn barycentric(pts: &[Vec2i; 3], p: Vec2i) -> (w: Weights)
    ensures
        w.view() == weights_spec(points_view(*pts), p@[0] as int, p@[1] as int),
        w.den != 0,
{
    let x0 = pts[0].data[0] as i128;
    let y0 = pts[0].data[1] as i128;
    let x1 = pts[1].data[0] as i128;
    let y1 = pts[1].data[1] as i128;
    let x2 = pts[2].data[0] as i128;
    let y2 = pts[2].data[1] as i128;
    let px = p.data[0] as i128;
    let py = p.data[1] as i128;
    let a = product(x2 - x0, y1 - y0);
    let b = product(x1 - x0, y2 - y0);
    let den = a - b;
    if den == 0 {
        return Weights { num: [-1, 1, 1], den: 1 };
    }
    let u0 = product(x1 - x0, y0 - py) - product(x0 - px, y1 - y0);
    let u1 = product(x0 - px, y2 - y0) - product(x2 - x0, y0 - py);
    Weights { num: [den - u0 - u1, u1, u0], den }
}

/// The product of two differences of 32-bit coordinates.
fn product(a: i128, b: i128) -> (r: i128)
    requires
        -0x1_0000_0000 <= a <= 0x1_0000_0000,
        -0x1_0000_0000 <= b <= 0x1_0000_0000,
    ensures
        r == a * b,
        -0x1_0000_0000_0000_0000 <= r <= 0x1_0000_0000_0000_0000,
{
    assert(-0x1_0000_0000_0000_0000 <= a * b <= 0x1_0000_0000_0000_0000) by (nonlinear_arith)
        requires
            -0x1_0000_0000 <= a <= 0x1_0000_0000,
            -0x1_0000_0000 <= b <= 0x1_0000_0000,
    ;
    a * b
}

/// The smallest of three numbers, kept within `0..=limit` where `limit` is not
/// negative.
pub open spec fn clamped_min(a: int, b: int, c: int, limit: int) -> int {
    let low = if a <= b && a <= c {
        a
    } else if b <= c {
        b
    } else {
        c
    };
    if low < 0 {
        0
    } else if low > limit {
        limit
    } else {
        low
    }
}

/// The largest of three numbers, kept within `0..=limit` where `limit` is not
/// negative.
pub open spec fn clamped_max(a: int, b: int, c: int, limit: int) -> int {
    let high = if a >= b && a >= c {
        a
    } else if b >= c {
        b
    } else {
        c
    };
    if high > limit {
        limit
    } else if high < 0 {
        0
    } else {
        high
    }
}

/// The smallest of three coordinates, kept within `0..=limit`.
fn lower_bound(a: i32, b: i32, c: i32, limit: i64) -> (r: i64)
    requires
        -1 <= limit,
    ensures
        limit >= 0 ==> r == clamped_min(a as int, b as int, c as int, limit as int),
        0 <= r,
        r <= limit || r == 0,
{
    let mut low = if a <= b && a <= c { a } else if b <= c { b } else { c } as i64;
    if low > limit {
        low = limit;
    }
    if low < 0 {
        low = 0;
    }
    low
}

/// The largest of three coordinates, kept within `0..=limit`; -1 where `limit` is -1.
fn upper_bound(a: i32, b: i32, c: i32, limit: i64) -> (r: i64)
    requires
        -1 <= limit,
    ensures
        limit >= 0 ==> r == clamped_max(a as int, b as int, c as int, limit as int),
        -1 <= r <= limit,
        r <= i32::MAX,
{
    let mut high = if a >= b && a >= c { a } else if b >= c { b } else { c } as i64;
    if high < 0 {
        high = 0;
    }
    if high > limit {
        high = limit;
    }
    high
}

/// A point with non-negative weights lies within the bounding box of the triangle.
pub proof fn lemma_covered_in_bounding_box(pts: Seq<Seq<i32>>, px: int, py: int)
    requires
        covers(pts, px, py),
    ensures
        ({
            let (x0, y0, x1, y1, x2, y2) = coords(pts);
            &&& (px >= x0 || px >= x1 || px >= x2)
            &&& (px <= x0 || px <= x1 || px <= x2)
            &&& (py >= y0 || py >= y1 || py >= y2)
            &&& (py <= y0 || py <= y1 || py <= y2)
        }),
{
    let (x0, y0, x1, y1, x2, y2) = coords(pts);
    let den = doubled_area(pts);
    let (n0, n1, n2) = numerators(pts, px, py);
    lemma_weights_combine(pts, px, py);
    lemma_between(n0, n1, n2, den, x0, x1, x2, px);
    lemma_between(n0, n1, n2, den, y0, y1, y2, py);
}

/// The weights sum to one, and they combine the corners to the point: with the
/// numerators `n` and the denominator `d`, `n0 + n1 + n2 == d` and
/// `n0 * corner0 + n1 * corner1 + n2 * corner2 == d * point`, in x and in y.
pub proof fn lemma_weights_combine(pts: Seq<Seq<i32>>, px: int, py: int)
    ensures
        ({
            let (x0, y0, x1, y1, x2, y2) = coords(pts);
            let den = doubled_area(pts);
            let (n0, n1, n2) = numerators(pts, px, py);
            &&& n0 + n1 + n2 == den
            &&& n0 * x0 + n1 * x1 + n2 * x2 == den * px
            &&& n0 * y0 + n1 * y1 + n2 * y2 == den * py
        }),
{
    let (x0, y0, x1, y1, x2, y2) = coords(pts);
    let den = doubled_area(pts);
    let (n0, n1, n2) = numerators(pts, px, py);
    lemma_combine_core(x1 - x0, x2 - x0, y1 - y0, y2 - y0, x0 - px, y0 - py);
    lemma_combine_axis(n0, n1, n2, den, x0, x1, x2, px);
    lemma_combine_core(y1 - y0, y2 - y0, x1 - x0, x2 - x0, y0 - py, x0 - px);
    assert(n1 * (y1 - y0) + n2 * (y2 - y0) == (0 - (y0 - py)) * den) by (nonlinear_arith)
        requires
            (0 - n1) * (y1 - y0) + (0 - n2) * (y2 - y0) == (0 - (y0 - py)) * (0 - den),
    ;
    lemma_combine_axis(n0, n1, n2, den, y0, y1, y2, py);
}

/// The polynomial identity behind the weights: with the edge vectors `(a, c)` and
/// `(b, d)` and the offset `(e, f)` of the first corner from the point.
proof fn lemma_combine_core(a: int, b: int, c: int, d: int, e: int, f: int)
    ensures
        (e * d - b * f) * a + (a * f - e * c) * b == (0 - e) * (b * c - a * d),
{
    assert((e * d - b * f) * a == e * d * a - b * f * a) by (nonlinear_arith);
    assert((a * f - e * c) * b == a * f * b - e * c * b) by (nonlinear_arith);
    assert((0 - e) * (b * c - a * d) == e * (a * d) - e * (b * c)) by (nonlinear_arith);
    assert(b * f * a == a * f * b) by (nonlinear_arith);
    assert(e * d * a == e * (a * d)) by (nonlinear_arith);
    assert(e * c * b == e * (b * c)) by (nonlinear_arith);
}

/// From the identity on the differences to the weighted sum of the corners.
proof fn lemma_combine_axis(n0: int, n1: int, n2: int, d: int, a: int, b: int, c: int, p: int)
    requires
        n0 + n1 + n2 == d,
        n1 * (b - a) + n2 * (c - a) == (0 - (a - p)) * d,
    ensures
        n0 * a + n1 * b + n2 * c == d * p,
{
    assert(n1 * (b - a) == n1 * b - n1 * a) by (nonlinear_arith);
    assert(n2 * (c - a) == n2 * c - n2 * a) by (nonlinear_arith);
    assert((0 - (a - p)) * d == d * p - d * a) by (nonlinear_arith);
    assert(d * a == n0 * a + n1 * a + n2 * a) by (nonlinear_arith)
        requires
            n0 + n1 + n2 == d,
    ;
}

/// A weighted mean with weights of one sign lies between the least and the greatest
/// of the values.
proof fn lemma_between(n0: int, n1: int, n2: int, d: int, a: int, b: int, c: int, p: int)
    requires
        d != 0,
        n0 + n1 + n2 == d,
        n0 * a + n1 * b + n2 * c == d * p,
        !is_negative(n0, d),
        !is_negative(n1, d),
        !is_negative(n2, d),
    ensures
        p >= a || p >= b || p >= c,
        p <= a || p <= b || p <= c,
{
    if p < a && p < b && p < c {
        assert(n0 * (a - p) + n1 * (b - p) + n2 * (c - p) == 0) by (nonlinear_arith)
            requires
                n0 + n1 + n2 == d,
                n0 * a + n1 * b + n2 * c == d * p,
        ;
        lemma_same_sign_sum(n0, n1, n2, d, a - p, b - p, c - p);
    }
    if p > a && p > b && p > c {
        assert(n0 * (p - a) + n1 * (p - b) + n2 * (p - c) == 0) by (nonlinear_arith)
            requires
                n0 + n1 + n2 == d,
                n0 * a + n1 * b + n2 * c == d * p,
        ;
        lemma_same_sign_sum(n0, n1, n2, d, p - a, p - b, p - c);
    }
}

/// Weights of one sign that are not all zero cannot weigh three positive numbers to
/// zero.
proof fn lemma_same_sign_sum(n0: int, n1: int, n2: int, d: int, a: int, b: int, c: int)
    requires
        d != 0,
        n0 + n1 + n2 == d,
        !is_negative(n0, d),
        !is_negative(n1, d),
        !is_negative(n2, d),
        a > 0,
        b > 0,
        c > 0,
    ensures
        n0 * a + n1 * b + n2 * c != 0,
{
    if d > 0 {
        assert(n0 * a >= n0 && n1 * b >= n1 && n2 * c >= n2) by (nonlinear_arith)
            requires
                n0 >= 0,
                n1 >= 0,
                n2 >= 0,
                a >= 1,
                b >= 1,
                c >= 1,
        ;
    } else {
        assert(n0 * a <= n0 && n1 * b <= n1 && n2 * c <= n2) by (nonlinear_arith)
            requires
                n0 <= 0,
                n1 <= 0,
                n2 <= 0,
                a >= 1,
                b >= 1,
                c >= 1,
        ;
    }
}

/// Whether the point `(px, py)` lies in the triangle `pts`, its edges included: it is
/// a mean of the corners with weights `a`, `b` and `c` that are not negative and not
/// all zero.
pub open spec fn is_mean_of_corners(pts: Seq<Seq<i32>>, px: int, py: int, a: int, b: int, c: int) -> bool {
    let (x0, y0, x1, y1, x2, y2) = coords(pts);
    &&& a >= 0 && b >= 0 && c >= 0 && a + b + c > 0
    &&& (a + b + c) * px == a * x0 + b * x1 + c * x2
    &&& (a + b + c) * py == a * y0 + b * y1 + c * y2
}

/// Whether the point `(px, py)` lies in the triangle `pts`, its edges included.
pub open spec fn in_triangle(pts: Seq<Seq<i32>>, px: int, py: int) -> bool {
    exists|a: int, b: int, c: int| is_mean_of_corners(pts, px, py, a, b, c)
}

/// At each corner of a triangle with area, the weight of that corner is one and the
/// other two are zero.
pub proof fn lemma_weights_at_corners(pts: Seq<Seq<i32>>)
    requires
        doubled_area(pts) != 0,
    ensures
        ({
            let (x0, y0, x1, y1, x2, y2) = coords(pts);
            let den = doubled_area(pts);
            &&& weights_spec(pts, x0, y0) == (den, 0int, 0int, den)
            &&& weights_spec(pts, x1, y1) == (0int, den, 0int, den)
            &&& weights_spec(pts, x2, y2) == (0int, 0int, den, den)
        }),
{
    let (x0, y0, x1, y1, x2, y2) = coords(pts);
    assert((x1 - x0) * (y0 - y1) == 0 - (x1 - x0) * (y1 - y0)) by (nonlinear_arith);
    assert((x0 - x1) * (y1 - y0) == 0 - (x1 - x0) * (y1 - y0)) by (nonlinear_arith);
    assert((x0 - x1) * (y2 - y0) == 0 - (x1 - x0) * (y2 - y0)) by (nonlinear_arith);
    assert((x2 - x0) * (y0 - y1) == 0 - (x2 - x0) * (y1 - y0)) by (nonlinear_arith);
    assert((x1 - x0) * (y0 - y2) == 0 - (x1 - x0) * (y2 - y0)) by (nonlinear_arith);
    assert((x0 - x2) * (y1 - y0) == 0 - (x2 - x0) * (y1 - y0)) by (nonlinear_arith);
    assert((x0 - x2) * (y2 - y0) == 0 - (x2 - x0) * (y2 - y0)) by (nonlinear_arith);
    assert((x2 - x0) * (y0 - y2) == 0 - (x2 - x0) * (y2 - y0)) by (nonlinear_arith);
}

/// The three weights of any point sum to one.
pub proof fn lemma_weights_sum_to_one(pts: Seq<Seq<i32>>, px: int, py: int)
    ensures
        ({
            let (n0, n1, n2, den) = weights_spec(pts, px, py);
            n0 + n1 + n2 == den && den != 0
        }),
{
}

/// A point outside a triangle with area has a negative weight; a point in it has
/// none. So the triangle covers exactly its own points.
pub proof fn lemma_covers_iff_in_triangle(pts: Seq<Seq<i32>>, px: int, py: int)
    requires
        doubled_area(pts) != 0,
    ensures
        covers(pts, px, py) <==> in_triangle(pts, px, py),
{
    let (x0, y0, x1, y1, x2, y2) = coords(pts);
    let den = doubled_area(pts);
    let (n0, n1, n2) = numerators(pts, px, py);
    lemma_weights_combine(pts, px, py);
    if covers(pts, px, py) {
        if den > 0 {
            assert(is_mean_of_corners(pts, px, py, n0, n1, n2));
        } else {
            assert((0 - n0) * x0 + (0 - n1) * x1 + (0 - n2) * x2 == (0 - den) * px
                && (0 - n0) * y0 + (0 - n1) * y1 + (0 - n2) * y2 == (0 - den) * py)
                by (nonlinear_arith)
                requires
                    n0 * x0 + n1 * x1 + n2 * x2 == den * px,
                    n0 * y0 + n1 * y1 + n2 * y2 == den * py,
            ;
            assert(is_mean_of_corners(pts, px, py, 0 - n0, 0 - n1, 0 - n2));
        }
    }
    if in_triangle(pts, px, py) {
        let (a, b, c) = choose|a: int, b: int, c: int| is_mean_of_corners(pts, px, py, a, b, c);
        let s = a + b + c;
        lemma_offset_of_mean(a, b, c, x0, x1, x2, px);
        lemma_offset_of_mean(a, b, c, y0, y1, y2, py);
        lemma_scaled_numerators(
            x1 - x0,
            x2 - x0,
            y1 - y0,
            y2 - y0,
            x0 - px,
            y0 - py,
            s,
            b,
            c,
        );
        assert(s * n0 == a * den) by (nonlinear_arith)
            requires
                s * n1 == b * den,
                s * n2 == c * den,
                n0 + n1 + n2 == den,
                s == a + b + c,
        ;
        lemma_sign_of_scaled(s, n0, a, den);
        lemma_sign_of_scaled(s, n1, b, den);
        lemma_sign_of_scaled(s, n2, c, den);
    }
}

/// The offset of the first value from a mean, scaled by the sum of the weights.
proof fn lemma_offset_of_mean(a: int, b: int, c: int, v0: int, v1: int, v2: int, p: int)
    requires
        (a + b + c) * p == a * v0 + b * v1 + c * v2,
    ensures
        (a + b + c) * (v0 - p) == 0 - b * (v1 - v0) - c * (v2 - v0),
{
    assert((a + b + c) * (v0 - p) == (a + b + c) * v0 - (a + b + c) * p) by (nonlinear_arith);
    assert((a + b + c) * v0 == a * v0 + b * v0 + c * v0) by (nonlinear_arith);
    assert(b * (v1 - v0) == b * v1 - b * v0) by (nonlinear_arith);
    assert(c * (v2 - v0) == c * v2 - c * v0) by (nonlinear_arith);
}

/// The numerators of a mean of the corners, scaled by the sum of its weights, are
/// its weights times the doubled area.
proof fn lemma_scaled_numerators(
    ea: int,
    eb: int,
    ec: int,
    ed: int,
    e: int,
    f: int,
    s: int,
    b: int,
    c: int,
)
    requires
        s * e == 0 - b * ea - c * eb,
        s * f == 0 - b * ec - c * ed,
    ensures
        s * (e * ed - eb * f) == b * (eb * ec - ea * ed),
        s * (ea * f - e * ec) == c * (eb * ec - ea * ed),
{
    assert(s * (e * ed - eb * f) == (s * e) * ed - eb * (s * f)) by (nonlinear_arith);
    assert((0 - b * ea - c * eb) * ed == 0 - b * (ea * ed) - c * (eb * ed)) by (nonlinear_arith);
    assert(eb * (0 - b * ec - c * ed) == 0 - b * (eb * ec) - c * (eb * ed)) by (nonlinear_arith);
    assert(b * (eb * ec - ea * ed) == b * (eb * ec) - b * (ea * ed)) by (nonlinear_arith);
    assert(s * (ea * f - e * ec) == ea * (s * f) - (s * e) * ec) by (nonlinear_arith);
    assert(ea * (0 - b * ec - c * ed) == 0 - b * (ea * ec) - c * (ea * ed)) by (nonlinear_arith);
    assert((0 - b * ea - c * eb) * ec == 0 - b * (ea * ec) - c * (eb * ec)) by (nonlinear_arith);
    assert(c * (eb * ec - ea * ed) == c * (eb * ec) - c * (ea * ed)) by (nonlinear_arith);
}

/// Where a positive multiple of `n` is a non-negative multiple of `d`, the fraction
/// `n / d` is not negative.
proof fn lemma_sign_of_scaled(s: int, n: int, w: int, d: int)
    requires
        s > 0,
        w >= 0,
        d != 0,
        s * n == w * d,
    ensures
        !is_negative(n, d),
{
    if n < 0 && d > 0 {
        assert(s * n < 0) by (nonlinear_arith)
            requires
                s > 0,
                n < 0,
        ;
        assert(w * d >= 0) by (nonlinear_arith)
            requires
                w >= 0,
                d > 0,
        ;
    }
    if n > 0 && d < 0 {
        assert(s * n > 0) by (nonlinear_arith)
            requires
                s > 0,
                n > 0,
        ;
        assert(w * d <= 0) by (nonlinear_arith)
            requires
                w >= 0,
                d < 0,
        ;
    }
}

/// Whether the fraction `num / den` is above zero.
pub open spec fn is_positive(num: int, den: int) -> bool {
    (num > 0 && den > 0) || (num < 0 && den < 0)
}

/// Where a positive multiple of `n` is a positive multiple of `d`, the fraction
/// `n / d` is above zero.
proof fn lemma_sign_of_strictly_scaled(s: int, n: int, w: int, d: int)
    requires
        s > 0,
        w > 0,
        d != 0,
        s * n == w * d,
    ensures
        is_positive(n, d),
{
    if d > 0 {
        assert(w * d > 0) by (nonlinear_arith)
            requires
                w > 0,
                d > 0,
        ;
        if n <= 0 {
            assert(s * n <= 0) by (nonlinear_arith)
                requires
                    s > 0,
                    n <= 0,
            ;
        }
    } else {
        assert(w * d < 0) by (nonlinear_arith)
            requires
                w > 0,
                d < 0,
        ;
        if n >= 0 {
            assert(s * n >= 0) by (nonlinear_arith)
                requires
                    s > 0,
                    n >= 0,
            ;
        }
    }
}

/// A point strictly inside a triangle with area has three weights above zero: where
/// the point is a mean of the corners with the positive weights `a`, `b` and `c`,
/// each of its barycentric weights is positive.
pub proof fn lemma_weights_inside_are_positive(
    pts: Seq<Seq<i32>>,
    px: int,
    py: int,
    a: int,
    b: int,
    c: int,
)
    requires
        doubled_area(pts) != 0,
        is_mean_of_corners(pts, px, py, a, b, c),
        a > 0,
        b > 0,
        c > 0,
    ensures
        ({
            let (n0, n1, n2, den) = weights_spec(pts, px, py);
            is_positive(n0, den) && is_positive(n1, den) && is_positive(n2, den)
        }),
{
    let (x0, y0, x1, y1, x2, y2) = coords(pts);
    let den = doubled_area(pts);
    let (n0, n1, n2) = numerators(pts, px, py);
    let s = a + b + c;
    lemma_weights_combine(pts, px, py);
    lemma_offset_of_mean(a, b, c, x0, x1, x2, px);
    lemma_offset_of_mean(a, b, c, y0, y1, y2, py);
    lemma_scaled_numerators(x1 - x0, x2 - x0, y1 - y0, y2 - y0, x0 - px, y0 - py, s, b, c);
    assert(s * n0 == a * den) by (nonlinear_arith)
        requires
            s * n1 == b * den,
            s * n2 == c * den,
            n0 + n1 + n2 == den,
            s == a + b + c,
    ;
    lemma_sign_of_strictly_scaled(s, n0, a, den);
    lemma_sign_of_strictly_scaled(s, n1, b, den);
    lemma_sign_of_strictly_scaled(s, n2, c, den);
}

/// Three points on one line span no triangle: it covers no point, so filling it
/// changes nothing.
pub proof fn lemma_degenerate_covers_nothing(pts: Seq<Seq<i32>>, px: int, py: int)
    requires
        doubled_area(pts) == 0,
    ensures
        !covers(pts, px, py),
{
}

/// Fills the triangle `pts` with `color`: every pixel of the canvas that the triangle
/// covers gets the color, and no other pixel changes.
pub fn triangle(pts: [Vec2i; 3], img: &mut Canvas, color: Color)
    ensures
        final(img).spec_width() == old(img).spec_width(),
        final(img).spec_height() == old(img).spec_height(),
        forall|x: int, y: int|
            old(img).contains(x, y) ==> (#[trigger] final(img).color_at(x, y)) == (if covers(
                points_view(pts),
                x,
                y,
            ) {
                color
            } else {
                old(img).color_at(x, y)
            }),
        (forall|x: int, y: int| old(img).contains(x, y) ==> !covers(points_view(pts), x, y))
            ==> final(img).pixels() == old(img).pixels(),
{
    let width = img.width();
    let height = img.height();
    let x_min = lower_bound(pts[0].data[0], pts[1].data[0], pts[2].data[0], width as i64 - 1);
    let x_max = upper_bound(pts[0].data[0], pts[1].data[0], pts[2].data[0], width as i64 - 1);
    let y_min = lower_bound(pts[0].data[1], pts[1].data[1], pts[2].data[1], height as i64 - 1);
    let y_max = upper_bound(pts[0].data[1], pts[1].data[1], pts[2].data[1], height as i64 - 1);
    let ghost mut written = false;
    assert forall|x: int, y: int| old(img).contains(x, y) && covers(points_view(pts), x, y) implies x_min <= x
        <= x_max && y_min <= y <= y_max by {
        lemma_covered_in_bounding_box(points_view(pts), x, y);
    }
    let mut x = x_min;
    while x <= x_max
        invariant
            0 <= x_min <= x <= x_max + 1,
            x_max < width,
            x_max <= i32::MAX,
            0 <= y_min,
            y_max < height,
            y_max <= i32::MAX,
            width == old(img).spec_width(),
            height == old(img).spec_height(),
            img.spec_width() == width,
            img.spec_height() == height,
            forall|a: int, b: int|
                old(img).contains(a, b) && covers(points_view(pts), a, b) ==> x_min <= a <= x_max && y_min <= b
                    <= y_max,
            forall|a: int, b: int|
                old(img).contains(a, b) ==> (#[trigger] img.color_at(a, b)) == (if a < x && covers(
                    points_view(pts),
                    a,
                    b,
                ) {
                    color
                } else {
                    old(img).color_at(a, b)
                }),
            !written ==> img.pixels() == old(img).pixels(),
            written ==> exists|a: int, b: int| old(img).contains(a, b) && covers(points_view(pts), a, b),
        decreases x_max + 1 - x,
    {
        let mut y = y_min;
        while y <= y_max
            invariant
                0 <= x_min <= x <= x_max,
                x_max < width,
                x_max <= i32::MAX,
                0 <= y_min <= y <= y_max + 1 || (y == y_min && y > y_max),
                0 <= y_min,
                y_max < height,
                y_max <= i32::MAX,
                width == old(img).spec_width(),
                height == old(img).spec_height(),
                img.spec_width() == width,
                img.spec_height() == height,
                forall|a: int, b: int|
                    old(img).contains(a, b) && covers(points_view(pts), a, b) ==> x_min <= a <= x_max && y_min
                        <= b <= y_max,
                forall|a: int, b: int|
                    old(img).contains(a, b) ==> (#[trigger] img.color_at(a, b)) == (if (a < x || (a
                        == x && b < y)) && covers(points_view(pts), a, b) {
                        color
                    } else {
                        old(img).color_at(a, b)
                    }),
                !written ==> img.pixels() == old(img).pixels(),
                written ==> exists|a: int, b: int| old(img).contains(a, b) && covers(points_view(pts), a, b),
            decreases y_max + 1 - y,
        {
            let p = Vec2i { data: [x as i32, y as i32] };
            let w = barycentric(&pts, p);
            if !w.any_negative() {
                let _ = img.put(x as u32, y as u32, color);
                proof {
                    assert(covers(points_view(pts), x as int, y as int));
                    written = true;
                }
            }
            y += 1;
        }
        x += 1;
    }
}

/// The corners of the sample triangle.
pub open spec fn sample_corners() -> Seq<Seq<i32>> {
    seq![seq![10i32, 10i32], seq![100i32, 30i32], seq![190i32, 160i32]]
}

/// A canvas of 200 by 200 pixels with the sample triangle in red on transparent
/// black, with the first row of the canvas at the top of the picture.
pub fn sample_triangle() -> (r: Canvas)
    ensures
        r.spec_width() == 200,
        r.spec_height() == 200,
        forall|x: int, y: int|
            r.contains(x, y) ==> (#[trigger] r.color_at(x, y)) == (if covers(
                sample_corners(),
                x,
                199 - y,
            ) {
                [255u8, 0u8, 0u8, 255u8]
            } else {
                [0u8, 0u8, 0u8, 0u8]
            }),
{
    let mut img = match Canvas::new(200, 200) {
        Some(img) => img,
        None => vstd::pervasive::unreached(),
    };
    let pts = [
        Vec_ { data: [10, 10] },
        Vec_ { data: [100, 30] },
        Vec_ { data: [190, 160] },
    ];
    assert(points_view(pts) =~~= sample_corners());
    triangle(pts, &mut img, [255, 0, 0, 255]);
    let ghost filled = img;
    img.flip_vertical();
    assert forall|x: int, y: int| img.contains(x, y) implies (#[trigger] img.color_at(x, y)) == (
    if covers(sample_corners(), x, 199 - y) {
        [255u8, 0u8, 0u8, 255u8]
    } else {
        [0u8, 0u8, 0u8, 0u8]
    }) by {
        assert(filled.contains(x, 199 - y));
        assert(img.color_at(x, y) == filled.color_at(x, 199 - y));
    }
    img
}

/// The place on the screen of the position `v` of the mesh, seen along z, on a
/// screen of the size of every render: each of x and y as a screen coordinate, its
/// fraction cut off.
pub open spec fn pixel_of_spec<T: NumLike>(v: Seq<T>) -> Seq<i32> {
    seq![to_screen_spec(v[0], WIDTH).to_i32_spec(), to_screen_spec(v[1], HEIGHT).to_i32_spec()]
}

/// The place on the screen of the position `v` of the mesh, seen along z.
pub fn pixel_of<T: NumLike>(v: &Vec3<T>) -> (r: Vec2i)
    requires
        usable::<T>(),
    ensures
        T::obeys_num_spec() ==> r@ == pixel_of_spec(v@),
{
    let r = Vec_ {
        data: [to_screen(v.data[0], WIDTH).to_i32(), to_screen(v.data[1], HEIGHT).to_i32()],
    };
    assert(T::obeys_num_spec() ==> r@ =~= pixel_of_spec(v@));
    r
}

/// The first three corners of the face `iface` of the mesh on the screen, seen along
/// z.
pub open spec fn face_on_screen_spec<T: NumLike>(model: Model<T>, iface: usize) -> Seq<Seq<i32>> {
    Seq::new(
        3,
        |k: int| pixel_of_spec(model.verts@[model.corner(iface, k as usize)[0] as int]@),
    )
}

/// Fills the face `iface` of the mesh, seen along z, with `color`.
pub fn fill_face<T: NumLike>(model: &Model<T>, iface: usize, img: &mut Canvas, color: Color) -> (r:
    Result<(), RenderError>)
    requires
        model.wf(),
        usable::<T>(),
    ensures
        final(img).spec_width() == old(img).spec_width(),
        final(img).spec_height() == old(img).spec_height(),
        r matches Err(e) ==> e == RenderError::DimensionMismatch && final(img).pixels() == old(img).pixels(),
        r is Ok <==> iface < model.faces@.len(),
        T::obeys_num_spec() && r is Ok ==> forall|x: int, y: int|
            old(img).contains(x, y) ==> (#[trigger] final(img).color_at(x, y)) == (if covers(
                face_on_screen_spec(*model, iface),
                x,
                y,
            ) {
                color
            } else {
                old(img).color_at(x, y)
            }),
{
    let world = match model.corners(iface) {
        Ok(world) => world,
        Err(e) => {
            return Err(e);
        },
    };
    let pts = [pixel_of(&world[0]), pixel_of(&world[1]), pixel_of(&world[2])];
    assert(T::obeys_num_spec() ==> points_view(pts) =~~= face_on_screen_spec(*model, iface));
    triangle(pts, img, color);
    Ok(())
}

/// Whether one of the first `n` faces of the mesh, seen along z, covers the pixel
/// `(x, y)`.
pub open spec fn mesh_covers<T: NumLike>(model: Model<T>, n: int, x: int, y: int) -> bool {
    exists|f: int| 0 <= f < n && #[trigger] covers(face_on_screen_spec(model, f as usize), x, y)
}

/// Whether `c` can be the color of a face: opaque, with each of red, green and blue
/// below 255.
pub open spec fn is_face_color(c: Color) -> bool {
    c@[0] < 255 && c@[1] < 255 && c@[2] < 255 && c@[3] == 255
}

/// Renders the mesh, seen along z, each face in a color of its own that is drawn at
/// random, with the first row of the canvas at the top of the picture: a pixel has
/// the color of a face where a face covers the pixel that is as far from the
/// bottom, and is transparent black elsewhere.
pub fn flat_shading<T: NumLike>(model: &Model<T>) -> (r: Result<Canvas, RenderError>)
    requires
        model.wf(),
        usable::<T>(),
    ensures
        r matches Ok(img) && img.spec_width() == WIDTH && img.spec_height() == HEIGHT,
        T::obeys_num_spec() ==> forall|x: int, y: int|
            r->Ok_0.contains(x, y) ==> (if mesh_covers(
                *model,
                model.faces@.len() as int,
                x,
                HEIGHT - 1 - y,
            ) {
                is_face_color(#[trigger] r->Ok_0.color_at(x, y))
            } else {
                r->Ok_0.color_at(x, y) == [0u8, 0u8, 0u8, 0u8]
            }),
{
    let mut img = match Canvas::new(WIDTH, HEIGHT) {
        Some(img) => img,
        None => vstd::pervasive::unreached(),
    };
    let mut rng = thread_rng();
    let nfaces = model.nfaces();
    let mut i: usize = 0;
    while i < nfaces
        invariant
            i <= nfaces,
            nfaces == model.faces@.len(),
            model.wf(),
            usable::<T>(),
            img.spec_width() == WIDTH && img.spec_height() == HEIGHT,
            T::obeys_num_spec() ==> forall|x: int, y: int|
                img.contains(x, y) ==> (if mesh_covers(*model, i as int, x, y) {
                    is_face_color(#[trigger] img.color_at(x, y))
                } else {
                    img.color_at(x, y) == [0u8, 0u8, 0u8, 0u8]
                }),
        decreases nfaces - i,
    {
        let red = random_channel(&mut rng);
        let green = random_channel(&mut rng);
        let blue = random_channel(&mut rng);
        let ghost before = img;
        let _ = fill_face(model, i, &mut img, [red, green, blue, 255]);
        proof {
            if T::obeys_num_spec() {
                assert forall|x: int, y: int| img.contains(x, y) implies (if mesh_covers(
                    *model,
                    i + 1,
                    x,
                    y,
                ) {
                    is_face_color(#[trigger] img.color_at(x, y))
                } else {
                    img.color_at(x, y) == [0u8, 0u8, 0u8, 0u8]
                }) by {
                    let here = covers(face_on_screen_spec(*model, i), x, y);
                    assert(before.contains(x, y));
                    assert(img.color_at(x, y) == (if here {
                        [red, green, blue, 255u8]
                    } else {
                        before.color_at(x, y)
                    }));
                    if mesh_covers(*model, i as int, x, y) {
                        let f = choose|f: int|
                            0 <= f < i && #[trigger] covers(
                                face_on_screen_spec(*model, f as usize),
                                x,
                                y,
                            );
                        assert(0 <= f < i + 1 && covers(
                            face_on_screen_spec(*model, f as usize),
                            x,
                            y,
                        ));
                    }
                    if here {
                        assert(0 <= i < i + 1 && covers(
                            face_on_screen_spec(*model, i as int as usize),
                            x,
                            y,
                        ));
                    }
                    if mesh_covers(*model, i + 1, x, y) {
                        let f = choose|f: int|
                            0 <= f < i + 1 && #[trigger] covers(
                                face_on_screen_spec(*model, f as usize),
                                x,
                                y,
                            );
                        if f < i {
                            assert(0 <= f < i && covers(
                                face_on_screen_spec(*model, f as usize),
                                x,
                                y,
                            ));
                        }
                    }
                }
            }
        }
        i += 1;
    }
    let ghost drawn = img;
    img.flip_vertical();
    proof {
        if T::obeys_num_spec() {
            assert forall|x: int, y: int| img.contains(x, y) implies (if mesh_covers(
                *model,
                model.faces@.len() as int,
                x,
                HEIGHT - 1 - y,
            ) {
                is_face_color(#[trigger] img.color_at(x, y))
            } else {
                img.color_at(x, y) == [0u8, 0u8, 0u8, 0u8]
            }) by {
                assert(drawn.contains(x, HEIGHT - 1 - y));
                assert(img.color_at(x, y) == drawn.color_at(x, HEIGHT - 1 - y));
            }
        }
    }
    Ok(img)
}

/// The normal of the face with the corners `world`, before it is normalized: the
/// cross product of the edge to the last corner and the edge to the second.
pub open spec fn face_normal_spec<T: NumLike>(world: Seq<Seq<T>>) -> Seq<T> {
    cross_spec(minus_spec_all(world[2], world[0]), minus_spec_all(world[1], world[0]))
}

/// The gray level of a face with the corners `world` in the light `light`: the
/// dot product of its normal and the light, times 255; nothing where the face has
/// no area or faces away from the light.
pub open spec fn face_level_spec<T: NumLike>(world: Seq<Seq<T>>, light: Seq<T>) -> Option<u8> {
    let n = face_normal_spec(world);
    let intensity = dot_spec(normalize_spec(n), light, 3);
    if norm_spec(n).equals_spec(T::zero_spec()) || !T::zero_spec().less_spec(intensity) {
        None
    } else {
        Some(to_channel_spec(intensity.times_spec(T::from_i32_spec(255i32))))
    }
}

/// The gray level of a face with the corners `world` in the light `light`.
pub fn face_level<T: NumLike>(world: &[Vec3<T>; 3], light: &Vec3<T>) -> (r: Option<u8>)
    requires
        usable::<T>(),
    ensures
        T::obeys_num_spec() ==> r == face_level_spec(points_view(*world), light@),
{
    proof {
        if T::obeys_num_spec() {
            let w = points_view(*world);
            lemma_total_vectors(w[2], w[0], 3);
            lemma_total_vectors(w[1], w[0], 3);
            lemma_total_vectors(minus_spec_all(w[2], w[0]), minus_spec_all(w[1], w[0]), 3);
            lemma_total_vectors(face_normal_spec(w), light@, 3);
            lemma_total_vectors(normalize_spec(face_normal_spec(w)), light@, 3);
        }
    }
    let mut n = cross(&world[2].minus(&world[0]), &world[1].minus(&world[0]));
    match n.normalize() {
        Ok(_) => {},
        Err(_) => {
            return None;
        },
    }
    let intensity = n.dot(light);
    if T::zero().less(intensity) {
        Some(to_channel(intensity.times(T::from_i32(255))))
    } else {
        None
    }
}

/// The corners of the face `iface` of the mesh.
pub open spec fn face_corners_spec<T: NumLike>(model: Model<T>, iface: usize) -> Seq<Seq<T>> {
    Seq::new(3, |k: int| model.verts@[model.corner(iface, k as usize)[0] as int]@)
}

/// The color of the pixel `(x, y)` once the first `n` faces of the mesh are drawn,
/// seen along z in the light `light`: the gray level of the last of them that the
/// light reaches and that covers the pixel, and transparent black where there is
/// none.
pub open spec fn lit_pixel_spec<T: NumLike>(model: Model<T>, light: Seq<T>, n: int, x: int, y: int) -> Color
    decreases n,
{
    if n <= 0 {
        [0u8, 0u8, 0u8, 0u8]
    } else {
        let level = face_level_spec(face_corners_spec(model, (n - 1) as usize), light);
        if level is Some && covers(face_on_screen_spec(model, (n - 1) as usize), x, y) {
            [level->0, level->0, level->0, 255u8]
        } else {
            lit_pixel_spec(model, light, n - 1, x, y)
        }
    }
}

/// Renders the mesh, seen along z in a light along z, each face that the light
/// reaches in the gray level of its light, with the first row of the canvas at the
/// top of the picture.
pub fn linear_light<T: NumLike>(model: &Model<T>) -> (r: Result<Canvas, RenderError>)
    requires
        model.wf(),
        usable::<T>(),
    ensures
        r matches Ok(img) && img.spec_width() == WIDTH && img.spec_height() == HEIGHT,
        T::obeys_num_spec() ==> forall|x: int, y: int|
            r->Ok_0.contains(x, y) ==> (#[trigger] r->Ok_0.color_at(x, y)) == lit_pixel_spec(
                *model,
                vec3_spec::<T>(0, 0, -1i32),
                model.faces@.len() as int,
                x,
                HEIGHT - 1 - y,
            ),
{
    let mut img = match Canvas::new(WIDTH, HEIGHT) {
        Some(img) => img,
        None => vstd::pervasive::unreached(),
    };
    let light = vec3::<T>(0, 0, -1);
    let nfaces = model.nfaces();
    let mut i: usize = 0;
    while i < nfaces
        invariant
            i <= nfaces,
            nfaces == model.faces@.len(),
            model.wf(),
            usable::<T>(),
            T::obeys_num_spec() ==> light@ == vec3_spec::<T>(0, 0, -1i32),
            img.spec_width() == WIDTH && img.spec_height() == HEIGHT,
            T::obeys_num_spec() ==> forall|x: int, y: int|
                img.contains(x, y) ==> (#[trigger] img.color_at(x, y)) == lit_pixel_spec(
                    *model,
                    light@,
                    i as int,
                    x,
                    y,
                ),
        decreases nfaces - i,
    {
        let world = match model.corners(i) {
            Ok(world) => world,
            Err(_) => vstd::pervasive::unreached(),
        };
        assert(points_view(world) =~~= face_corners_spec(*model, i));
        match face_level(&world, &light) {
            Some(level) => {
                let _ = fill_face(model, i, &mut img, [level, level, level, 255]);
            },
            None => {},
        }
        i += 1;
    }
    let ghost drawn = img;
    img.flip_vertical();
    proof {
        if T::obeys_num_spec() {
            assert forall|x: int, y: int| img.contains(x, y) implies (#[trigger] img.color_at(x, y))
                == lit_pixel_spec(
                *model,
                vec3_spec::<T>(0, 0, -1i32),
                model.faces@.len() as int,
                x,
                HEIGHT - 1 - y,
            ) by {
                assert(drawn.contains(x, HEIGHT - 1 - y));
                assert(img.color_at(x, y) == drawn.color_at(x, HEIGHT - 1 - y));
            }
        }
    }
    Ok(img)
}

} // verus!
