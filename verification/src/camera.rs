//! The camera transforms, and the scanline triangle filler with per-vertex
//! intensities.
use crate::error::RenderError;
use crate::framebuffer::{agrees, snapshot, Canvas, Color, DepthBuffer, Frame};
use crate::geometry::{
    cross, cross_spec, lemma_total_vectors, minus_spec_all, norm_spec, normalize_spec, round,
    round_spec, Vec3, Vec3i, Vec_,
};
use crate::matrix::{is_grid, Mat};
use crate::model::Model;
use crate::shaders::{blank_frame, scene, vec3, HEIGHT, WIDTH};
use crate::util::{
    less_is_strict, opposite, opposite_spec, to_channel, to_channel_spec, usable, NumLike,
    RgbaImageExt,
};
use vstd::prelude::*;

verus! {

/// The depth range of the viewport: depths are mapped to `0..=DEPTH`.
pub const DEPTH: i32 = 255;

/// Whether the norm of `a` is zero, so that `a` has no direction.
pub open spec fn has_zero_norm<T: NumLike>(a: Seq<T>) -> bool {
    norm_spec(a).equals_spec(T::zero_spec())
}

/// The camera's forward axis: the direction from `center` to `eye`.
pub open spec fn look_z<T: NumLike>(eye: Seq<T>, center: Seq<T>) -> Seq<T> {
    normalize_spec(minus_spec_all(eye, center))
}

/// The camera's right axis: the direction of `up` x forward.
pub open spec fn look_x<T: NumLike>(eye: Seq<T>, center: Seq<T>, up: Seq<T>) -> Seq<T> {
    normalize_spec(cross_spec(up, look_z(eye, center)))
}

/// The camera's up axis: the direction of forward x right.
pub open spec fn look_y<T: NumLike>(eye: Seq<T>, center: Seq<T>, up: Seq<T>) -> Seq<T> {
    normalize_spec(cross_spec(look_z(eye, center), look_x(eye, center, up)))
}

/// Whether the camera has no basis: `eye` and `center` coincide, or `up` points along
/// the forward axis, so that one of the three axes has no direction.
pub open spec fn lookat_fails<T: NumLike>(eye: Seq<T>, center: Seq<T>, up: Seq<T>) -> bool {
    ||| has_zero_norm(minus_spec_all(eye, center))
    ||| has_zero_norm(cross_spec(up, look_z(eye, center)))
    ||| has_zero_norm(cross_spec(look_z(eye, center), look_x(eye, center, up)))
}

/// The view matrix: its first three rows hold the right, up and forward axes, and its
/// last column the opposite of `center`.
pub open spec fn lookat_spec<T: NumLike>(eye: Seq<T>, center: Seq<T>, up: Seq<T>) -> Seq<Seq<T>> {
    let x = look_x(eye, center, up);
    let y = look_y(eye, center, up);
    let z = look_z(eye, center);
    seq![
        seq![x[0], x[1], x[2], opposite_spec(center[0])],
        seq![y[0], y[1], y[2], opposite_spec(center[1])],
        seq![z[0], z[1], z[2], opposite_spec(center[2])],
        seq![T::zero_spec(), T::zero_spec(), T::zero_spec(), T::one_spec()],
    ]
}

/// The view matrix of a camera at `eye` that looks at `center`, with `up` upward.
pub fn lookat<T: NumLike>(eye: Vec3<T>, center: Vec3<T>, up: Vec3<T>) -> (r: Result<
    Mat<T>,
    RenderError,
>)
    requires
        usable::<T>(),
    ensures
        r matches Ok(m) ==> m.wf() && m.M == 4 && m.N == 4,
        r matches Err(e) ==> e == RenderError::ZeroNorm,
        T::obeys_num_spec() ==> (r is Err <==> lookat_fails(eye@, center@, up@)),
        T::obeys_num_spec() ==> (r matches Ok(m) ==> m@ == lookat_spec(eye@, center@, up@)),
{
    proof {
        if T::obeys_num_spec() {
            lemma_total_vectors(eye@, center@, 3);
            lemma_total_vectors(minus_spec_all(eye@, center@), center@, 3);
            lemma_total_vectors(up@, look_z(eye@, center@), 3);
            lemma_total_vectors(cross_spec(up@, look_z(eye@, center@)), center@, 3);
            lemma_total_vectors(look_z(eye@, center@), look_x(eye@, center@, up@), 3);
            lemma_total_vectors(
                cross_spec(look_z(eye@, center@), look_x(eye@, center@, up@)),
                center@,
                3,
            );
        }
    }
    let mut forward = eye.minus(&center);
    let z = match forward.normalize() {
        Ok(z) => z,
        Err(e) => {
            return Err(e);
        },
    };
    let mut right = cross(&up, &z);
    let x = match right.normalize() {
        Ok(x) => x,
        Err(e) => {
            return Err(e);
        },
    };
    let mut upward = cross(&z, &x);
    let y = match upward.normalize() {
        Ok(y) => y,
        Err(e) => {
            return Err(e);
        },
    };
    let zero = T::zero();
    let data = vec![
        vec![x.data[0], x.data[1], x.data[2], opposite(center.data[0])],
        vec![y.data[0], y.data[1], y.data[2], opposite(center.data[1])],
        vec![z.data[0], z.data[1], z.data[2], opposite(center.data[2])],
        vec![zero, zero, zero, T::one()],
    ];
    let m = Mat { M: 4, N: 4, data };
    assert(is_grid(m@, 4, 4));
    assert(T::obeys_num_spec() ==> m@ =~~= lookat_spec(eye@, center@, up@));
    Ok(m)
}

/// The viewport matrix: it maps the cube `[-1, 1]` in x, y and z to the box of pixels
/// at `(x, y)` of size `(w, h)` and to the depths from 0 to half of `DEPTH`.
pub open spec fn viewport_spec<T: NumLike>(x: i32, y: i32, w: i32, h: i32) -> Seq<Seq<T>> {
    let two = T::from_i32_spec(2i32);
    let half_w = T::from_i32_spec(w).over_spec(two);
    let half_h = T::from_i32_spec(h).over_spec(two);
    let quarter_depth = T::from_i32_spec(DEPTH).over_spec(T::from_i32_spec(4i32));
    let zero = T::zero_spec();
    seq![
        seq![half_w, zero, zero, T::from_i32_spec(x).plus_spec(half_w)],
        seq![zero, half_h, zero, T::from_i32_spec(y).plus_spec(half_h)],
        seq![zero, zero, quarter_depth, quarter_depth],
        seq![zero, zero, zero, T::one_spec()],
    ]
}

/// The viewport matrix for the box of pixels at `(x, y)` of size `(w, h)`.
pub fn viewport<T: NumLike>(x: i32, y: i32, w: i32, h: i32) -> (r: Mat<T>)
    requires
        usable::<T>(),
    ensures
        r.wf(),
        r.M == 4,
        r.N == 4,
        T::obeys_num_spec() ==> r@ == viewport_spec::<T>(x, y, w, h),
{
    let two = T::from_i32(2);
    let half_w = T::from_i32(w).over(two);
    let half_h = T::from_i32(h).over(two);
    let quarter_depth = T::from_i32(DEPTH).over(T::from_i32(4));
    let zero = T::zero();
    let data = vec![
        vec![half_w, zero, zero, T::from_i32(x).plus(half_w)],
        vec![zero, half_h, zero, T::from_i32(y).plus(half_h)],
        vec![zero, zero, quarter_depth, quarter_depth],
        vec![zero, zero, zero, T::one()],
    ];
    let m = Mat { M: 4, N: 4, data };
    assert(is_grid(m@, 4, 4));
    assert(T::obeys_num_spec() ==> m@ =~~= viewport_spec::<T>(x, y, w, h));
    m
}

/// The value at the fraction `t` of the way from `a` to `b`.
pub open spec fn lerp_spec<T: NumLike>(a: T, b: T, t: T) -> T {
    a.plus_spec(b.minus_spec(a).times_spec(t))
}

/// The point at the fraction `t` of the way from `a` to `b`, each coordinate rounded
/// to an integer.
pub open spec fn point_lerp_spec<T: NumLike>(a: Seq<i32>, b: Seq<i32>, t: T) -> Seq<i32> {
    Seq::new(
        3,
        |k: int| round_spec(lerp_spec(T::from_i32_spec(a[k]), T::from_i32_spec(b[k]), t)),
    )
}

/// The fraction of the way from `from` to `to` at which `at` lies.
pub open spec fn fraction_spec<T: NumLike>(from: i32, to: i32, at: i32) -> T {
    T::from_i32_spec(at).minus_spec(T::from_i32_spec(from)).over_spec(
        T::from_i32_spec(to).minus_spec(T::from_i32_spec(from)),
    )
}

/// A corner of a triangle: its place on the screen, with its depth, and its
/// intensity.
pub struct Corner<T> {
    pub at: Seq<i32>,
    pub ity: T,
}

/// The two ends of one scanline of a triangle.
pub struct Span<T> {
    pub a: Corner<T>,
    pub b: Corner<T>,
}

/// The three corners in the order of their rows: the sort that exchanges the first
/// two where they are out of order, then the first and the third, then the last two.
pub open spec fn sorted_spec<T>(c0: Corner<T>, c1: Corner<T>, c2: Corner<T>) -> (
    Corner<T>,
    Corner<T>,
    Corner<T>,
) {
    let (low, high) = if c0.at[1] > c1.at[1] {
        (c1, c0)
    } else {
        (c0, c1)
    };
    let (first, far) = if low.at[1] > c2.at[1] {
        (c2, low)
    } else {
        (low, c2)
    };
    let (second, third) = if high.at[1] > far.at[1] {
        (far, high)
    } else {
        (high, far)
    };
    (first, second, third)
}

/// The point and the intensity at the fraction `t` of the way from `a` to `b`.
pub open spec fn corner_lerp_spec<T: NumLike>(a: Corner<T>, b: Corner<T>, t: T) -> Corner<T> {
    Corner { at: point_lerp_spec(a.at, b.at, t), ity: lerp_spec(a.ity, b.ity, t) }
}

/// The scanline in row `y` of the triangle with the sorted corners `c0`, `c1` and
/// `c2`: one end lies on the long edge from `c0` to `c2`, the other on the edge from
/// `c0` to `c1` down to the row of `c1` and on the edge from `c1` to `c2` below it.
/// The end with the smaller x comes first.
pub open spec fn span_of_row<T: NumLike>(c0: Corner<T>, c1: Corner<T>, c2: Corner<T>, y: i32) -> Span<T> {
    let second_half = y > c1.at[1] || c1.at[1] == c0.at[1];
    let a = corner_lerp_spec(c0, c2, fraction_spec::<T>(c0.at[1], c2.at[1], y));
    let b = if second_half {
        corner_lerp_spec(c1, c2, fraction_spec::<T>(c1.at[1], c2.at[1], y))
    } else {
        corner_lerp_spec(c0, c1, fraction_spec::<T>(c0.at[1], c1.at[1], y))
    };
    if a.at[0] > b.at[0] {
        Span { a: b, b: a }
    } else {
        Span { a, b }
    }
}

/// The fragment of a scanline in column `j`: the point and the intensity at that
/// fraction of the way between its ends; at the end itself where the two coincide
/// in x.
pub open spec fn fragment_of_span<T: NumLike>(span: Span<T>, j: i32) -> Corner<T> {
    let phi = if span.b.at[0] == span.a.at[0] {
        T::one_spec()
    } else {
        fraction_spec::<T>(span.a.at[0], span.b.at[0], j)
    };
    corner_lerp_spec(span.a, span.b, phi)
}

/// The gray level of an intensity: the intensity, kept within zero and one, times
/// 255, its fraction cut off.
pub open spec fn level_spec<T: NumLike>(ity: T) -> u8 {
    let unit = if T::one_spec().less_spec(ity) {
        T::one_spec()
    } else if ity.less_spec(T::zero_spec()) {
        T::zero_spec()
    } else {
        ity
    };
    to_channel_spec(unit.times_spec(T::from_i32_spec(255i32)))
}

/// The frame after a fragment is drawn: where the fragment lies in the frame and the
/// stored depth is below its depth, the pixel takes the gray level of its intensity
/// and the buffer its depth. On equal depths the earlier fragment stays.
pub open spec fn plot_spec<T: NumLike>(frame: Frame<T>, width: int, height: int, f: Corner<T>) -> Frame<T> {
    let x = f.at[0] as int;
    let y = f.at[1] as int;
    let depth = T::from_i32_spec(f.at[2]);
    if 0 <= x < width && 0 <= y < height && depth_wins(frame.depths[(x, y)], depth) {
        let level = level_spec(f.ity);
        Frame {
            colors: frame.colors.insert((x, y), [level, level, level, 255u8]),
            depths: frame.depths.insert((x, y), depth),
        }
    } else {
        frame
    }
}

/// The depth test of the scanlines: a fragment of depth `depth` is drawn over the
/// stored depth `stored` where that is below it. On equal depths the earlier
/// fragment stays.
pub open spec fn depth_wins<T: NumLike>(stored: T, depth: T) -> bool {
    stored.less_spec(depth)
}

/// The depth that the buffer holds once a fragment of depth `depth` has met the
/// stored depth `stored`.
pub open spec fn stored_after<T: NumLike>(stored: T, depth: T) -> T {
    if depth_wins(stored, depth) {
        depth
    } else {
        stored
    }
}

/// Of two fragments for one pixel, the one with the greater depth stays, in whichever
/// order they come: where the fragment of depth `d1` is drawn and `d2` is above `d1`,
/// a later fragment of depth `d2` replaces it; and where the fragment of depth `d2`
/// was drawn first, the one of depth `d1` fails the test. A fragment of the depth
/// that is stored fails it too, so of equal depths the earlier one stays.
pub proof fn lemma_greater_depth_stays<T: NumLike>(stored: T, d1: T, d2: T)
    requires
        less_is_strict::<T>(),
        d1.less_spec(d2),
    ensures
        depth_wins(stored, d1) ==> stored_after(stored_after(stored, d1), d2) == d2,
        depth_wins(stored, d2) ==> stored_after(stored_after(stored, d2), d1) == d2,
        !depth_wins(d1, d1),
{
}

/// The frame after the first `n` fragments of a scanline are drawn, from its first
/// end on.
pub open spec fn span_fold<T: NumLike>(frame: Frame<T>, width: int, height: int, span: Span<T>, n: int) -> Frame<T>
    decreases n,
{
    if n <= 0 {
        frame
    } else {
        plot_spec(
            span_fold(frame, width, height, span, n - 1),
            width,
            height,
            fragment_of_span(span, (span.a.at[0] + n - 1) as i32),
        )
    }
}

/// The number of fragments of a scanline: one for each column from its first end to
/// its last.
pub open spec fn span_len<T>(span: Span<T>) -> int {
    span.b.at[0] - span.a.at[0] + 1
}

/// The frame after the first `n` scanlines of the triangle with the sorted corners
/// `c0`, `c1` and `c2` are drawn, from the row of `c0` on.
pub open spec fn rows_fold<T: NumLike>(
    frame: Frame<T>,
    width: int,
    height: int,
    c0: Corner<T>,
    c1: Corner<T>,
    c2: Corner<T>,
    n: int,
) -> Frame<T>
    decreases n,
{
    if n <= 0 {
        frame
    } else {
        let span = span_of_row(c0, c1, c2, (c0.at[1] + n - 1) as i32);
        span_fold(rows_fold(frame, width, height, c0, c1, c2, n - 1), width, height, span, span_len(span))
    }
}

/// Whether the fragment `f` is drawn over the pixel `(x, y)` of `frame`: it lies
/// there, and the depth stored there is below its depth.
pub open spec fn beats<T: NumLike>(frame: Frame<T>, f: Corner<T>, x: int, y: int) -> bool {
    f.at[0] == x && f.at[1] == y && depth_wins(frame.depths[(x, y)], T::from_i32_spec(f.at[2]))
}

/// Whether no fragment of the first `n` of a scanline is drawn over the pixel
/// `(x, y)` of `frame`.
pub open spec fn span_spares<T: NumLike>(frame: Frame<T>, span: Span<T>, n: int, x: int, y: int) -> bool {
    forall|j: int|
        0 <= j < n ==> !beats(
            frame,
            #[trigger] fragment_of_span(span, (span.a.at[0] + j) as i32),
            x,
            y,
        )
}

/// Whether no fragment of the first `n` scanlines of the triangle with the sorted
/// corners `c0`, `c1` and `c2` is drawn over the pixel `(x, y)` of `frame`.
pub open spec fn rows_spare<T: NumLike>(
    frame: Frame<T>,
    c0: Corner<T>,
    c1: Corner<T>,
    c2: Corner<T>,
    n: int,
    x: int,
    y: int,
) -> bool {
    forall|r: int|
        0 <= r < n ==> span_spares(
            frame,
            #[trigger] span_of_row(c0, c1, c2, (c0.at[1] + r) as i32),
            span_len(span_of_row(c0, c1, c2, (c0.at[1] + r) as i32)),
            x,
            y,
        )
}

/// A scanline leaves a pixel as it is where none of its fragments is drawn over it:
/// where `now` holds at `(x, y)` what `frame` holds there, so does `now` with the
/// first `n` fragments of the scanline drawn.
pub proof fn lemma_span_spares<T: NumLike>(
    frame: Frame<T>,
    now: Frame<T>,
    width: int,
    height: int,
    span: Span<T>,
    n: int,
    x: int,
    y: int,
)
    requires
        now.colors[(x, y)] == frame.colors[(x, y)],
        now.depths[(x, y)] == frame.depths[(x, y)],
        span_spares(frame, span, n, x, y),
    ensures
        span_fold(now, width, height, span, n).colors[(x, y)] == frame.colors[(x, y)],
        span_fold(now, width, height, span, n).depths[(x, y)] == frame.depths[(x, y)],
    decreases n,
{
    if n > 0 {
        lemma_span_spares(frame, now, width, height, span, n - 1, x, y);
        let f = fragment_of_span(span, (span.a.at[0] + (n - 1)) as i32);
        assert(!beats(frame, f, x, y));
    }
}

/// The scanlines of a triangle leave a pixel as it is where none of their fragments
/// is drawn over it.
pub proof fn lemma_rows_spare<T: NumLike>(
    frame: Frame<T>,
    width: int,
    height: int,
    c0: Corner<T>,
    c1: Corner<T>,
    c2: Corner<T>,
    n: int,
    x: int,
    y: int,
)
    requires
        rows_spare(frame, c0, c1, c2, n, x, y),
    ensures
        rows_fold(frame, width, height, c0, c1, c2, n).colors[(x, y)] == frame.colors[(x, y)],
        rows_fold(frame, width, height, c0, c1, c2, n).depths[(x, y)] == frame.depths[(x, y)],
    decreases n,
{
    if n > 0 {
        lemma_rows_spare(frame, width, height, c0, c1, c2, n - 1, x, y);
        let span = span_of_row(c0, c1, c2, (c0.at[1] + (n - 1)) as i32);
        assert(span_spares(frame, span, span_len(span), x, y));
        lemma_span_spares(
            frame,
            rows_fold(frame, width, height, c0, c1, c2, n - 1),
            width,
            height,
            span,
            span_len(span),
            x,
            y,
        );
    }
}

/// The depth test of the scanlines is strict: a triangle leaves the color and the
/// depth of a pixel as they are where each of its fragments for that pixel has a
/// depth that is not above the one stored there, so also where each has exactly the
/// stored depth.
pub proof fn lemma_unbeaten_pixel_stays<T: NumLike>(
    frame: Frame<T>,
    width: int,
    height: int,
    c0: Corner<T>,
    c1: Corner<T>,
    c2: Corner<T>,
    x: int,
    y: int,
)
    requires
        ({
            let (s0, s1, s2) = sorted_spec(c0, c1, c2);
            rows_spare(frame, s0, s1, s2, s2.at[1] - s0.at[1], x, y)
        }),
    ensures
        scanline_spec(frame, width, height, c0, c1, c2).colors[(x, y)] == frame.colors[(x, y)],
        scanline_spec(frame, width, height, c0, c1, c2).depths[(x, y)] == frame.depths[(x, y)],
{
    let (s0, s1, s2) = sorted_spec(c0, c1, c2);
    lemma_rows_spare(frame, width, height, s0, s1, s2, s2.at[1] - s0.at[1], x, y);
}

/// Whether the three points lie on one line of the screen: in one row, in one
/// column, or on one slanted line. Such points span no triangle.
pub open spec fn on_one_line_spec(a: Seq<i32>, b: Seq<i32>, c: Seq<i32>) -> bool {
    (b[0] - a[0]) * (c[1] - a[1]) == (c[0] - a[0]) * (b[1] - a[1])
}

/// Three points in one row lie on one line.
pub proof fn lemma_one_row_is_one_line(a: Seq<i32>, b: Seq<i32>, c: Seq<i32>)
    requires
        a[1] == b[1],
        a[1] == c[1],
    ensures
        on_one_line_spec(a, b, c),
{
    assert((b[0] - a[0]) * 0 == 0 && (c[0] - a[0]) * 0 == 0) by (nonlinear_arith);
}

/// Whether the three points lie on one line of the screen.
pub fn on_one_line(a: &Vec3i, b: &Vec3i, c: &Vec3i) -> (r: bool)
    ensures
        r == on_one_line_spec(a@, b@, c@),
{
    let bx: i128 = b.data[0] as i128 - a.data[0] as i128;
    let by: i128 = b.data[1] as i128 - a.data[1] as i128;
    let cx: i128 = c.data[0] as i128 - a.data[0] as i128;
    let cy: i128 = c.data[1] as i128 - a.data[1] as i128;
    assert(-0x1_0000_0000_0000_0000 <= bx * cy <= 0x1_0000_0000_0000_0000) by (nonlinear_arith)
        requires
            -0x1_0000_0000 <= bx <= 0x1_0000_0000,
            -0x1_0000_0000 <= cy <= 0x1_0000_0000,
    ;
    assert(-0x1_0000_0000_0000_0000 <= cx * by <= 0x1_0000_0000_0000_0000) by (nonlinear_arith)
        requires
            -0x1_0000_0000 <= cx <= 0x1_0000_0000,
            -0x1_0000_0000 <= by <= 0x1_0000_0000,
    ;
    bx * cy == cx * by
}

/// The frame after the triangle with the corners `c0`, `c1` and `c2` is drawn: the
/// frame as it was where the three lie on one line, and otherwise the frame after
/// each row from the first corner's to the one above the last corner's is drawn.
pub open spec fn scanline_spec<T: NumLike>(
    frame: Frame<T>,
    width: int,
    height: int,
    c0: Corner<T>,
    c1: Corner<T>,
    c2: Corner<T>,
) -> Frame<T> {
    if on_one_line_spec(c0.at, c1.at, c2.at) {
        frame
    } else {
        let (s0, s1, s2) = sorted_spec(c0, c1, c2);
        rows_fold(frame, width, height, s0, s1, s2, s2.at[1] - s0.at[1])
    }
}

/// A corner as the executable code holds it.
#[derive(Clone, Copy)]
struct Vertex<T: NumLike> {
    at: Vec3i,
    ity: T,
}

impl<T: NumLike> Vertex<T> {
    spec fn view(&self) -> Corner<T> {
        Corner { at: self.at@, ity: self.ity }
    }
}

/// The value at the fraction `t` of the way from `a` to `b`.
fn lerp<T: NumLike>(a: T, b: T, t: T) -> (r: T)
    requires
        usable::<T>(),
    ensures
        T::obeys_num_spec() ==> r == lerp_spec(a, b, t),
{
    a.plus(b.minus(a).times(t))
}

/// The fraction of the way from `from` to `to` at which `at` lies.
fn fraction<T: NumLike>(from: i32, to: i32, at: i32) -> (r: T)
    requires
        usable::<T>(),
    ensures
        T::obeys_num_spec() ==> r == fraction_spec::<T>(from, to, at),
{
    T::from_i32(at).minus(T::from_i32(from)).over(T::from_i32(to).minus(T::from_i32(from)))
}

/// The point and the intensity at the fraction `t` of the way from `a` to `b`.
fn corner_lerp<T: NumLike>(a: &Vertex<T>, b: &Vertex<T>, t: T) -> (r: Vertex<T>)
    requires
        usable::<T>(),
    ensures
        T::obeys_num_spec() ==> r.view() == corner_lerp_spec(a.view(), b.view(), t),
{
    let x = round(lerp(T::from_i32(a.at.data[0]), T::from_i32(b.at.data[0]), t));
    let y = round(lerp(T::from_i32(a.at.data[1]), T::from_i32(b.at.data[1]), t));
    let z = round(lerp(T::from_i32(a.at.data[2]), T::from_i32(b.at.data[2]), t));
    let r = Vertex { at: Vec_ { data: [x, y, z] }, ity: lerp(a.ity, b.ity, t) };
    assert(T::obeys_num_spec() ==> r.at@ =~= point_lerp_spec(a.at@, b.at@, t));
    r
}

/// The gray level of an intensity.
fn level<T: NumLike>(ity: T) -> (r: u8)
    requires
        usable::<T>(),
    ensures
        T::obeys_num_spec() ==> r == level_spec(ity),
{
    let one = T::one();
    let zero = T::zero();
    let unit = if one.less(ity) {
        one
    } else if ity.less(zero) {
        zero
    } else {
        ity
    };
    to_channel(unit.times(T::from_i32(255)))
}

/// Draws one fragment: where it lies in the frame and the stored depth is below its
/// depth, the pixel takes the gray level of its intensity and the buffer its depth.
fn plot<T: NumLike>(img: &mut Canvas, zbuf: &mut DepthBuffer<T>, f: &Vertex<T>, Ghost(frame): Ghost<Frame<T>>)
    requires
        old(zbuf).wf(),
        old(img).spec_width() == old(zbuf).spec_width(),
        old(img).spec_height() == old(zbuf).spec_height(),
        usable::<T>(),
        T::obeys_num_spec() ==> agrees(*old(img), *old(zbuf), frame),
    ensures
        final(zbuf).wf(),
        final(img).spec_width() == old(img).spec_width(),
        final(img).spec_height() == old(img).spec_height(),
        final(zbuf).spec_width() == old(zbuf).spec_width(),
        final(zbuf).spec_height() == old(zbuf).spec_height(),
        T::obeys_num_spec() ==> agrees(
            *final(img),
            *final(zbuf),
            plot_spec(frame, old(img).spec_width(), old(img).spec_height(), f.view()),
        ),
{
    let x = f.at.data[0];
    let y = f.at.data[1];
    if x < 0 || y < 0 {
        return ;
    }
    let stored = match zbuf.get(x as u32, y as u32) {
        Ok(stored) => stored,
        Err(_) => {
            return ;
        },
    };
    let depth = T::from_i32(f.at.data[2]);
    if stored.less(depth) {
        let gray = level(f.ity);
        let ghost img_before = *img;
        let _ = zbuf.set(x as u32, y as u32, depth);
        let _ = img.put(x as u32, y as u32, [gray, gray, gray, 255]);
        proof {
            if T::obeys_num_spec() {
                let after = plot_spec(frame, old(img).spec_width(), old(img).spec_height(), f.view());
                assert forall|a: int, b: int| img.contains(a, b) implies #[trigger] img.color_at(a, b)
                    == after.colors[(a, b)] && zbuf.depth_at(a, b) == after.depths[(a, b)] by {
                    assert(old(img).contains(a, b));
                    assert(img_before.color_at(a, b) == frame.colors[(a, b)]);
                    assert(old(zbuf).contains(a, b));
                }
            }
        }
    }
}

/// Fills the triangle with the corners `t0`, `t1` and `t2` on the screen, each with
/// a depth, scanline by scanline, with gray levels that follow the intensities
/// `ity0`, `ity1` and `ity2` of the corners. A pixel is drawn where the stored depth
/// is below the depth of the triangle there. Three corners in one row make no
/// triangle, and nothing is drawn. The canvas and the depth buffer must have the
/// same size.
pub fn triangle<T: NumLike>(
    t0: Vec3i,
    t1: Vec3i,
    t2: Vec3i,
    ity0: T,
    ity1: T,
    ity2: T,
    img: &mut Canvas,
    zbuf: &mut DepthBuffer<T>,
) -> (r: Result<(), RenderError>)
    requires
        old(zbuf).wf(),
        usable::<T>(),
    ensures
        final(zbuf).wf(),
        final(img).spec_width() == old(img).spec_width(),
        final(img).spec_height() == old(img).spec_height(),
        final(zbuf).spec_width() == old(zbuf).spec_width(),
        final(zbuf).spec_height() == old(zbuf).spec_height(),
        r matches Err(e) ==> e == RenderError::DimensionMismatch,
        r is Ok <==> old(img).spec_width() == old(zbuf).spec_width() && old(img).spec_height()
            == old(zbuf).spec_height(),
        r is Err || on_one_line_spec(t0@, t1@, t2@) ==> final(img).pixels() == old(img).pixels()
            && final(zbuf).same_depths(old(zbuf)),
        T::obeys_num_spec() && r is Ok ==> agrees(
            *final(img),
            *final(zbuf),
            scanline_spec(
                snapshot(*old(img), *old(zbuf)),
                old(img).spec_width(),
                old(img).spec_height(),
                Corner { at: t0@, ity: ity0 },
                Corner { at: t1@, ity: ity1 },
                Corner { at: t2@, ity: ity2 },
            ),
        ),
{
    if img.width() != zbuf.width() || img.height() != zbuf.height() {
        return Err(RenderError::DimensionMismatch);
    }
    proof {
        crate::framebuffer::lemma_agrees_with_snapshot(*img, *zbuf);
    }
    fill(t0, t1, t2, ity0, ity1, ity2, img, zbuf, Ghost(snapshot(*img, *zbuf)));
    Ok(())
}

/// Fills the triangle as `triangle` does, on a canvas and a depth buffer of one size
/// that hold what the frame `start` gives.
fn fill<T: NumLike>(
    t0: Vec3i,
    t1: Vec3i,
    t2: Vec3i,
    ity0: T,
    ity1: T,
    ity2: T,
    img: &mut Canvas,
    zbuf: &mut DepthBuffer<T>,
    Ghost(start): Ghost<Frame<T>>,
)
    requires
        old(zbuf).wf(),
        usable::<T>(),
        old(img).spec_width() == old(zbuf).spec_width(),
        old(img).spec_height() == old(zbuf).spec_height(),
        T::obeys_num_spec() ==> agrees(*old(img), *old(zbuf), start),
    ensures
        final(zbuf).wf(),
        final(img).spec_width() == old(img).spec_width(),
        final(img).spec_height() == old(img).spec_height(),
        final(zbuf).spec_width() == old(zbuf).spec_width(),
        final(zbuf).spec_height() == old(zbuf).spec_height(),
        on_one_line_spec(t0@, t1@, t2@) ==> final(img).pixels() == old(img).pixels()
            && final(zbuf).same_depths(old(zbuf)),
        T::obeys_num_spec() ==> agrees(
            *final(img),
            *final(zbuf),
            scanline_spec(
                start,
                old(img).spec_width(),
                old(img).spec_height(),
                Corner { at: t0@, ity: ity0 },
                Corner { at: t1@, ity: ity1 },
                Corner { at: t2@, ity: ity2 },
            ),
        ),
{
    if on_one_line(&t0, &t1, &t2) {
        return ;
    }
    proof {
        if t0@[1] == t1@[1] && t0@[1] == t2@[1] {
            lemma_one_row_is_one_line(t0@, t1@, t2@);
        }
    }
    let mut v0 = Vertex { at: t0, ity: ity0 };
    let mut v1 = Vertex { at: t1, ity: ity1 };
    let mut v2 = Vertex { at: t2, ity: ity2 };
    if v0.at.data[1] > v1.at.data[1] {
        let tmp = v0;
        v0 = v1;
        v1 = tmp;
    }
    if v0.at.data[1] > v2.at.data[1] {
        let tmp = v0;
        v0 = v2;
        v2 = tmp;
    }
    if v1.at.data[1] > v2.at.data[1] {
        let tmp = v1;
        v1 = v2;
        v2 = tmp;
    }
    let ghost c0 = v0.view();
    let ghost c1 = v1.view();
    let ghost c2 = v2.view();
    assert((c0, c1, c2) == sorted_spec(
        Corner { at: t0@, ity: ity0 },
        Corner { at: t1@, ity: ity1 },
        Corner { at: t2@, ity: ity2 },
    ));
    let ghost width = old(img).spec_width();
    let ghost height = old(img).spec_height();
    let y_first = v0.at.data[1];
    let y_last = v2.at.data[1];
    let mut y = y_first;
    while y < y_last
        invariant
            y_first <= y <= y_last,
            y_first == v0.at@[1],
            y_last == v2.at@[1],
            v0.at@[1] <= v1.at@[1] <= v2.at@[1],
            c0 == v0.view(),
            c1 == v1.view(),
            c2 == v2.view(),
            zbuf.wf(),
            usable::<T>(),
            img.spec_width() == width,
            img.spec_height() == height,
            zbuf.spec_width() == width,
            zbuf.spec_height() == height,
            T::obeys_num_spec() ==> agrees(
                *img,
                *zbuf,
                rows_fold(start, width, height, c0, c1, c2, y - y_first),
            ),
        decreases y_last - y,
    {
        let ghost before_row = rows_fold(start, width, height, c0, c1, c2, y - y_first);
        let second_half = y > v1.at.data[1] || v1.at.data[1] == v0.at.data[1];
        let mut a = corner_lerp(&v0, &v2, fraction(v0.at.data[1], v2.at.data[1], y));
        let mut b = if second_half {
            corner_lerp(&v1, &v2, fraction(v1.at.data[1], v2.at.data[1], y))
        } else {
            corner_lerp(&v0, &v1, fraction(v0.at.data[1], v1.at.data[1], y))
        };
        if a.at.data[0] > b.at.data[0] {
            let tmp = a;
            a = b;
            b = tmp;
        }
        let ghost span = Span { a: a.view(), b: b.view() };
        assert(T::obeys_num_spec() ==> span == span_of_row(c0, c1, c2, y));
        let x_first = a.at.data[0];
        let x_last = b.at.data[0];
        let mut j: i64 = x_first as i64;
        while j <= x_last as i64
            invariant
                x_first <= j <= x_last + 1,
                x_first == a.at@[0],
                x_last == b.at@[0],
                span == (Span { a: a.view(), b: b.view() }),
                zbuf.wf(),
                usable::<T>(),
                img.spec_width() == width,
                img.spec_height() == height,
                zbuf.spec_width() == width,
                zbuf.spec_height() == height,
                T::obeys_num_spec() ==> agrees(
                    *img,
                    *zbuf,
                    span_fold(before_row, width, height, span, j - x_first),
                ),
            decreases x_last + 1 - j,
        {
            let phi = if x_last == x_first {
                T::one()
            } else {
                fraction(x_first, x_last, j as i32)
            };
            let f = corner_lerp(&a, &b, phi);
            assert(T::obeys_num_spec() ==> f.view() == fragment_of_span(span, j as i32));
            plot(img, zbuf, &f, Ghost(span_fold(before_row, width, height, span, j - x_first)));
            j += 1;
        }
        assert(T::obeys_num_spec() ==> agrees(
            *img,
            *zbuf,
            rows_fold(start, width, height, c0, c1, c2, y + 1 - y_first),
        ));
        y += 1;
    }
}

/// The picture of the depths in `zbuf`: each pixel in the gray level that its depth
/// stands for, opaque.
pub fn depth_image<T: NumLike>(zbuf: &DepthBuffer<T>) -> (r: Option<Canvas>)
    requires
        zbuf.wf(),
        usable::<T>(),
    ensures
        r is Some <==> 4 * zbuf.spec_width() * zbuf.spec_height() <= isize::MAX,
        r matches Some(img) ==> img.spec_width() == zbuf.spec_width() && img.spec_height()
            == zbuf.spec_height(),
        T::obeys_num_spec() ==> (r matches Some(img) ==> forall|x: int, y: int|
            img.contains(x, y) ==> (#[trigger] img.color_at(x, y)) == gray_spec(
                to_channel_spec(zbuf.depth_at(x, y)),
            )),
{
    let width = zbuf.width();
    let height = zbuf.height();
    let mut img = match Canvas::from_pixel(width, height, [0, 0, 0, 255]) {
        Some(img) => img,
        None => {
            return None;
        },
    };
    let mut x: u32 = 0;
    while x < width
        invariant
            x <= width,
            zbuf.wf(),
            width == zbuf.spec_width(),
            height == zbuf.spec_height(),
            img.spec_width() == width,
            img.spec_height() == height,
            usable::<T>(),
            T::obeys_num_spec() ==> forall|a: int, b: int|
                img.contains(a, b) && a < x ==> (#[trigger] img.color_at(a, b)) == gray_spec(
                    to_channel_spec(zbuf.depth_at(a, b)),
                ),
        decreases width - x,
    {
        let mut y: u32 = 0;
        while y < height
            invariant
                y <= height,
                x < width,
                zbuf.wf(),
                width == zbuf.spec_width(),
                height == zbuf.spec_height(),
                img.spec_width() == width,
                img.spec_height() == height,
                usable::<T>(),
                T::obeys_num_spec() ==> forall|a: int, b: int|
                    img.contains(a, b) && (a < x || (a == x && b < y)) ==> (#[trigger] img.color_at(
                        a,
                        b,
                    )) == gray_spec(to_channel_spec(zbuf.depth_at(a, b))),
            decreases height - y,
        {
            match zbuf.get(x, y) {
                Ok(depth) => {
                    let level = to_channel(depth);
                    let _ = img.put(x, y, [level, level, level, 255]);
                },
                Err(_) => {},
            }
            y += 1;
        }
        x += 1;
    }
    Some(img)
}

/// The opaque gray of the level `level`.
pub open spec fn gray_spec(level: u8) -> Color {
    [level, level, level, 255u8]
}

/// The frame of a render before anything is drawn: opaque black, at the far depth.
pub open spec fn blank_spec<T: NumLike>() -> Frame<T> {
    Frame {
        colors: Map::total(|k: (int, int)| [0u8, 0u8, 0u8, 255u8]),
        depths: Map::total(|k: (int, int)| crate::shaders::far_spec::<T>()),
    }
}

/// The corner `k` of the face `f` of the mesh as the scanlines get it: its place on
/// the screen under the transform `composite`, rounded, and the dot product of its
/// normal and the light.
pub open spec fn scan_corner_spec<T: NumLike>(
    model: Model<T>,
    composite: Seq<Seq<T>>,
    light: Seq<T>,
    f: usize,
    k: usize,
) -> Corner<T> {
    let corner = model.corner(f, k);
    let clip = crate::matrix::mul_vec_spec(
        composite,
        crate::geometry::embed_spec(model.verts@[corner[0] as int]@, T::one_spec(), 4),
    );
    Corner {
        at: Seq::new(3, |i: int| round_spec(clip[i].over_spec(clip[3]))),
        ity: crate::geometry::dot_spec(normalize_spec(model.norms@[corner[2] as int]@), light, 3),
    }
}

/// The frame once the first `n` faces of the mesh are drawn by scanlines.
pub open spec fn scanned_spec<T: NumLike>(
    model: Model<T>,
    composite: Seq<Seq<T>>,
    light: Seq<T>,
    n: int,
) -> Frame<T>
    decreases n,
{
    if n <= 0 {
        blank_spec::<T>()
    } else {
        scanline_spec(
            scanned_spec(model, composite, light, n - 1),
            WIDTH as int,
            HEIGHT as int,
            scan_corner_spec(model, composite, light, (n - 1) as usize, 0),
            scan_corner_spec(model, composite, light, (n - 1) as usize, 1),
            scan_corner_spec(model, composite, light, (n - 1) as usize, 2),
        )
    }
}

/// The transform of the scene of the renders with the camera at `eye`: viewport
/// times projection times view.
pub open spec fn scene_composite_spec<T: NumLike>(eye: Seq<T>) -> Seq<Seq<T>> {
    let origin = crate::shaders::vec3_spec::<T>(0, 0, 0);
    crate::matrix::mul_spec(
        crate::matrix::mul_spec(
            viewport_spec::<T>(100, 100, 600, 600),
            crate::shaders::perspective_spec(norm_spec(minus_spec_all(eye, origin))),
            4,
        ),
        lookat_spec(eye, origin, crate::shaders::vec3_spec::<T>(0, 1, 0)),
        4,
    )
}

/// The frame once the mesh is drawn by scanlines, seen from (1, 1, 3) in the light
/// from (1, -1, 1).
pub open spec fn move_camera_spec<T: NumLike>(model: Model<T>) -> Frame<T> {
    scanned_spec(
        model,
        scene_composite_spec(crate::shaders::vec3_spec::<T>(1, 1, 3)),
        normalize_spec(crate::shaders::vec3_spec::<T>(1, -1i32, 1)),
        model.faces@.len() as int,
    )
}

/// The corner `k` of the face `f` of the mesh as the scanlines get it.
fn scan_corner<T: NumLike>(model: &Model<T>, gl: &crate::gl::GL<T>, f: usize, k: usize) -> (r: Result<
    Vertex<T>,
    RenderError,
>)
    requires
        model.wf(),
        gl.wf(),
        usable::<T>(),
        model.has_corner(f, k),
    ensures
        r matches Err(e) ==> e == RenderError::ZeroNorm,
        T::obeys_num_spec() ==> (r is Err <==> has_zero_norm(
            model.norms@[model.corner(f, k)[2] as int]@,
        )),
        T::obeys_num_spec() ==> (r matches Ok(v) ==> v.view() == scan_corner_spec(
            *model,
            gl.composite_spec(),
            gl.light_dir@,
            f,
            k,
        )),
{
    let position = match model.vert_by(f, k) {
        Ok(position) => position,
        Err(_) => vstd::pervasive::unreached(),
    };
    let clip = gl.to_clip(&position);
    let w = clip.data[3];
    let on_screen = Vec_ {
        data: [clip.data[0].over(w), clip.data[1].over(w), clip.data[2].over(w)],
    };
    let at = on_screen.to_vec3i();
    let normal = match model.norm(f, k) {
        Ok(normal) => normal,
        Err(e) => {
            return Err(e);
        },
    };
    proof {
        if T::obeys_num_spec() {
            lemma_total_vectors(normal@, gl.light_dir@, 3);
        }
    }
    let v = Vertex { at, ity: normal.dot(&gl.light_dir) };
    assert(T::obeys_num_spec() ==> v.at@ =~= scan_corner_spec(
        *model,
        gl.composite_spec(),
        gl.light_dir@,
        f,
        k,
    ).at);
    Ok(v)
}

/// Renders the mesh in the gray levels of its light, seen from (1, 1, 3) in the
/// light from (1, -1, 1), by scanlines; and with it the picture of the depths. Both
/// have the first row of the canvas at the top of the picture.
pub fn move_camera<T: NumLike>(model: &Model<T>) -> (r: Result<(Canvas, Canvas), RenderError>)
    requires
        model.wf(),
        usable::<T>(),
    ensures
        r matches Ok(pair) ==> pair.0.spec_width() == WIDTH && pair.0.spec_height() == HEIGHT
            && pair.1.spec_width() == WIDTH && pair.1.spec_height() == HEIGHT,
        r matches Err(e) ==> e == RenderError::ZeroNorm,
        T::obeys_num_spec() ==> (r is Ok <==> !crate::shaders::scene_fails_spec(
            crate::shaders::vec3_spec::<T>(1, 1, 3),
            crate::shaders::vec3_spec::<T>(1, -1i32, 1),
        ) && crate::shaders::faces_are_lit(*model, model.faces@.len() as int)),
        T::obeys_num_spec() && r is Ok ==> forall|x: int, y: int|
            r->Ok_0.0.contains(x, y) ==> (#[trigger] r->Ok_0.0.color_at(x, y)) == move_camera_spec(
                *model,
            ).colors[(x, HEIGHT - 1 - y)],
        T::obeys_num_spec() && r is Ok ==> forall|x: int, y: int|
            r->Ok_0.1.contains(x, y) ==> (#[trigger] r->Ok_0.1.color_at(x, y)) == gray_spec(
                to_channel_spec(move_camera_spec(*model).depths[(x, HEIGHT - 1 - y)]),
            ),
{
    let gl = match scene(vec3(1, 1, 3), vec3(1, -1, 1)) {
        Ok(gl) => gl,
        Err(e) => {
            return Err(e);
        },
    };
    let ghost composite = gl.composite_spec();
    let ghost light = gl.light_dir@;
    assert(T::obeys_num_spec() ==> composite == scene_composite_spec(
        crate::shaders::vec3_spec::<T>(1, 1, 3),
    ) && light == normalize_spec(crate::shaders::vec3_spec::<T>(1, -1i32, 1)));
    let (mut img, mut zbuf) = blank_frame::<T>();
    assert(T::obeys_num_spec() ==> agrees(img, zbuf, blank_spec::<T>()));
    let nfaces = model.nfaces();
    let mut i: usize = 0;
    while i < nfaces
        invariant
            i <= nfaces,
            nfaces == model.faces@.len(),
            model.wf(),
            gl.wf(),
            zbuf.wf(),
            usable::<T>(),
            composite == gl.composite_spec(),
            light == gl.light_dir@,
            T::obeys_num_spec() ==> composite == scene_composite_spec(
                crate::shaders::vec3_spec::<T>(1, 1, 3),
            ) && light == normalize_spec(crate::shaders::vec3_spec::<T>(1, -1i32, 1)),
            img.spec_width() == WIDTH && img.spec_height() == HEIGHT,
            zbuf.spec_width() == WIDTH && zbuf.spec_height() == HEIGHT,
            T::obeys_num_spec() ==> crate::shaders::faces_are_lit(*model, i as int),
            T::obeys_num_spec() ==> agrees(
                img,
                zbuf,
                scanned_spec(*model, composite, light, i as int),
            ),
        decreases nfaces - i,
    {
        let v0 = match scan_corner(model, &gl, i, 0) {
            Ok(v) => v,
            Err(e) => {
                assert(T::obeys_num_spec() ==> crate::shaders::normal_vanishes(*model, i as int, 0));
                return Err(e);
            },
        };
        assert(T::obeys_num_spec() ==> !crate::shaders::normal_vanishes(*model, i as int, 0));
        let v1 = match scan_corner(model, &gl, i, 1) {
            Ok(v) => v,
            Err(e) => {
                assert(T::obeys_num_spec() ==> crate::shaders::normal_vanishes(*model, i as int, 1));
                return Err(e);
            },
        };
        assert(T::obeys_num_spec() ==> !crate::shaders::normal_vanishes(*model, i as int, 1));
        let v2 = match scan_corner(model, &gl, i, 2) {
            Ok(v) => v,
            Err(e) => {
                assert(T::obeys_num_spec() ==> crate::shaders::normal_vanishes(*model, i as int, 2));
                return Err(e);
            },
        };
        assert(T::obeys_num_spec() ==> !crate::shaders::normal_vanishes(*model, i as int, 2));
        fill(
            v0.at,
            v1.at,
            v2.at,
            v0.ity,
            v1.ity,
            v2.ity,
            &mut img,
            &mut zbuf,
            Ghost(scanned_spec(*model, composite, light, i as int)),
        );
        i += 1;
    }
    let mut zimg = match depth_image(&zbuf) {
        Some(zimg) => zimg,
        None => vstd::pervasive::unreached(),
    };
    let ghost drawn = img;
    let ghost depths = zimg;
    zimg.flip_vertical();
    img.flip_vertical();
    proof {
        if T::obeys_num_spec() {
            let frame = move_camera_spec(*model);
            assert(frame == scanned_spec(*model, composite, light, nfaces as int));
            assert forall|x: int, y: int| img.contains(x, y) implies (#[trigger] img.color_at(x, y))
                == frame.colors[(x, HEIGHT - 1 - y)] by {
                assert(drawn.contains(x, HEIGHT - 1 - y));
                assert(img.color_at(x, y) == drawn.color_at(x, HEIGHT - 1 - y));
            }
            assert forall|x: int, y: int| zimg.contains(x, y) implies (#[trigger] zimg.color_at(
                x,
                y,
            )) == gray_spec(to_channel_spec(frame.depths[(x, HEIGHT - 1 - y)])) by {
                assert(drawn.contains(x, HEIGHT - 1 - y));
                assert(depths.contains(x, HEIGHT - 1 - y));
                assert(drawn.color_at(x, HEIGHT - 1 - y) == frame.colors[(x, HEIGHT - 1 - y)]);
                assert(zbuf.depth_at(x, HEIGHT - 1 - y) == frame.depths[(x, HEIGHT - 1 - y)]);
                assert(depths.color_at(x, HEIGHT - 1 - y) == gray_spec(
                    to_channel_spec(zbuf.depth_at(x, HEIGHT - 1 - y)),
                ));
                assert(zimg.color_at(x, y) == depths.color_at(x, HEIGHT - 1 - y));
            }
        }
    }
    Ok((img, zimg))
}

} // verus!
