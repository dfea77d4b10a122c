//! The programmable pipeline: the three transform matrices, the shader interface and
//! the triangle filler that is driven by a shader.
use crate::camera::{lookat, lookat_fails, lookat_spec, viewport, viewport_spec, DEPTH};
use crate::error::RenderError;
use crate::framebuffer::{Canvas, Color, DepthBuffer};
use crate::geometry::{
    embed, embed_spec, half_spec, lemma_total_vectors, points_view, Vec2, Vec3, Vec4, Vec_,
};
use crate::matrix::{
    det_spec, identity_spec, invert_transpose_spec, lemma_total_matrices, mul_spec, mul_vec_spec,
    singular_spec, Mat,
};
use crate::util::{less_is_strict, maxf, minf, ratio, ratio_spec, usable, NumLike};
use vstd::prelude::*;

verus! {

/// The state of one render: the transforms from object space to the screen, the
/// direction of the light and the size of the frame.
#[derive(Debug)]
pub struct GL<T: NumLike> {
    pub model_view: Mat<T>,
    pub projection: Mat<T>,
    pub viewport: Mat<T>,
    pub light_dir: Vec3<T>,
    pub width: u32,
    pub height: u32,
}

/// A shader: `vertex` is called for the three corners of a face, in order, and
/// returns each in clip space; `fragment` is then called for each pixel of the face
/// that passes the depth test and returns its color, or `None` to discard the pixel.
/// What `vertex` stores in the shader, `fragment` reads.
pub trait IShader<T: NumLike>: Sized {
    /// What the shader needs to hold of itself before a call; both calls keep it.
    open spec fn shader_req(&self) -> bool {
        true
    }

    /// Whether the shader has the corner `nthvert` of the face `iface`.
    open spec fn has_vertex(&self, iface: usize, nthvert: usize) -> bool {
        true
    }

    /// Whether `fragment` returns what `fragment_spec` says, over a scalar that does
    /// what its own specification says, and leaves the shader as it is.
    open spec fn obeys_shader_spec() -> bool {
        false
    }

    /// What `fragment` returns for the weights `bc`.
    open spec fn fragment_spec(&self, bc: Seq<T>) -> Result<Option<Color>, RenderError> {
        arbitrary()
    }

    /// Takes in the corner `nthvert` of the face `iface` and returns it in clip
    /// space.
    fn vertex(&mut self, iface: usize, nthvert: usize) -> (r: Result<Vec4<T>, RenderError>)
        requires
            old(self).shader_req(),
        ensures
            final(self).shader_req(),
            forall|f: usize, n: usize| old(self).has_vertex(f, n) == final(self).has_vertex(f, n),
    ;

    /// The color of the fragment with the weights `bc`, or `None` to discard it.
    fn fragment(&mut self, bc: Vec3<T>, gl_fragcoord: Vec3<T>) -> (r: Result<
        Option<Color>,
        RenderError,
    >)
        requires
            old(self).shader_req(),
        ensures
            final(self).shader_req(),
            forall|f: usize, n: usize| old(self).has_vertex(f, n) == final(self).has_vertex(f, n),
            Self::obeys_shader_spec() && T::obeys_num_spec() ==> r == old(self).fragment_spec(bc@)
                && *final(self) == *old(self),
    ;
}

/// The rows `(x, y, 1)` of the three corners of a triangle on the screen.
pub open spec fn corner_rows<T: NumLike>(pts: Seq<Seq<T>>) -> Seq<Seq<T>> {
    seq![
        embed_spec(pts[0], T::one_spec(), 3),
        embed_spec(pts[1], T::one_spec(), 3),
        embed_spec(pts[2], T::one_spec(), 3),
    ]
}

/// The weights that stand for "outside": -1, 1 and 1.
pub open spec fn outside_spec<T: NumLike>() -> Seq<T> {
    seq![T::from_i32_spec(-1i32), T::from_i32_spec(1i32), T::from_i32_spec(1i32)]
}

/// Whether a triangle on the screen counts as degenerate: the determinant of its
/// corner rows is below one thousandth, or zero.
pub open spec fn is_degenerate<T: NumLike>(pts: Seq<Seq<T>>) -> bool {
    det_spec(corner_rows(pts)).less_spec(ratio_spec::<T>(1, 1000)) || singular_spec(
        corner_rows(pts),
    )
}

/// The barycentric weights of `p` in the triangle `pts`: the transposed inverse of
/// the corner rows, applied to `(p.x, p.y, 1)`; for a degenerate triangle, the
/// weights that stand for "outside".
pub open spec fn barycentric_spec<T: NumLike>(pts: Seq<Seq<T>>, p: Seq<T>) -> Seq<T> {
    if is_degenerate(pts) {
        outside_spec::<T>()
    } else {
        mul_vec_spec(invert_transpose_spec(corner_rows(pts)), embed_spec(p, T::one_spec(), 3))
    }
}

/// The weights that stand for "outside".
fn outside<T: NumLike>() -> (r: Vec3<T>)
    ensures
        T::obeys_num_spec() ==> r@ == outside_spec::<T>(),
{
    let r = Vec_ { data: [T::from_i32(-1), T::from_i32(1), T::from_i32(1)] };
    assert(T::obeys_num_spec() ==> r@ =~= outside_spec::<T>());
    r
}

/// The barycentric weights of `p` in the triangle `pts`.
pub fn barycentric<T: NumLike>(pts: [Vec2<T>; 3], p: Vec2<T>) -> (r: Vec3<T>)
    requires
        usable::<T>(),
    ensures
        T::obeys_num_spec() ==> r@ == barycentric_spec(points_view(pts), p@),
{
    let one = T::one();
    let rows = vec![
        embed::<T, 3, 2>(&pts[0], one).to_vec(),
        embed::<T, 3, 2>(&pts[1], one).to_vec(),
        embed::<T, 3, 2>(&pts[2], one).to_vec(),
    ];
    let abc = Mat { M: 3, N: 3, data: rows };
    assert(T::obeys_num_spec() ==> abc@ =~~= corner_rows(points_view(pts)));
    let point = embed::<T, 3, 2>(&p, one);
    proof {
        if T::obeys_num_spec() {
            lemma_total_matrices(abc@, abc@, 3, point@, one);
            lemma_total_matrices(invert_transpose_spec(abc@), abc@, 3, point@, one);
            lemma_total_vectors(point@, point@, 3);
        }
    }
    assert(abc.wf());
    let det = match abc.det() {
        Ok(det) => det,
        Err(_) => {
            return outside();
        },
    };
    if det.less(ratio(1, 1000)) {
        return outside();
    }
    let inverse = match abc.invert_transpose() {
        Ok(inverse) => inverse,
        Err(_) => {
            return outside();
        },
    };
    let weights = match inverse.transform(&point) {
        Ok(weights) => weights,
        Err(_) => {
            return outside();
        },
    };
    match Vec_::from_vec(weights) {
        Ok(bc) => {
            assert(T::obeys_num_spec() ==> bc@ =~= barycentric_spec(points_view(pts), p@));
            bc
        },
        Err(_) => outside(),
    }
}

/// A point in clip space on the screen: x and y, each divided by w.
pub open spec fn screen_point_spec<T: NumLike>(pt: Seq<T>) -> Seq<T> {
    seq![pt[0].over_spec(pt[3]), pt[1].over_spec(pt[3])]
}

/// The three corners of a triangle in clip space on the screen.
pub open spec fn screen_points_spec<T: NumLike>(pts: Seq<Seq<T>>) -> Seq<Seq<T>> {
    Seq::new(3, |i: int| screen_point_spec(pts[i]))
}

/// Component `k` of the three corners, weighted by `bc` and added up.
pub open spec fn weighted_spec<T: NumLike>(pts: Seq<Seq<T>>, k: int, bc: Seq<T>) -> T {
    pts[0][k].times_spec(bc[0]).plus_spec(pts[1][k].times_spec(bc[1])).plus_spec(
        pts[2][k].times_spec(bc[2]),
    )
}

/// `a` kept within 0 and `DEPTH`.
pub open spec fn clamp_depth_spec<T: NumLike>(a: T) -> T {
    let top = T::from_i32_spec(DEPTH);
    let capped = if top.less_spec(a) {
        top
    } else {
        a
    };
    if capped.less_spec(T::zero_spec()) {
        T::zero_spec()
    } else {
        capped
    }
}

/// The depth of a fragment with the weights `bc`: the weighted z over the weighted w
/// of the corners in clip space, plus one half, kept within 0 and `DEPTH`.
pub open spec fn frag_depth_spec<T: NumLike>(pts: Seq<Seq<T>>, bc: Seq<T>) -> T {
    clamp_depth_spec(
        weighted_spec(pts, 2, bc).over_spec(weighted_spec(pts, 3, bc)).plus_spec(half_spec::<T>()),
    )
}

/// Whether the weights `bc` belong to a point outside the triangle: one of them is
/// below zero.
pub open spec fn is_outside_spec<T: NumLike>(bc: Seq<T>) -> bool {
    bc[0].less_spec(T::zero_spec()) || bc[1].less_spec(T::zero_spec()) || bc[2].less_spec(
        T::zero_spec(),
    )
}

/// The pixel in column `x` of row `y` as a point on the screen.
pub open spec fn pixel_spec<T: NumLike>(x: int, y: int) -> Seq<T> {
    seq![T::from_i32_spec(x as i32), T::from_i32_spec(y as i32)]
}

/// The weights of the pixel `(x, y)` in the triangle with the corners `pts` in clip
/// space.
pub open spec fn pixel_weights_spec<T: NumLike>(pts: Seq<Seq<T>>, x: int, y: int) -> Seq<T> {
    barycentric_spec(screen_points_spec(pts), pixel_spec::<T>(x, y))
}

/// The depth of the triangle at the pixel `(x, y)`.
pub open spec fn pixel_depth_spec<T: NumLike>(pts: Seq<Seq<T>>, x: int, y: int) -> T {
    frag_depth_spec(pts, pixel_weights_spec(pts, x, y))
}

/// The depth test: a fragment of depth `depth` is drawn over the stored depth
/// `stored` unless it is below it. On equal depths the later fragment wins.
pub open spec fn depth_passes<T: NumLike>(stored: T, depth: T) -> bool {
    !depth.less_spec(stored)
}

/// The depth that the buffer holds once a fragment of depth `depth` has met the
/// stored depth `stored`.
pub open spec fn stored_after<T: NumLike>(stored: T, depth: T) -> T {
    if depth_passes(stored, depth) {
        depth
    } else {
        stored
    }
}

/// Of two fragments for one pixel, the one with the greater depth stays, in whichever
/// order they come: where the fragment of depth `d1` is drawn and `d2` is above `d1`,
/// a later fragment of depth `d2` replaces it; and where the fragment of depth `d2`
/// was drawn first, the one of depth `d1` fails the test. A fragment of the depth
/// that is stored passes, so of equal depths the later one stays.
pub proof fn lemma_greater_depth_stays<T: NumLike>(stored: T, d1: T, d2: T)
    requires
        less_is_strict::<T>(),
        d1.less_spec(d2),
    ensures
        depth_passes(stored, d1) ==> stored_after(stored_after(stored, d1), d2) == d2,
        depth_passes(stored, d2) ==> stored_after(stored_after(stored, d2), d1) == d2,
        depth_passes(d1, d1),
{
}

/// A degenerate triangle is drawn nowhere, over a scalar in which -1 is below zero:
/// each pixel gets the weights that stand for "outside".
pub proof fn lemma_degenerate_draws_nothing<T: NumLike>(
    pts: Seq<Seq<T>>,
    width: int,
    height: int,
    x: int,
    y: int,
    stored: T,
)
    requires
        is_degenerate(screen_points_spec(pts)),
        T::from_i32_spec(-1i32).less_spec(T::zero_spec()),
    ensures
        !draws_at(pts, width, height, x, y, stored),
{
}

/// Whether the triangle is drawn at the pixel `(x, y)`, where the depth `stored` is
/// in the buffer: the pixel is not outside the triangle, and passes the depth test.
pub open spec fn pixel_passes<T: NumLike>(pts: Seq<Seq<T>>, x: int, y: int, stored: T) -> bool {
    !is_outside_spec(pixel_weights_spec(pts, x, y)) && depth_passes(
        stored,
        pixel_depth_spec(pts, x, y),
    )
}

/// The least of three scalars, by pairwise comparison from the left.
pub open spec fn least_spec<T: NumLike>(a: T, b: T, c: T) -> T {
    let m = if a.less_spec(b) {
        a
    } else {
        b
    };
    if m.less_spec(c) {
        m
    } else {
        c
    }
}

/// The greatest of three scalars, by pairwise comparison from the left.
pub open spec fn greatest_spec<T: NumLike>(a: T, b: T, c: T) -> T {
    let m = if b.less_spec(a) {
        a
    } else {
        b
    };
    if c.less_spec(m) {
        m
    } else {
        c
    }
}

/// The range of pixel indices, along one axis of a frame of `size` pixels, that the
/// bounding box of three screen coordinates covers: from the least coordinate to the
/// greatest, fractions cut off, and no further than the frame.
pub open spec fn span_spec<T: NumLike>(a: T, b: T, c: T, size: int) -> (int, int) {
    let low = least_spec(a, b, c).to_i32_spec() as int;
    let high = greatest_spec(a, b, c).to_i32_spec() as int;
    (
        if low < 0 {
            0
        } else {
            low
        },
        if high > size - 1 {
            size - 1
        } else {
            high
        },
    )
}

/// Whether the pixel `(x, y)` lies in the bounding box of the triangle with the
/// corners `pts` in clip space, within a frame of the given size.
pub open spec fn in_box_spec<T: NumLike>(pts: Seq<Seq<T>>, width: int, height: int, x: int, y: int) -> bool {
    let s = screen_points_spec(pts);
    let (x_lo, x_hi) = span_spec(s[0][0], s[1][0], s[2][0], width);
    let (y_lo, y_hi) = span_spec(s[0][1], s[1][1], s[2][1], height);
    x_lo <= x <= x_hi && y_lo <= y <= y_hi
}

/// Whether the triangle with the corners `pts` in clip space is drawn at the pixel
/// `(x, y)`, where the depth `stored` is in the buffer.
pub open spec fn draws_at<T: NumLike>(pts: Seq<Seq<T>>, width: int, height: int, x: int, y: int, stored: T) -> bool {
    in_box_spec(pts, width, height, x, y) && pixel_passes(pts, x, y, stored)
}

/// What the shader returns for the fragment of the triangle with the corners `pts`
/// in clip space at the pixel `(x, y)`.
pub open spec fn shaded_spec<T: NumLike, S: IShader<T>>(shader: S, pts: Seq<Seq<T>>, x: int, y: int) -> Result<
    Option<Color>,
    RenderError,
> {
    shader.fragment_spec(pixel_weights_spec(pts, x, y))
}

/// Whether the triangle with the corners `pts` in clip space changes the pixel
/// `(x, y)`, where the depth `stored` is in the buffer: it is drawn there, and the
/// shader returns a color.
pub open spec fn paints_at<T: NumLike, S: IShader<T>>(
    shader: S,
    pts: Seq<Seq<T>>,
    width: int,
    height: int,
    x: int,
    y: int,
    stored: T,
) -> bool {
    draws_at(pts, width, height, x, y, stored) && shaded_spec(shader, pts, x, y) matches Ok(
        Some(_),
    )
}

/// Whether the loops over the bounding box reach the pixel `(a, b)`, given enough
/// columns: it lies in a column from `x_lo` on and in a row from `y_lo` to `y_hi`.
pub open spec fn reached(x_lo: int, y_lo: int, y_hi: int, a: int, b: int) -> bool {
    x_lo <= a && y_lo <= b <= y_hi
}

/// The range of pixel indices that the bounding box of three screen coordinates
/// covers along one axis of a frame of `size` pixels.
fn span<T: NumLike>(a: T, b: T, c: T, size: u32) -> (r: (i64, i64))
    requires
        usable::<T>(),
    ensures
        T::obeys_num_spec() ==> (r.0 as int, r.1 as int) == span_spec(a, b, c, size as int),
        0 <= r.0,
        r.1 < size,
        r.1 <= i32::MAX,
{
    let low = minf(minf(a, b), c).to_i32() as i64;
    let high = maxf(maxf(a, b), c).to_i32() as i64;
    (
        if low < 0 {
            0
        } else {
            low
        },
        if high > size as i64 - 1 {
            size as i64 - 1
        } else {
            high
        },
    )
}

/// Whether a fragment with the weights `bc` and the depth `depth` is drawn where the
/// depth `stored` is in the buffer.
pub fn fragment_visible<T: NumLike>(bc: &Vec3<T>, depth: T, stored: T) -> (r: bool)
    ensures
        T::obeys_num_spec() ==> r == (!is_outside_spec(bc@) && depth_passes(stored, depth)),
{
    let zero = T::zero();
    !(bc.data[0].less(zero) || bc.data[1].less(zero) || bc.data[2].less(zero) || depth.less(stored))
}

/// Draws what the shader returned for the pixel `(x, y)`: a color goes to the canvas
/// and `depth` to the depth buffer; a discarded fragment changes nothing.
pub fn store_fragment<T: NumLike>(
    img: &mut Canvas,
    zbuf: &mut DepthBuffer<T>,
    x: u32,
    y: u32,
    depth: T,
    shaded: Option<Color>,
)
    requires
        old(zbuf).wf(),
        old(img).contains(x as int, y as int),
        old(zbuf).contains(x as int, y as int),
    ensures
        final(zbuf).wf(),
        final(img).spec_width() == old(img).spec_width(),
        final(img).spec_height() == old(img).spec_height(),
        final(zbuf).spec_width() == old(zbuf).spec_width(),
        final(zbuf).spec_height() == old(zbuf).spec_height(),
        shaded is None ==> final(img).pixels() == old(img).pixels() && final(zbuf).same_depths(
            old(zbuf),
        ),
        shaded matches Some(color) ==> final(img).pixels() == old(img).pixels().insert(
            (x as int, y as int),
            color,
        ) && forall|a: int, b: int|
            old(zbuf).contains(a, b) ==> (#[trigger] final(zbuf).depth_at(a, b)) == (if a == x && b
                == y {
                depth
            } else {
                old(zbuf).depth_at(a, b)
            }),
        forall|a: int, b: int|
            old(zbuf).contains(a, b) ==> (#[trigger] final(zbuf).depth_at(a, b)) == (if shaded
                is Some && a == x && b == y {
                depth
            } else {
                old(zbuf).depth_at(a, b)
            }),
        forall|a: int, b: int|
            (#[trigger] final(img).color_at(a, b)) == (if shaded is Some && a == x && b == y {
                shaded->0
            } else {
                old(img).color_at(a, b)
            }),
{
    match shaded {
        Some(color) => {
            let _ = zbuf.set(x, y, depth);
            let _ = img.put(x, y, color);
        },
        None => {},
    }
}

impl<T: NumLike> GL<T> {
    /// Whether the three transforms are matrices of four rows and four columns.
    pub open spec fn wf(&self) -> bool {
        &&& self.model_view.wf() && self.model_view.M == 4 && self.model_view.N == 4
        &&& self.projection.wf() && self.projection.M == 4 && self.projection.N == 4
        &&& self.viewport.wf() && self.viewport.M == 4 && self.viewport.N == 4
    }

    /// The state of a render with the light `light_dir` and a frame of `w` by `h`
    /// pixels; the three transforms are the identity.
    pub fn new(light_dir: Vec3<T>, w: u32, h: u32) -> (r: Self)
        ensures
            r.wf(),
            r.light_dir == light_dir,
            r.width == w,
            r.height == h,
            T::obeys_num_spec() ==> r.model_view@ == identity_spec::<T>(4) && r.projection@
                == identity_spec::<T>(4) && r.viewport@ == identity_spec::<T>(4),
    {
        GL {
            model_view: Mat::identity(4),
            projection: Mat::identity(4),
            viewport: Mat::identity(4),
            light_dir,
            width: w,
            height: h,
        }
    }

    /// Makes the view transform that of a camera at `eye` that looks at `center`, with
    /// `up` upward. Where the camera has no basis, the state stays as it is.
    pub fn lookat(&mut self, eye: Vec3<T>, center: Vec3<T>, up: Vec3<T>) -> (r: Result<
        (),
        RenderError,
    >)
        requires
            old(self).wf(),
            usable::<T>(),
        ensures
            final(self).wf(),
            final(self).projection == old(self).projection,
            final(self).viewport == old(self).viewport,
            final(self).light_dir == old(self).light_dir,
            final(self).width == old(self).width,
            final(self).height == old(self).height,
            r matches Err(e) ==> e == RenderError::ZeroNorm && final(self).model_view == old(self).model_view,
            T::obeys_num_spec() ==> (r is Err <==> lookat_fails(eye@, center@, up@)),
            T::obeys_num_spec() && r is Ok ==> final(self).model_view@ == lookat_spec(
                eye@,
                center@,
                up@,
            ),
    {
        match lookat(eye, center, up) {
            Ok(m) => {
                self.model_view = m;
                Ok(())
            },
            Err(e) => Err(e),
        }
    }

    /// Sets the one coefficient of the projection that makes the perspective: the
    /// entry in row 3 and column 2, which by convention is -1 over the distance of
    /// the camera.
    pub fn projection(&mut self, coeff: T)
        requires
            old(self).wf(),
        ensures
            final(self).wf(),
            final(self).model_view == old(self).model_view,
            final(self).viewport == old(self).viewport,
            final(self).light_dir == old(self).light_dir,
            final(self).width == old(self).width,
            final(self).height == old(self).height,
            final(self).projection@ == old(self).projection@.update(
                3,
                old(self).projection@[3].update(2, coeff),
            ),
    {
        let _ = self.projection.set(3, 2, coeff);
    }

    /// Makes the viewport transform that of the box of pixels at `(x, y)` of size
    /// `(w, h)`.
    pub fn viewport(&mut self, x: i32, y: i32, w: i32, h: i32)
        requires
            old(self).wf(),
            usable::<T>(),
        ensures
            final(self).wf(),
            final(self).model_view == old(self).model_view,
            final(self).projection == old(self).projection,
            final(self).light_dir == old(self).light_dir,
            final(self).width == old(self).width,
            final(self).height == old(self).height,
            T::obeys_num_spec() ==> final(self).viewport@ == viewport_spec::<T>(x, y, w, h),
    {
        self.viewport = viewport(x, y, w, h);
    }

    /// The composite transform: viewport times projection times view.
    pub open spec fn composite_spec(&self) -> Seq<Seq<T>> {
        mul_spec(mul_spec(self.viewport@, self.projection@, 4), self.model_view@, 4)
    }

    /// The point `v` of object space in clip space: the composite transform applied
    /// to `(v.x, v.y, v.z, 1)`.
    pub open spec fn clip_spec(&self, v: Seq<T>) -> Seq<T> {
        mul_vec_spec(self.composite_spec(), embed_spec(v, T::one_spec(), 4))
    }

    /// The composite transform: viewport times projection times view.
    pub fn composite(&self) -> (r: Mat<T>)
        requires
            self.wf(),
            usable::<T>(),
        ensures
            r.wf(),
            r.M == 4,
            r.N == 4,
            T::obeys_num_spec() ==> r@ == self.composite_spec(),
    {
        proof {
            if T::obeys_num_spec() {
                let one = T::one_spec();
                lemma_total_matrices(self.viewport@, self.projection@, 4, seq![one], one);
                lemma_total_matrices(
                    mul_spec(self.viewport@, self.projection@, 4),
                    self.model_view@,
                    4,
                    seq![one],
                    one,
                );
            }
        }
        let vp = match self.viewport.mul_mat(&self.projection) {
            Ok(vp) => vp,
            Err(_) => Mat::identity(4),
        };
        match vp.mul_mat(&self.model_view) {
            Ok(m) => m,
            Err(_) => Mat::identity(4),
        }
    }

    /// The point `v` of object space in clip space.
    pub fn to_clip(&self, v: &Vec3<T>) -> (r: Vec4<T>)
        requires
            self.wf(),
            usable::<T>(),
        ensures
            T::obeys_num_spec() ==> r@ == self.clip_spec(v@),
    {
        let m = self.composite();
        let point = embed::<T, 4, 3>(v, T::one());
        proof {
            if T::obeys_num_spec() {
                lemma_total_matrices(m@, m@, 4, point@, T::one_spec());
            }
        }
        let clip = match m.transform(&point) {
            Ok(clip) => clip,
            Err(_) => {
                return point;
            },
        };
        match Vec_::from_vec(clip) {
            Ok(r) => {
                assert(T::obeys_num_spec() ==> r@ =~= self.clip_spec(v@));
                r
            },
            Err(_) => point,
        }
    }

    /// Fills the triangle with the corners `pts` in clip space. Each pixel of its
    /// bounding box within the frame that is not outside the triangle and passes the
    /// depth test is handed to the shader; the color that comes back is drawn and the
    /// depth of the fragment stored, unless the shader discards the fragment. The
    /// canvas and the depth buffer must have the same size. An error of the shader
    /// ends the call; where the triangle is drawn at no pixel, no shader is asked and
    /// the call succeeds.
    pub fn triangle<S: IShader<T>>(
        &self,
        pts: [Vec4<T>; 3],
        shader: &mut S,
        img: &mut Canvas,
        zbuf: &mut DepthBuffer<T>,
    ) -> (r: Result<(), RenderError>)
        requires
            old(zbuf).wf(),
            old(shader).shader_req(),
            usable::<T>(),
        ensures
            final(zbuf).wf(),
            final(shader).shader_req(),
            forall|f: usize, n: usize| old(shader).has_vertex(f, n) == final(shader).has_vertex(f, n),
            final(img).spec_width() == old(img).spec_width(),
            final(img).spec_height() == old(img).spec_height(),
            final(zbuf).spec_width() == old(zbuf).spec_width(),
            final(zbuf).spec_height() == old(zbuf).spec_height(),
            old(img).spec_width() != old(zbuf).spec_width() || old(img).spec_height() != old(zbuf).spec_height() ==> r == Err::<(), RenderError>(RenderError::DimensionMismatch)
                && final(img).pixels() == old(img).pixels() && final(zbuf).same_depths(old(zbuf)),
            T::obeys_num_spec() && old(img).spec_width() == old(zbuf).spec_width() && old(img).spec_height() == old(zbuf).spec_height() && (forall|x: int, y: int|
                old(img).contains(x, y) ==> !#[trigger] draws_at(
                    points_view(pts),
                    old(img).spec_width(),
                    old(img).spec_height(),
                    x,
                    y,
                    old(zbuf).depth_at(x, y),
                )) ==> r is Ok,
            S::obeys_shader_spec() && T::obeys_num_spec() ==> *final(shader) == *old(shader),
            S::obeys_shader_spec() && T::obeys_num_spec() && old(img).spec_width() == old(zbuf).spec_width() && old(img).spec_height() == old(zbuf).spec_height() ==> (r is Ok
                <==> forall|x: int, y: int|
                old(img).contains(x, y) && draws_at(
                    points_view(pts),
                    old(img).spec_width(),
                    old(img).spec_height(),
                    x,
                    y,
                    old(zbuf).depth_at(x, y),
                ) ==> #[trigger] shaded_spec(*old(shader), points_view(pts), x, y) is Ok),
            S::obeys_shader_spec() && T::obeys_num_spec() && old(img).spec_width() == old(zbuf).spec_width() && old(img).spec_height() == old(zbuf).spec_height() ==> (r matches Err(e)
                ==> exists|x: int, y: int|
                old(img).contains(x, y) && #[trigger] shaded_spec(*old(shader), points_view(pts), x, y)
                    == Err::<Option<Color>, RenderError>(e)),
            S::obeys_shader_spec() && T::obeys_num_spec() && r is Ok ==> forall|x: int, y: int|
                old(img).contains(x, y) ==> (#[trigger] final(zbuf).depth_at(x, y)) == (if paints_at(
                    *old(shader),
                    points_view(pts),
                    old(img).spec_width(),
                    old(img).spec_height(),
                    x,
                    y,
                    old(zbuf).depth_at(x, y),
                ) {
                    pixel_depth_spec(points_view(pts), x, y)
                } else {
                    old(zbuf).depth_at(x, y)
                }),
            S::obeys_shader_spec() && T::obeys_num_spec() && r is Ok ==> forall|x: int, y: int|
                old(img).contains(x, y) ==> (#[trigger] final(img).color_at(x, y)) == (if paints_at(
                    *old(shader),
                    points_view(pts),
                    old(img).spec_width(),
                    old(img).spec_height(),
                    x,
                    y,
                    old(zbuf).depth_at(x, y),
                ) {
                    shaded_spec(*old(shader), points_view(pts), x, y)->Ok_0->0
                } else {
                    old(img).color_at(x, y)
                }),
            T::obeys_num_spec() && r is Ok ==> forall|x: int, y: int|
                old(img).contains(x, y) ==> (if draws_at(
                    points_view(pts),
                    old(img).spec_width(),
                    old(img).spec_height(),
                    x,
                    y,
                    old(zbuf).depth_at(x, y),
                ) {
                    (#[trigger] final(zbuf).depth_at(x, y)) == pixel_depth_spec(points_view(pts), x, y)
                        || (final(zbuf).depth_at(x, y) == old(zbuf).depth_at(x, y) && final(img).color_at(x, y) == old(img).color_at(x, y))
                } else {
                    final(zbuf).depth_at(x, y) == old(zbuf).depth_at(x, y) && final(img).color_at(
                        x,
                        y,
                    ) == old(img).color_at(x, y)
                }),
    {
        let width = img.width();
        let height = img.height();
        if width != zbuf.width() || height != zbuf.height() {
            return Err(RenderError::DimensionMismatch);
        }
        let s0 = Vec_ { data: [pts[0].data[0].over(pts[0].data[3]), pts[0].data[1].over(pts[0].data[3])] };
        let s1 = Vec_ { data: [pts[1].data[0].over(pts[1].data[3]), pts[1].data[1].over(pts[1].data[3])] };
        let s2 = Vec_ { data: [pts[2].data[0].over(pts[2].data[3]), pts[2].data[1].over(pts[2].data[3])] };
        let pts2 = [s0, s1, s2];
        assert(T::obeys_num_spec() ==> points_view(pts2) =~~= screen_points_spec(points_view(pts)));
        let (x_lo, x_hi) = span(s0.data[0], s1.data[0], s2.data[0], width);
        let (y_lo, y_hi) = span(s0.data[1], s1.data[1], s2.data[1], height);
        let ghost clip = points_view(pts);
        proof {
            if T::obeys_num_spec() {
                let sx = screen_points_spec(clip);
                assert(points_view(pts2)[0] == s0@ && points_view(pts2)[1] == s1@ && points_view(
                    pts2,
                )[2] == s2@);
                assert(sx[0] == s0@ && sx[1] == s1@ && sx[2] == s2@);
                assert forall|a: int, b: int| #[trigger]
                    in_box_spec(clip, width as int, height as int, a, b) == (a <= x_hi && reached(
                        x_lo as int,
                        y_lo as int,
                        y_hi as int,
                        a,
                        b,
                    )) by {}
            }
        }
        let mut x = x_lo;
        while x <= x_hi
            invariant
                0 <= x_lo <= x,
                x <= x_hi + 1 || x == x_lo,
                x_hi < width,
                x_hi <= i32::MAX,
                0 <= y_lo,
                y_hi < height,
                y_hi <= i32::MAX,
                clip == points_view(pts),
                usable::<T>(),
                T::obeys_num_spec() ==> points_view(pts2) == screen_points_spec(clip),
                T::obeys_num_spec() ==> (x_lo as int, x_hi as int) == span_spec(
                    screen_points_spec(clip)[0][0],
                    screen_points_spec(clip)[1][0],
                    screen_points_spec(clip)[2][0],
                    width as int,
                ),
                T::obeys_num_spec() ==> (y_lo as int, y_hi as int) == span_spec(
                    screen_points_spec(clip)[0][1],
                    screen_points_spec(clip)[1][1],
                    screen_points_spec(clip)[2][1],
                    height as int,
                ),
                zbuf.wf(),
                shader.shader_req(),
                forall|f: usize, n: usize| old(shader).has_vertex(f, n) == shader.has_vertex(f, n),
                width == old(img).spec_width(),
                height == old(img).spec_height(),
                img.spec_width() == width,
                img.spec_height() == height,
                zbuf.spec_width() == width,
                zbuf.spec_height() == height,
                old(zbuf).spec_width() == width,
                old(zbuf).spec_height() == height,
                T::obeys_num_spec() ==> forall|a: int, b: int|
                    #[trigger] in_box_spec(clip, width as int, height as int, a, b) == (a <= x_hi
                        && reached(x_lo as int, y_lo as int, y_hi as int, a, b)),
                S::obeys_shader_spec() && T::obeys_num_spec() ==> *shader == *old(shader),
                S::obeys_shader_spec() && T::obeys_num_spec() ==> forall|a: int, b: int|
                    old(img).contains(a, b) ==> (#[trigger] zbuf.depth_at(a, b)) == (if a < x
                        && reached(x_lo as int, y_lo as int, y_hi as int, a, b) && pixel_passes(
                        clip,
                        a,
                        b,
                        old(zbuf).depth_at(a, b),
                    ) && shaded_spec(*old(shader), clip, a, b) matches Ok(Some(_)) {
                        pixel_depth_spec(clip, a, b)
                    } else {
                        old(zbuf).depth_at(a, b)
                    }),
                S::obeys_shader_spec() && T::obeys_num_spec() ==> forall|a: int, b: int|
                    old(img).contains(a, b) ==> (#[trigger] img.color_at(a, b)) == (if a < x
                        && reached(x_lo as int, y_lo as int, y_hi as int, a, b) && pixel_passes(
                        clip,
                        a,
                        b,
                        old(zbuf).depth_at(a, b),
                    ) && shaded_spec(*old(shader), clip, a, b) matches Ok(Some(_)) {
                        shaded_spec(*old(shader), clip, a, b)->Ok_0->0
                    } else {
                        old(img).color_at(a, b)
                    }),
                S::obeys_shader_spec() && T::obeys_num_spec() ==> forall|a: int, b: int|
                    old(img).contains(a, b) && a < x && reached(
                        x_lo as int,
                        y_lo as int,
                        y_hi as int,
                        a,
                        b,
                    ) && pixel_passes(clip, a, b, old(zbuf).depth_at(a, b)) ==> #[trigger] shaded_spec(
                        *old(shader),
                        clip,
                        a,
                        b,
                    ) is Ok,
                T::obeys_num_spec() ==> forall|a: int, b: int|
                    old(img).contains(a, b) ==> (if a < x && x_lo <= a && y_lo <= b <= y_hi
                        && pixel_passes(clip, a, b, old(zbuf).depth_at(a, b)) {
                        (#[trigger] zbuf.depth_at(a, b)) == pixel_depth_spec(clip, a, b) || (
                        zbuf.depth_at(a, b) == old(zbuf).depth_at(a, b) && img.color_at(a, b)
                            == old(img).color_at(a, b))
                    } else {
                        zbuf.depth_at(a, b) == old(zbuf).depth_at(a, b) && img.color_at(a, b)
                            == old(img).color_at(a, b)
                    }),
            decreases x_hi + 1 - x,
        {
            let mut y = y_lo;
            while y <= y_hi
                invariant
                    0 <= x_lo <= x <= x_hi,
                    x_hi < width,
                    x_hi <= i32::MAX,
                    0 <= y_lo <= y,
                    y <= y_hi + 1 || y == y_lo,
                    y_hi < height,
                    y_hi <= i32::MAX,
                    clip == points_view(pts),
                    usable::<T>(),
                    T::obeys_num_spec() ==> points_view(pts2) == screen_points_spec(clip),
                    zbuf.wf(),
                    shader.shader_req(),
                    forall|f: usize, n: usize|
                        old(shader).has_vertex(f, n) == shader.has_vertex(f, n),
                    width == old(img).spec_width(),
                    height == old(img).spec_height(),
                    img.spec_width() == width,
                    img.spec_height() == height,
                    zbuf.spec_width() == width,
                    zbuf.spec_height() == height,
                    old(zbuf).spec_width() == width,
                    old(zbuf).spec_height() == height,
                    T::obeys_num_spec() ==> forall|a: int, b: int|
                        #[trigger] in_box_spec(clip, width as int, height as int, a, b) == (a
                            <= x_hi && reached(x_lo as int, y_lo as int, y_hi as int, a, b)),
                    S::obeys_shader_spec() && T::obeys_num_spec() ==> *shader == *old(shader),
                    S::obeys_shader_spec() && T::obeys_num_spec() ==> forall|a: int, b: int|
                        old(img).contains(a, b) ==> (#[trigger] zbuf.depth_at(a, b)) == (if (a < x
                            || (a == x && b < y)) && reached(
                            x_lo as int,
                            y_lo as int,
                            y_hi as int,
                            a,
                            b,
                        ) && pixel_passes(clip, a, b, old(zbuf).depth_at(a, b)) && shaded_spec(
                            *old(shader),
                            clip,
                            a,
                            b,
                        ) matches Ok(Some(_)) {
                            pixel_depth_spec(clip, a, b)
                        } else {
                            old(zbuf).depth_at(a, b)
                        }),
                    S::obeys_shader_spec() && T::obeys_num_spec() ==> forall|a: int, b: int|
                        old(img).contains(a, b) ==> (#[trigger] img.color_at(a, b)) == (if (a < x
                            || (a == x && b < y)) && reached(
                            x_lo as int,
                            y_lo as int,
                            y_hi as int,
                            a,
                            b,
                        ) && pixel_passes(clip, a, b, old(zbuf).depth_at(a, b)) && shaded_spec(
                            *old(shader),
                            clip,
                            a,
                            b,
                        ) matches Ok(Some(_)) {
                            shaded_spec(*old(shader), clip, a, b)->Ok_0->0
                        } else {
                            old(img).color_at(a, b)
                        }),
                    S::obeys_shader_spec() && T::obeys_num_spec() ==> forall|a: int, b: int|
                        old(img).contains(a, b) && (a < x || (a == x && b < y)) && reached(
                            x_lo as int,
                            y_lo as int,
                            y_hi as int,
                            a,
                            b,
                        ) && pixel_passes(clip, a, b, old(zbuf).depth_at(a, b))
                            ==> #[trigger] shaded_spec(*old(shader), clip, a, b) is Ok,
                    T::obeys_num_spec() ==> forall|a: int, b: int|
                        old(img).contains(a, b) ==> (if (a < x || (a == x && b < y)) && x_lo <= a
                            && y_lo <= b <= y_hi && pixel_passes(
                            clip,
                            a,
                            b,
                            old(zbuf).depth_at(a, b),
                        ) {
                            (#[trigger] zbuf.depth_at(a, b)) == pixel_depth_spec(clip, a, b) || (
                            zbuf.depth_at(a, b) == old(zbuf).depth_at(a, b) && img.color_at(a, b)
                                == old(img).color_at(a, b))
                        } else {
                            zbuf.depth_at(a, b) == old(zbuf).depth_at(a, b) && img.color_at(a, b)
                                == old(img).color_at(a, b)
                        }),
                decreases y_hi + 1 - y,
            {
                let p = Vec_ { data: [T::from_i32(x as i32), T::from_i32(y as i32)] };
                assert(T::obeys_num_spec() ==> p@ =~= pixel_spec::<T>(x as int, y as int));
                let bc = barycentric(pts2, p);
                let z = weighted(&pts, 2, &bc);
                let w = weighted(&pts, 3, &bc);
                let depth = clamp_depth(z.over(w).plus(ratio(1, 2)));
                let stored = match zbuf.get(x as u32, y as u32) {
                    Ok(stored) => stored,
                    Err(e) => {
                        return Err(e);
                    },
                };
                assert(T::obeys_num_spec() ==> stored == old(zbuf).depth_at(x as int, y as int));
                assert(T::obeys_num_spec() ==> bc@ == pixel_weights_spec(clip, x as int, y as int));
                assert(T::obeys_num_spec() ==> depth == pixel_depth_spec(clip, x as int, y as int));
                if fragment_visible(&bc, depth, stored) {
                    assert(T::obeys_num_spec() ==> pixel_passes(
                        clip,
                        x as int,
                        y as int,
                        old(zbuf).depth_at(x as int, y as int),
                    ));
                    let answer = shader.fragment(bc, Vec_::zero());
                    assert(S::obeys_shader_spec() && T::obeys_num_spec() ==> answer == shaded_spec(
                        *old(shader),
                        clip,
                        x as int,
                        y as int,
                    ));
                    let shaded = match answer {
                        Ok(shaded) => shaded,
                        Err(e) => {
                            proof {
                                if T::obeys_num_spec() {
                                    assert(old(img).contains(x as int, y as int) && draws_at(
                                        clip,
                                        width as int,
                                        height as int,
                                        x as int,
                                        y as int,
                                        old(zbuf).depth_at(x as int, y as int),
                                    ));
                                }
                                if S::obeys_shader_spec() && T::obeys_num_spec() {
                                    assert(old(img).contains(x as int, y as int) && draws_at(
                                        clip,
                                        width as int,
                                        height as int,
                                        x as int,
                                        y as int,
                                        old(zbuf).depth_at(x as int, y as int),
                                    ) && !(shaded_spec(*old(shader), clip, x as int, y as int)
                                        is Ok));
                                    assert(shaded_spec(*old(shader), clip, x as int, y as int)
                                        == Err::<Option<Color>, RenderError>(e));
                                }
                            }
                            return Err(e);
                        },
                    };
                    let ghost img_before = *img;
                    let ghost zbuf_before = *zbuf;
                    store_fragment(img, zbuf, x as u32, y as u32, depth, shaded);
                    proof {
                        if T::obeys_num_spec() {
                            assert forall|a: int, b: int| old(img).contains(a, b) implies (if (a < x
                                || (a == x && b < y + 1)) && x_lo <= a && y_lo <= b <= y_hi
                                && pixel_passes(clip, a, b, old(zbuf).depth_at(a, b)) {
                                (#[trigger] zbuf.depth_at(a, b)) == pixel_depth_spec(clip, a, b) || (
                                zbuf.depth_at(a, b) == old(zbuf).depth_at(a, b) && img.color_at(
                                    a,
                                    b,
                                ) == old(img).color_at(a, b))
                            } else {
                                zbuf.depth_at(a, b) == old(zbuf).depth_at(a, b) && img.color_at(
                                    a,
                                    b,
                                ) == old(img).color_at(a, b)
                            }) by {
                                assert(img.color_at(a, b) == (if a == x && b == y
                                    && shaded is Some {
                                    shaded->0
                                } else {
                                    img_before.color_at(a, b)
                                }));
                                assert(zbuf_before.contains(a, b));
                                assert(zbuf.depth_at(a, b) == (if a == x && b == y
                                    && shaded is Some {
                                    depth
                                } else {
                                    zbuf_before.depth_at(a, b)
                                }));
                                if a == x && b == y {
                                } else {
                                    assert(zbuf_before.depth_at(a, b) == old(zbuf).depth_at(a, b)
                                        || zbuf_before.depth_at(a, b) == pixel_depth_spec(
                                        clip,
                                        a,
                                        b,
                                    ));
                                }
                            }
                        }
                    }
                } else {
                    assert(T::obeys_num_spec() ==> !pixel_passes(
                        clip,
                        x as int,
                        y as int,
                        old(zbuf).depth_at(x as int, y as int),
                    ));
                }
                y += 1;
            }
            x += 1;
        }
        proof {
            if T::obeys_num_spec() {
                assert forall|a: int, b: int| old(img).contains(a, b) implies (if draws_at(
                    clip,
                    width as int,
                    height as int,
                    a,
                    b,
                    old(zbuf).depth_at(a, b),
                ) {
                    (#[trigger] zbuf.depth_at(a, b)) == pixel_depth_spec(clip, a, b) || (
                    zbuf.depth_at(a, b) == old(zbuf).depth_at(a, b) && img.color_at(a, b) == old(img).color_at(a, b))
                } else {
                    zbuf.depth_at(a, b) == old(zbuf).depth_at(a, b) && img.color_at(a, b) == old(img).color_at(a, b)
                }) by {
                    assert(in_box_spec(clip, width as int, height as int, a, b) == (x_lo <= a
                        <= x_hi && y_lo <= b <= y_hi));
                }
            }
        }
        Ok(())
    }
}

/// Component `k` of the three corners, weighted by `bc` and added up.
fn weighted<T: NumLike>(pts: &[Vec4<T>; 3], k: usize, bc: &Vec3<T>) -> (r: T)
    requires
        k < 4,
        usable::<T>(),
    ensures
        T::obeys_num_spec() ==> r == weighted_spec(points_view(*pts), k as int, bc@),
{
    pts[0].data[k].times(bc.data[0]).plus(pts[1].data[k].times(bc.data[1])).plus(
        pts[2].data[k].times(bc.data[2]),
    )
}

/// `a` kept within 0 and `DEPTH`.
fn clamp_depth<T: NumLike>(a: T) -> (r: T)
    ensures
        T::obeys_num_spec() ==> r == clamp_depth_spec(a),
{
    maxf(T::zero(), minf(T::from_i32(DEPTH), a))
}

} // verus!
