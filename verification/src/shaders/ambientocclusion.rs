//! Ambient occlusion in screen space, in two passes: the depths of the mesh as the
//! camera sees it, then for each pixel how much of the sky the depths around it
//! leave open.
use crate::error::RenderError;
use crate::camera::gray_spec;
use crate::framebuffer::{in_bounds, Canvas, Color, DepthBuffer};
use crate::geometry::{
    lemma_total_vectors, minus_spec_all, norm_spec, over_spec_all, plus_spec_all, points_view,
    repeat, times_spec_all, Vec2, Vec3, Vec4, Vec_,
};
use crate::gl::{draws_at, paints_at, pixel_depth_spec, IShader, GL};
use crate::matrix::Mat;
use crate::model::Model;
use crate::shaders::shadowmapping::on_screen;
use crate::shaders::{
    blank_frame, face_clip_spec, far_spec, is_varying, scene, scene_composite_spec,
    scene_fails_spec, set_varying, vec3, vec3_spec, HEIGHT, WIDTH,
};
use crate::util::{
    maxf, maxf_spec, ratio, ratio_spec, to_channel, usable, FloatLike, NumLike, RgbaImageExt,
};
use vstd::prelude::*;

verus! {

/// The shader of the first pass: it keeps the three corners of the face on the
/// screen, and draws black.
pub struct ZShader<'a, T: NumLike> {
    pub gl: &'a GL<T>,
    /// Four rows and three columns: each corner on the screen.
    pub varying_tri: Mat<T>,
    pub model: &'a Model<T>,
}

/// The number of steps that a ray is followed.
pub const RAY_STEPS: i32 = 1000;

/// The number of rays that are sent out from a pixel, evenly spaced around it.
pub const RAYS: u32 = 8;

impl<'a, T: NumLike> ZShader<'a, T> {
    /// The shader for the mesh `model` in the scene `gl`, with no varyings yet.
    pub fn new(gl: &'a GL<T>, model: &'a Model<T>) -> (r: Self)
        ensures
            r.gl == gl,
            r.model == model,
            is_varying(r.varying_tri, 4),
    {
        ZShader { gl, varying_tri: Mat::new(4, 3), model }
    }

    /// The corner `nthvert` of the face as it was kept: on the screen.
    pub fn corner(&self, nthvert: usize) -> (r: Vec4<T>)
        requires
            is_varying(self.varying_tri, 4),
            nthvert < 3,
        ensures
            r@ == crate::matrix::column_spec(self.varying_tri@, nthvert as int),
    {
        let column = match self.varying_tri.col(nthvert) {
            Ok(column) => column,
            Err(_) => vstd::pervasive::unreached(),
        };
        match Vec_::from_vec(column) {
            Ok(r) => {
                assert(r@ =~= crate::matrix::column_spec(self.varying_tri@, nthvert as int));
                r
            },
            Err(_) => vstd::pervasive::unreached(),
        }
    }
}

impl<'a, T: NumLike> IShader<T> for ZShader<'a, T> {
    open spec fn shader_req(&self) -> bool {
        &&& self.gl.wf()
        &&& self.model.wf()
        &&& is_varying(self.varying_tri, 4)
        &&& usable::<T>()
    }

    open spec fn has_vertex(&self, iface: usize, nthvert: usize) -> bool {
        nthvert < 3 && self.model.has_corner(iface, nthvert)
    }

    open spec fn obeys_shader_spec() -> bool {
        true
    }

    /// Opaque black.
    open spec fn fragment_spec(&self, bc: Seq<T>) -> Result<Option<Color>, RenderError> {
        Ok(Some([0u8, 0u8, 0u8, 255u8]))
    }

    /// Keeps the corner on the screen and returns it in clip space.
    fn vertex(&mut self, iface: usize, nthvert: usize) -> (r: Result<Vec4<T>, RenderError>)
        ensures
            final(self).gl == old(self).gl,
            final(self).model == old(self).model,
            r is Ok <==> old(self).has_vertex(iface, nthvert),
            r matches Err(e) ==> e == RenderError::DimensionMismatch && *final(self) == *old(self),
            T::obeys_num_spec() ==> (r matches Ok(p) ==> ({
                let corner = old(self).model.corner(iface, nthvert);
                &&& p@ == old(self).gl.clip_spec(old(self).model.verts@[corner[0] as int]@)
                &&& final(self).varying_tri@ == crate::matrix::with_column_spec(
                    old(self).varying_tri@,
                    nthvert as int,
                    over_spec_all(p@, repeat(p@[3], 4)),
                )
            })),
    {
        if nthvert >= 3 {
            return Err(RenderError::DimensionMismatch);
        }
        let position = match self.model.vert_by(iface, nthvert) {
            Ok(v) => v,
            Err(e) => {
                return Err(e);
            },
        };
        let clip = self.gl.to_clip(&position);
        set_varying(&mut self.varying_tri, nthvert, &on_screen(&clip));
        Ok(clip)
    }

    /// The color of the fragment: opaque black.
    fn fragment(&mut self, bc: Vec3<T>, gl_fragcoord: Vec3<T>) -> (r: Result<
        Option<Color>,
        RenderError,
    >)
        ensures
            *final(self) == *old(self),
            r == Ok::<Option<Color>, RenderError>(Some([0u8, 0u8, 0u8, 255u8])),
    {
        Ok(Some([0, 0, 0, 255]))
    }
}

/// Whether the point `at` lies in a frame of the given size: neither coordinate is
/// below zero, and neither reaches the size.
pub open spec fn in_frame_spec<T: NumLike>(at: Seq<T>, width: int, height: int) -> bool {
    let w = T::from_i32_spec(width as i32);
    let h = T::from_i32_spec(height as i32);
    !(w.less_spec(at[0]) || w.equals_spec(at[0]) || h.less_spec(at[1]) || h.equals_spec(at[1])
        || at[0].less_spec(T::zero_spec()) || at[1].less_spec(T::zero_spec()))
}

/// The point that the ray from `p` in the direction `dir` reaches after `step`
/// steps.
pub open spec fn ray_spec<T: NumLike>(p: Seq<T>, dir: Seq<T>, step: i32) -> Seq<T> {
    plus_spec_all(p, times_spec_all(dir, repeat(T::from_i32_spec(step), 2)))
}

/// Whether the point `at` lies in a frame of the given size.
fn in_frame<T: NumLike>(at: &Vec2<T>, width: u32, height: u32) -> (r: bool)
    requires
        width <= i32::MAX,
        height <= i32::MAX,
    ensures
        T::obeys_num_spec() ==> r == in_frame_spec(at@, width as int, height as int),
{
    let w = T::from_i32(width as i32);
    let h = T::from_i32(height as i32);
    let zero = T::zero();
    !(w.less(at.data[0]) || w.equals(at.data[0]) || h.less(at.data[1]) || h.equals(at.data[1])
        || at.data[0].less(zero) || at.data[1].less(zero))
}

/// The depth that `zbuf` holds for the pixel in which the point `at` lies.
fn depth_under<T: NumLike>(zbuf: &DepthBuffer<T>, at: &Vec2<T>) -> (r: Result<T, RenderError>)
    requires
        zbuf.wf(),
        usable::<T>(),
    ensures
        r matches Err(e) ==> e == RenderError::SampleOutOfRange,
        T::obeys_num_spec() ==> (r is Ok <==> zbuf.contains(
            at@[0].to_i32_spec() as int,
            at@[1].to_i32_spec() as int,
        )),
        T::obeys_num_spec() ==> (r matches Ok(d) ==> d == zbuf.depth_at(
            at@[0].to_i32_spec() as int,
            at@[1].to_i32_spec() as int,
        )),
{
    let x = at.data[0].to_i32();
    let y = at.data[1].to_i32();
    if x < 0 || y < 0 {
        return Err(RenderError::SampleOutOfRange);
    }
    zbuf.get(x as u32, y as u32)
}

/// The greatest angle of elevation along a ray of which `done` steps are taken and
/// the greatest angle so far is `so_far`. The next step ends the ray where it leaves
/// the frame or the depths; a step nearer to `p` than one pixel does not count; any
/// other gives the arc tangent of the rise of the depths above `here` over the
/// distance, and the greater of that and the angle so far goes on.
pub open spec fn elevation_from_spec<T: FloatLike>(
    depths: Map<(int, int), T>,
    width: int,
    height: int,
    p: Seq<T>,
    dir: Seq<T>,
    here: T,
    done: int,
    so_far: T,
) -> T
    decreases RAY_STEPS - done,
{
    if done >= RAY_STEPS {
        so_far
    } else {
        let cur = ray_spec(p, dir, (done + 1) as i32);
        let distance = norm_spec(minus_spec_all(p, cur));
        let at = (cur[0].to_i32_spec() as int, cur[1].to_i32_spec() as int);
        if !in_frame_spec(cur, width, height) {
            so_far
        } else if distance.less_spec(T::one_spec()) {
            elevation_from_spec(depths, width, height, p, dir, here, done + 1, so_far)
        } else if !in_bounds(width, height, at.0, at.1) {
            so_far
        } else {
            elevation_from_spec(
                depths,
                width,
                height,
                p,
                dir,
                here,
                done + 1,
                maxf_spec(so_far, depths[at].minus_spec(here).over_spec(distance).atan_spec()),
            )
        }
    }
}

/// The greatest angle of elevation at which the depths rise above the pixel at `p`
/// along the ray from `p` in the direction `dir`, in a frame of the given size: zero
/// where `p` is no pixel of the frame, and else what `RAY_STEPS` steps give at most.
pub open spec fn elevation_spec<T: FloatLike>(
    depths: Map<(int, int), T>,
    width: int,
    height: int,
    p: Seq<T>,
    dir: Seq<T>,
) -> T {
    let at = (p[0].to_i32_spec() as int, p[1].to_i32_spec() as int);
    if width > i32::MAX || height > i32::MAX || !in_bounds(width, height, at.0, at.1) {
        T::zero_spec()
    } else {
        elevation_from_spec(depths, width, height, p, dir, depths[at], 0, T::zero_spec())
    }
}

/// The greatest angle of elevation at which the depths of `zbuf` rise above the
/// pixel at `p` along the ray from `p` in the direction `dir`. The ray is followed
/// step by step until it leaves the frame, and no further than `RAY_STEPS` steps;
/// steps nearer to `p` than one pixel do not count. Where no step counts, the angle
/// is zero.
pub fn max_elevation_angle<T: FloatLike>(zbuf: &DepthBuffer<T>, p: Vec2<T>, dir: Vec2<T>) -> (r: T)
    requires
        zbuf.wf(),
        usable::<T>(),
    ensures
        T::obeys_num_spec() ==> r == elevation_spec(
            zbuf.depths(),
            zbuf.spec_width(),
            zbuf.spec_height(),
            p@,
            dir@,
        ),
{
    let mut max_angle = T::zero();
    let width = zbuf.width();
    let height = zbuf.height();
    if width > i32::MAX as u32 || height > i32::MAX as u32 {
        return max_angle;
    }
    let here = match depth_under(zbuf, &p) {
        Ok(here) => here,
        Err(_) => {
            return max_angle;
        },
    };
    let ghost depths = zbuf.depths();
    let ghost goal = elevation_spec(depths, width as int, height as int, p@, dir@);
    let mut step: i32 = 0;
    while step < RAY_STEPS
        invariant
            0 <= step <= RAY_STEPS,
            zbuf.wf(),
            depths == zbuf.depths(),
            width == zbuf.spec_width(),
            height == zbuf.spec_height(),
            width <= i32::MAX,
            height <= i32::MAX,
            usable::<T>(),
            goal == elevation_spec(depths, width as int, height as int, p@, dir@),
            T::obeys_num_spec() ==> goal == elevation_from_spec(
                depths,
                width as int,
                height as int,
                p@,
                dir@,
                here,
                step as int,
                max_angle,
            ),
        decreases RAY_STEPS - step,
    {
        step += 1;
        let t = T::from_i32(step);
        proof {
            if T::obeys_num_spec() {
                lemma_total_vectors(dir@, repeat(t, 2), 2);
                lemma_total_vectors(p@, times_spec_all(dir@, repeat(t, 2)), 2);
                lemma_total_vectors(p@, ray_spec(p@, dir@, step), 2);
                lemma_total_vectors(minus_spec_all(p@, ray_spec(p@, dir@, step)), p@, 2);
            }
        }
        let cur = p.plus(&dir.scale(t));
        assert(T::obeys_num_spec() ==> cur@ == ray_spec(p@, dir@, step));
        assert(T::obeys_num_spec() ==> goal == elevation_from_spec(
            depths,
            width as int,
            height as int,
            p@,
            dir@,
            here,
            step - 1,
            max_angle,
        ));
        if !in_frame(&cur, width, height) {
            assert(T::obeys_num_spec() ==> goal == max_angle);
            return max_angle;
        }
        let distance = p.minus(&cur).norm();
        if !distance.less(T::one()) {
            let there = match depth_under(zbuf, &cur) {
                Ok(there) => there,
                Err(_) => {
                    assert(T::obeys_num_spec() ==> goal == max_angle);
                    return max_angle;
                },
            };
            let elevation = there.minus(here);
            max_angle = maxf(max_angle, elevation.over(distance).atan());
        }
    }
    max_angle
}

/// The gray level of a pixel of which the rays leave the angles `open` open, summed
/// over the rays: the share of the sky that is open, raised to the tenth power, as a
/// channel.
pub open spec fn occlusion_level_spec<T: FloatLike>(open: T) -> u8 {
    gray_level_spec(sky_share_spec(open, T::pi_spec()).powf_spec(T::from_i32_spec(10i32)))
}

/// The gray level of a pixel of which the rays leave the angles `open` open, summed
/// over the rays.
pub fn occlusion_level<T: FloatLike>(open: T) -> (r: u8)
    requires
        usable::<T>(),
    ensures
        T::obeys_num_spec() ==> r == occlusion_level_spec(open),
{
    gray_level(sky_share(open, T::pi()).powf(T::from_i32(10)))
}

/// The angles that the rays from `p` leave open, summed, where `done` rays are
/// followed, the next goes out at the angle `angle`, and the sum so far is `total`:
/// each ray adds a quarter turn less its greatest angle of elevation, and the next
/// goes out an eighth of a turn further.
pub open spec fn open_from_spec<T: FloatLike>(
    depths: Map<(int, int), T>,
    width: int,
    height: int,
    p: Seq<T>,
    done: int,
    angle: T,
    total: T,
) -> T
    decreases RAYS - done,
{
    if done >= RAYS {
        total
    } else {
        let quarter = T::pi_spec().over_spec(T::from_i32_spec(2i32));
        let turn = T::pi_spec().over_spec(T::from_i32_spec(4i32));
        let dir = seq![angle.cos_spec(), angle.sin_spec()];
        open_from_spec(
            depths,
            width,
            height,
            p,
            done + 1,
            angle.plus_spec(turn),
            total.plus_spec(quarter.minus_spec(elevation_spec(depths, width, height, p, dir))),
        )
    }
}

/// The sum over the rays from the pixel `(x, y)` of the angle that each leaves open:
/// a quarter turn less its greatest angle of elevation. The first ray goes out along
/// x, and each next one an eighth of a turn further.
pub open spec fn open_sky_spec<T: FloatLike>(
    depths: Map<(int, int), T>,
    width: int,
    height: int,
    x: int,
    y: int,
) -> T {
    open_from_spec(
        depths,
        width,
        height,
        seq![T::from_i32_spec(x as i32), T::from_i32_spec(y as i32)],
        0,
        T::zero_spec(),
        T::zero_spec(),
    )
}

/// The sum over the rays from the pixel `(x, y)` of the angle that each leaves open.
pub fn open_sky<T: FloatLike>(zbuf: &DepthBuffer<T>, x: u32, y: u32) -> (r: T)
    requires
        zbuf.wf(),
        x <= i32::MAX,
        y <= i32::MAX,
        usable::<T>(),
    ensures
        T::obeys_num_spec() ==> r == open_sky_spec(
            zbuf.depths(),
            zbuf.spec_width(),
            zbuf.spec_height(),
            x as int,
            y as int,
        ),
{
    let pi = T::pi();
    let quarter = pi.over(T::from_i32(2));
    let turn = pi.over(T::from_i32(4));
    let p = Vec_ { data: [T::from_i32(x as i32), T::from_i32(y as i32)] };
    assert(T::obeys_num_spec() ==> p@ =~= seq![
        T::from_i32_spec(x as i32),
        T::from_i32_spec(y as i32),
    ]);
    let ghost depths = zbuf.depths();
    let ghost goal = open_sky_spec(
        depths,
        zbuf.spec_width(),
        zbuf.spec_height(),
        x as int,
        y as int,
    );
    let mut total = T::zero();
    let mut angle = T::zero();
    let mut ray: u32 = 0;
    while ray < RAYS
        invariant
            ray <= RAYS,
            zbuf.wf(),
            usable::<T>(),
            depths == zbuf.depths(),
            T::obeys_num_spec() ==> quarter == T::pi_spec().over_spec(T::from_i32_spec(2i32)),
            T::obeys_num_spec() ==> turn == T::pi_spec().over_spec(T::from_i32_spec(4i32)),
            T::obeys_num_spec() ==> goal == open_from_spec(
                depths,
                zbuf.spec_width(),
                zbuf.spec_height(),
                p@,
                ray as int,
                angle,
                total,
            ),
        decreases RAYS - ray,
    {
        let dir = Vec_ { data: [angle.cos(), angle.sin()] };
        assert(T::obeys_num_spec() ==> dir@ =~= seq![angle.cos_spec(), angle.sin_spec()]);
        let elevation = max_elevation_angle(zbuf, p, dir);
        total = total.plus(quarter.minus(elevation));
        angle = angle.plus(turn);
        ray += 1;
    }
    total
}

/// The share of the sky that is open where the rays leave the angles `open` open,
/// summed: `open` over a quarter turn for each of the rays, with `pi` for pi.
pub open spec fn sky_share_spec<T: NumLike>(open: T, pi: T) -> T {
    open.over_spec(pi.over_spec(T::from_i32_spec(2i32)).times_spec(T::from_i32_spec(RAYS as i32)))
}

/// The gray level that stands for the power `power` of a share of the sky: 255 times
/// the power, as a channel.
pub open spec fn gray_level_spec<T: NumLike>(power: T) -> u8 {
    crate::util::to_channel_spec(power.times_spec(T::from_i32_spec(255i32)))
}

/// The share of the sky that is open where the rays leave the angles `open` open,
/// summed, with `pi` for pi.
pub fn sky_share<T: NumLike>(open: T, pi: T) -> (r: T)
    requires
        usable::<T>(),
    ensures
        T::obeys_num_spec() ==> r == sky_share_spec(open, pi),
{
    open.over(pi.over(T::from_i32(2)).times(T::from_i32(RAYS as i32)))
}

/// The gray level that stands for the power `power` of a share of the sky.
pub fn gray_level<T: NumLike>(power: T) -> (r: u8)
    requires
        usable::<T>(),
    ensures
        T::obeys_num_spec() ==> r == gray_level_spec(power),
{
    to_channel(power.times(T::from_i32(255)))
}

/// Where the camera of the render stands: at (1.2, -0.8, 3).
pub open spec fn viewpoint_spec<T: NumLike>() -> Seq<T> {
    seq![ratio_spec::<T>(12, 10), ratio_spec::<T>(-8i32, 10), T::from_i32_spec(3i32)]
}

/// The three corners of the face `f` of the mesh on the screen, under the transform
/// `composite`: each corner in clip space, over its last component.
pub open spec fn face_on_screen_spec<T: NumLike>(
    model: Model<T>,
    composite: Seq<Seq<T>>,
    f: usize,
) -> Seq<Seq<T>> {
    let clip = face_clip_spec(model, composite, f);
    Seq::new(3, |k: int| over_spec_all(clip[k], repeat(clip[k][3], 4)))
}

/// The depth that the first pass stores at the pixel `(x, y)` once the first `n`
/// faces of the mesh are drawn under the transform `composite`: the depth of the
/// last face that is drawn there, and the far depth before any.
pub open spec fn covered_depth_spec<T: NumLike>(
    model: Model<T>,
    composite: Seq<Seq<T>>,
    n: int,
    x: int,
    y: int,
) -> T
    decreases n,
{
    if n <= 0 {
        far_spec::<T>()
    } else {
        let before = covered_depth_spec(model, composite, n - 1, x, y);
        let corners = face_on_screen_spec(model, composite, (n - 1) as usize);
        if draws_at(corners, WIDTH as int, HEIGHT as int, x, y, before) {
            pixel_depth_spec(corners, x, y)
        } else {
            before
        }
    }
}

/// The depths that the first pass stores for the whole mesh, seen from `eye`.
pub open spec fn covered_depths_spec<T: NumLike>(model: Model<T>, eye: Seq<T>) -> Map<(int, int), T> {
    Map::new(
        |k: (int, int)| in_bounds(WIDTH as int, HEIGHT as int, k.0, k.1),
        |k: (int, int)|
            covered_depth_spec(
                model,
                scene_composite_spec(eye),
                model.faces@.len() as int,
                k.0,
                k.1,
            ),
    )
}

/// The color of the pixel `(x, y)` where the frame holds the depths `depths`: opaque
/// black where the depth is below -100000, which is where the mesh does not cover
/// the pixel, and else the gray of the level of the sky that the depths leave open.
pub open spec fn occluded_pixel_spec<T: FloatLike>(depths: Map<(int, int), T>, x: int, y: int) -> Color {
    if depths[(x, y)].less_spec(T::from_i32_spec(-100000i32)) {
        [0u8, 0u8, 0u8, 255u8]
    } else {
        gray_spec(
            occlusion_level_spec(open_sky_spec(depths, WIDTH as int, HEIGHT as int, x, y)),
        )
    }
}

/// Renders the ambient occlusion of the mesh, seen from (1.2, -0.8, 3), with the
/// first row of the canvas at the top of the picture. The first pass draws the mesh
/// in black and keeps the depths; the second gives each pixel that the mesh covers
/// the gray level of its open sky. The other pixels stay black.
pub fn ambient_occlusion_render<T: FloatLike>(model: &Model<T>) -> (r: Result<Canvas, RenderError>)
    requires
        model.wf(),
        usable::<T>(),
    ensures
        r matches Ok(img) ==> img.spec_width() == WIDTH && img.spec_height() == HEIGHT,
        T::obeys_num_spec() ==> (r matches Err(e) ==> e == RenderError::ZeroNorm),
        T::obeys_num_spec() ==> (r is Ok <==> !scene_fails_spec(
            viewpoint_spec::<T>(),
            vec3_spec::<T>(1, 1, 1),
        )),
        T::obeys_num_spec() && r is Ok ==> forall|x: int, y: int|
            r->Ok_0.contains(x, y) ==> (#[trigger] r->Ok_0.color_at(x, y)) == occluded_pixel_spec(
                covered_depths_spec(*model, viewpoint_spec::<T>()),
                x,
                HEIGHT - 1 - y,
            ),
{
    let eye = Vec_ { data: [ratio::<T>(12, 10), ratio::<T>(-8, 10), T::from_i32(3)] };
    assert(T::obeys_num_spec() ==> eye@ =~= viewpoint_spec::<T>());
    let gl = match scene(eye, vec3(1, 1, 1)) {
        Ok(gl) => gl,
        Err(e) => {
            return Err(e);
        },
    };
    let ghost composite = gl.composite_spec();
    assert(T::obeys_num_spec() ==> composite == scene_composite_spec(viewpoint_spec::<T>()));
    let (mut img, mut zbuf) = blank_frame::<T>();
    let mut zshader = ZShader::new(&gl, model);
    let nfaces = model.nfaces();
    let mut face: usize = 0;
    while face < nfaces
        invariant
            face <= nfaces,
            nfaces == model.faces@.len(),
            gl.wf(),
            model.wf(),
            zbuf.wf(),
            zshader.shader_req(),
            usable::<T>(),
            T::obeys_num_spec() ==> zshader.gl == &gl && zshader.model == model,
            forall|f: usize, n: usize| zshader.has_vertex(f, n) == (n < 3 && model.has_corner(f, n)),
            composite == gl.composite_spec(),
            img.spec_width() == WIDTH && img.spec_height() == HEIGHT,
            zbuf.spec_width() == WIDTH && zbuf.spec_height() == HEIGHT,
            T::obeys_num_spec() ==> forall|x: int, y: int|
                img.contains(x, y) ==> #[trigger] img.color_at(x, y) == [0u8, 0u8, 0u8, 255u8],
            T::obeys_num_spec() ==> forall|x: int, y: int|
                img.contains(x, y) ==> (#[trigger] zbuf.depth_at(x, y)) == covered_depth_spec(
                    *model,
                    composite,
                    face as int,
                    x,
                    y,
                ),
        decreases nfaces - face,
    {
        match zshader.vertex(face, 0) {
            Ok(_) => {},
            Err(e) => {
                return Err(e);
            },
        }
        match zshader.vertex(face, 1) {
            Ok(_) => {},
            Err(e) => {
                return Err(e);
            },
        }
        match zshader.vertex(face, 2) {
            Ok(_) => {},
            Err(e) => {
                return Err(e);
            },
        }
        let pts = [zshader.corner(0), zshader.corner(1), zshader.corner(2)];
        proof {
            if T::obeys_num_spec() {
                let corners = face_on_screen_spec(*model, composite, face);
                assert(pts[0]@ =~= corners[0]);
                assert(pts[1]@ =~= corners[1]);
                assert(pts[2]@ =~= corners[2]);
                assert(points_view(pts) =~= corners);
            }
        }
        let ghost start = zshader;
        let ghost img_before = img;
        match gl.triangle(pts, &mut zshader, &mut img, &mut zbuf) {
            Ok(()) => {},
            Err(e) => {
                return Err(e);
            },
        }
        proof {
            if T::obeys_num_spec() {
                let corners = face_on_screen_spec(*model, composite, face);
                assert forall|x: int, y: int| img.contains(x, y) implies paints_at(
                    start,
                    corners,
                    WIDTH as int,
                    HEIGHT as int,
                    x,
                    y,
                    covered_depth_spec(*model, composite, face as int, x, y),
                ) == draws_at(
                    corners,
                    WIDTH as int,
                    HEIGHT as int,
                    x,
                    y,
                    covered_depth_spec(*model, composite, face as int, x, y),
                ) by {}
                assert forall|x: int, y: int| img.contains(x, y) implies #[trigger] img.color_at(
                    x,
                    y,
                ) == [0u8, 0u8, 0u8, 255u8] by {
                    assert(img_before.contains(x, y));
                    assert(img_before.color_at(x, y) == [0u8, 0u8, 0u8, 255u8]);
                    assert(crate::gl::shaded_spec(start, corners, x, y)->Ok_0->0 == [
                        0u8,
                        0u8,
                        0u8,
                        255u8,
                    ]);
                }
            }
        }
        face += 1;
    }
    let undrawn = T::from_i32(-100000);
    let ghost eye_view = viewpoint_spec::<T>();
    let mut x: u32 = 0;
    while x < WIDTH
        invariant
            x <= WIDTH,
            zbuf.wf(),
            usable::<T>(),
            eye_view == viewpoint_spec::<T>(),
            T::obeys_num_spec() ==> undrawn == T::from_i32_spec(-100000i32),
            img.spec_width() == WIDTH && img.spec_height() == HEIGHT,
            zbuf.spec_width() == WIDTH && zbuf.spec_height() == HEIGHT,
            T::obeys_num_spec() ==> composite == scene_composite_spec(eye_view),
            T::obeys_num_spec() ==> forall|a: int, b: int|
                img.contains(a, b) ==> (#[trigger] zbuf.depth_at(a, b)) == covered_depth_spec(
                    *model,
                    composite,
                    model.faces@.len() as int,
                    a,
                    b,
                ),
            T::obeys_num_spec() ==> forall|a: int, b: int|
                img.contains(a, b) ==> (#[trigger] img.color_at(a, b)) == (if a < x {
                    occluded_pixel_spec(zbuf.depths(), a, b)
                } else {
                    [0u8, 0u8, 0u8, 255u8]
                }),
        decreases WIDTH - x,
    {
        let mut y: u32 = 0;
        while y < HEIGHT
            invariant
                y <= HEIGHT,
                x < WIDTH,
                zbuf.wf(),
                usable::<T>(),
                eye_view == viewpoint_spec::<T>(),
                T::obeys_num_spec() ==> undrawn == T::from_i32_spec(-100000i32),
                img.spec_width() == WIDTH && img.spec_height() == HEIGHT,
                zbuf.spec_width() == WIDTH && zbuf.spec_height() == HEIGHT,
                T::obeys_num_spec() ==> composite == scene_composite_spec(eye_view),
                T::obeys_num_spec() ==> forall|a: int, b: int|
                    img.contains(a, b) ==> (#[trigger] zbuf.depth_at(a, b)) == covered_depth_spec(
                        *model,
                        composite,
                        model.faces@.len() as int,
                        a,
                        b,
                    ),
                T::obeys_num_spec() ==> forall|a: int, b: int|
                    img.contains(a, b) ==> (#[trigger] img.color_at(a, b)) == (if a < x || (a == x
                        && b < y) {
                        occluded_pixel_spec(zbuf.depths(), a, b)
                    } else {
                        [0u8, 0u8, 0u8, 255u8]
                    }),
            decreases HEIGHT - y,
        {
            let depth = match zbuf.get(x, y) {
                Ok(depth) => depth,
                Err(e) => {
                    return Err(e);
                },
            };
            assert(T::obeys_num_spec() ==> img.contains(x as int, y as int) && depth
                == zbuf.depth_at(x as int, y as int));
            if !depth.less(undrawn) {
                let level = occlusion_level(open_sky(&zbuf, x, y));
                let ghost img_before = img;
                let _ = img.put(x, y, [level, level, level, 255]);
                proof {
                    if T::obeys_num_spec() {
                        assert([level, level, level, 255u8] == occluded_pixel_spec(
                            zbuf.depths(),
                            x as int,
                            y as int,
                        ));
                        assert forall|a: int, b: int| img.contains(a, b) implies (
                        #[trigger] img.color_at(a, b)) == (if a < x || (a == x && b < y + 1) {
                            occluded_pixel_spec(zbuf.depths(), a, b)
                        } else {
                            [0u8, 0u8, 0u8, 255u8]
                        }) by {
                            assert(img_before.contains(a, b));
                            if a == x && b == y {
                                assert(img.color_at(a, b) == [level, level, level, 255u8]);
                            } else {
                                assert(img.color_at(a, b) == img_before.color_at(a, b));
                            }
                        }
                    }
                }
            } else {
                assert(T::obeys_num_spec() ==> occluded_pixel_spec(
                    zbuf.depths(),
                    x as int,
                    y as int,
                ) == [0u8, 0u8, 0u8, 255u8]);
            }
            y += 1;
        }
        x += 1;
    }
    let ghost drawn = img;
    img.flip_vertical();
    proof {
        if T::obeys_num_spec() {
            assert(zbuf.depths() =~= covered_depths_spec(*model, viewpoint_spec::<T>()));
            assert forall|x: int, y: int| img.contains(x, y) implies (#[trigger] img.color_at(x, y))
                == occluded_pixel_spec(
                covered_depths_spec(*model, viewpoint_spec::<T>()),
                x,
                HEIGHT - 1 - y,
            ) by {
                assert(drawn.contains(x, HEIGHT - 1 - y));
                assert(img.color_at(x, y) == drawn.color_at(x, HEIGHT - 1 - y));
            }
        }
    }
    Ok(img)
}

} // verus!
