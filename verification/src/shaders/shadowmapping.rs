//! Shading with shadows, in two passes: the depths of the mesh as the light sees it,
//! then the mesh as the camera sees it, darker where the light does not reach.
use crate::error::RenderError;
use crate::framebuffer::{Canvas, Color, DepthBuffer};
use crate::geometry::{
    lemma_total_vectors, normalize_spec, over_spec_all, points_view, repeat, Vec3, Vec4, Vec_,
};
use crate::gl::{
    draws_at, paints_at, pixel_depth_spec, pixel_weights_spec, shaded_spec, IShader, GL,
};
use crate::matrix::{
    identity_spec, invert_transpose_spec, lemma_total_matrices, mul_spec, mul_vec_spec,
    singular_spec, transpose_spec, Mat,
};
use crate::model::{texel_spec, Model};
use crate::shaders::gouraud6l::{lit, lit_spec};
use crate::shaders::specularmapping::{
    fragment_normal_spec, highlight_spec, highlit_failure_spec, mirrored,
};
use crate::shaders::{
    blank_frame, face_clip_spec, face_uv_spec, far_spec, interpolate, is_transform, is_varying,
    scene, scene_composite_spec, scene_fails_spec, scene_uniform_spec, set_varying,
    transform_direction, transformed_spec, uniforms, vec3, vec3_spec, HEIGHT, WIDTH,
};
use crate::util::{
    maxf, minf, ratio, ratio_spec, to_channel, to_channel_spec, usable, FloatLike, NumLike,
    RgbaImageExt,
};
use vstd::prelude::*;

verus! {

/// The shader of the first pass: it keeps the three corners of the face on the
/// screen, and shows depth as gray.
pub struct DepthShader<'a, T: NumLike> {
    pub gl: &'a GL<T>,
    /// Three rows and three columns: x, y and depth of each corner on the screen.
    pub varying_tri: Mat<T>,
    pub model: &'a Model<T>,
}

/// The shader of the second pass: it lights as the specular map's shader does, and
/// dims what the light does not reach.
pub struct Pass2Shader<'a, T: NumLike> {
    pub gl: &'a GL<T>,
    /// Two rows and three columns: the texture coordinates of each corner.
    pub varying_uv: Mat<T>,
    /// Three rows and three columns: x, y and depth of each corner on the screen.
    pub varying_tri: Mat<T>,
    /// Projection times view.
    pub uniform_m: Mat<T>,
    /// The transposed inverse of projection times view.
    pub uniform_m_it: Mat<T>,
    /// From the screen of the camera to the screen of the light.
    pub uniform_m_shadow: Mat<T>,
    /// The depths of the first pass.
    pub shadow_buffer: &'a DepthBuffer<T>,
    pub model: &'a Model<T>,
}

/// The gray level of a depth: 255 times the depth over the depth range.
pub open spec fn depth_level_spec<T: NumLike>(depth: T) -> u8 {
    to_channel_spec(
        T::from_i32_spec(255i32).times_spec(depth.over_spec(T::from_i32_spec(crate::camera::DEPTH))),
    )
}

/// How much of the light reaches a point of depth `depth` as the light sees it, where
/// the first pass stored the depth `stored`: all of it where the stored depth is
/// below, and three tenths where something nearer to the light is in the way.
pub open spec fn shadow_factor_spec<T: NumLike>(stored: T, depth: T) -> T {
    ratio_spec::<T>(3, 10).plus_spec(
        ratio_spec::<T>(7, 10).times_spec(
            if stored.less_spec(depth) {
                T::one_spec()
            } else {
                T::zero_spec()
            },
        ),
    )
}

/// How much of the light reaches a point of depth `depth` as the light sees it, where
/// the first pass stored the depth `stored`.
pub fn shadow_factor<T: NumLike>(stored: T, depth: T) -> (r: T)
    requires
        usable::<T>(),
    ensures
        T::obeys_num_spec() ==> r == shadow_factor_spec(stored, depth),
{
    let reached = if stored.less(depth) {
        T::one()
    } else {
        T::zero()
    };
    ratio::<T>(3, 10).plus(ratio::<T>(7, 10).times(reached))
}

/// One channel of the shadowed color: 20 plus the channel times the share of the
/// light times the sum of twelve tenths of the diffuse light and six tenths of the
/// highlight; no more than 255; its fraction cut off.
pub open spec fn shadowed_channel_spec<T: NumLike>(channel: u8, shadow: T, diff: T, spec: T) -> u8 {
    let light = ratio_spec::<T>(12, 10).times_spec(diff).plus_spec(
        ratio_spec::<T>(6, 10).times_spec(spec),
    );
    let level = T::from_i32_spec(20i32).plus_spec(
        T::from_i32_spec(channel as i32).times_spec(shadow).times_spec(light),
    );
    let top = T::from_i32_spec(255i32);
    to_channel_spec(
        if level.less_spec(top) {
            level
        } else {
            top
        },
    )
}

/// The shadowed color: each of red, green and blue lit and dimmed, and opaque.
pub open spec fn shadowed_color_spec<T: NumLike>(c: Color, shadow: T, diff: T, spec: T) -> Color {
    [
        shadowed_channel_spec(c@[0], shadow, diff, spec),
        shadowed_channel_spec(c@[1], shadow, diff, spec),
        shadowed_channel_spec(c@[2], shadow, diff, spec),
        255u8,
    ]
}

/// One channel of the shadowed color.
fn shadowed_channel<T: NumLike>(channel: u8, shadow: T, diff: T, spec: T) -> (r: u8)
    requires
        usable::<T>(),
    ensures
        T::obeys_num_spec() ==> r == shadowed_channel_spec(channel, shadow, diff, spec),
{
    let light = ratio::<T>(12, 10).times(diff).plus(ratio::<T>(6, 10).times(spec));
    let level = T::from_i32(20).plus(T::from_i32(channel as i32).times(shadow).times(light));
    to_channel(minf(level, T::from_i32(255)))
}

/// The color `c` lit by the diffuse light `diff` and the highlight `spec`, of which
/// the share `shadow` arrives.
pub fn shadowed_color<T: NumLike>(c: Color, shadow: T, diff: T, spec: T) -> (r: Color)
    requires
        usable::<T>(),
    ensures
        T::obeys_num_spec() ==> r == shadowed_color_spec(c, shadow, diff, spec),
{
    [
        shadowed_channel(c[0], shadow, diff, spec),
        shadowed_channel(c[1], shadow, diff, spec),
        shadowed_channel(c[2], shadow, diff, spec),
        255,
    ]
}

/// The point `clip` of clip space on the screen: each component over the last.
pub fn on_screen<T: NumLike>(clip: &Vec4<T>) -> (r: Vec<T>)
    requires
        usable::<T>(),
    ensures
        r@.len() == 4,
        T::obeys_num_spec() ==> r@ == over_spec_all(clip@, repeat(clip@[3], 4)),
{
    proof {
        if T::obeys_num_spec() {
            lemma_total_vectors(clip@, repeat(clip@[3], 4), 4);
        }
    }
    clip.shrink(clip.data[3]).to_vec()
}

impl<'a, T: NumLike> DepthShader<'a, T> {
    /// The shader for the mesh `model` in the scene `gl`, with no varyings yet.
    pub fn new(gl: &'a GL<T>, model: &'a Model<T>) -> (r: Self)
        ensures
            r.gl == gl,
            r.model == model,
            is_varying(r.varying_tri, 3),
    {
        DepthShader { gl, varying_tri: Mat::new(3, 3), model }
    }
}

impl<'a, T: NumLike> IShader<T> for DepthShader<'a, T> {
    open spec fn shader_req(&self) -> bool {
        &&& self.gl.wf()
        &&& self.model.wf()
        &&& is_varying(self.varying_tri, 3)
        &&& usable::<T>()
    }

    open spec fn has_vertex(&self, iface: usize, nthvert: usize) -> bool {
        nthvert < 3 && self.model.has_corner(iface, nthvert)
    }

    open spec fn obeys_shader_spec() -> bool {
        true
    }

    /// The gray level of the depth of the fragment.
    open spec fn fragment_spec(&self, bc: Seq<T>) -> Result<Option<Color>, RenderError> {
        let level = depth_level_spec(mul_vec_spec(self.varying_tri@, bc)[2]);
        Ok(Some([level, level, level, 255u8]))
    }

    /// Keeps the corner on the screen and returns it in clip space.
    fn vertex(&mut self, iface: usize, nthvert: usize) -> (r: Result<Vec4<T>, RenderError>)
        ensures
            final(self).gl == old(self).gl,
            final(self).model == old(self).model,
            r is Ok <==> old(self).has_vertex(iface, nthvert),
            r matches Err(e) ==> e == RenderError::DimensionMismatch && *final(self) == *old(self),
            T::obeys_num_spec() ==> (r matches Ok(p) ==> ({
                let corner = old(self).model.corner(iface, nthvert);
                &&& p@ == old(self).gl.clip_spec(old(self).model.verts@[corner[0] as int]@)
                &&& final(self).varying_tri@ == crate::matrix::with_column_spec(
                    old(self).varying_tri@,
                    nthvert as int,
                    over_spec_all(p@, repeat(p@[3], 4)),
                )
            })),
    {
        if nthvert >= 3 {
            return Err(RenderError::DimensionMismatch);
        }
        let position = match self.model.vert_by(iface, nthvert) {
            Ok(v) => v,
            Err(e) => {
                return Err(e);
            },
        };
        let clip = self.gl.to_clip(&position);
        set_varying(&mut self.varying_tri, nthvert, &on_screen(&clip));
        Ok(clip)
    }

    /// The color of the fragment: the gray level of its depth.
    fn fragment(&mut self, bc: Vec3<T>, gl_fragcoord: Vec3<T>) -> (r: Result<
        Option<Color>,
        RenderError,
    >)
        ensures
            *final(self) == *old(self),
            r matches Ok(Some(_)),
            T::obeys_num_spec() ==> ({
                let level = depth_level_spec(mul_vec_spec(old(self).varying_tri@, bc@)[2]);
                r == Ok::<Option<Color>, RenderError>(Some([level, level, level, 255u8]))
            }),
    {
        let p = interpolate(&self.varying_tri, &bc);
        let level = to_channel(
            T::from_i32(255).times(p[2].over(T::from_i32(crate::camera::DEPTH))),
        );
        Ok(Some([level, level, level, 255]))
    }
}

impl<'a, T: NumLike> Pass2Shader<'a, T> {
    /// The shader for the mesh `model` in the scene `gl`, with the depths
    /// `shadow_buffer` of the first pass, no varyings yet and the identity for the
    /// three transforms.
    pub fn new(gl: &'a GL<T>, model: &'a Model<T>, shadow_buffer: &'a DepthBuffer<T>) -> (r: Self)
        ensures
            r.gl == gl,
            r.model == model,
            r.shadow_buffer == shadow_buffer,
            is_varying(r.varying_uv, 2),
            is_varying(r.varying_tri, 3),
            is_transform(r.uniform_m),
            is_transform(r.uniform_m_it),
            is_transform(r.uniform_m_shadow),
    {
        Pass2Shader {
            gl,
            varying_uv: Mat::new(2, 3),
            varying_tri: Mat::new(3, 3),
            uniform_m: Mat::identity(4),
            uniform_m_it: Mat::identity(4),
            uniform_m_shadow: Mat::identity(4),
            shadow_buffer,
            model,
        }
    }

    /// The share of the light at the fragment with the weights `bc`: the fragment is
    /// taken to the screen of the light, and its depth there is compared with the
    /// depth that the first pass stored for that pixel. A fragment that the light's
    /// screen does not show is out of range.
    pub fn shadow(&self, bc: &Vec3<T>) -> (r: Result<T, RenderError>)
        requires
            self.shadow_buffer.wf(),
            is_varying(self.varying_tri, 3),
            is_transform(self.uniform_m_shadow),
            usable::<T>(),
        ensures
            r matches Err(e) ==> e == RenderError::SampleOutOfRange,
            T::obeys_num_spec() ==> ({
                let (x, y, depth) = light_view_spec(self.varying_tri@, self.uniform_m_shadow@, bc@);
                &&& r is Ok <==> self.shadow_buffer.contains(x, y)
                &&& r matches Ok(s) ==> s == shadow_factor_spec(
                    self.shadow_buffer.depth_at(x, y),
                    depth,
                )
            }),
    {
        let p = interpolate(&self.varying_tri, bc);
        let point = Vec_ { data: [p[0], p[1], p[2], T::one()] };
        proof {
            if T::obeys_num_spec() {
                lemma_total_matrices(
                    self.uniform_m_shadow@,
                    self.uniform_m_shadow@,
                    4,
                    point@,
                    T::one_spec(),
                );
            }
        }
        let moved = match self.uniform_m_shadow.transform(&point) {
            Ok(moved) => moved,
            Err(_) => vstd::pervasive::unreached(),
        };
        assert(T::obeys_num_spec() ==> point@ =~= screen_point_spec(self.varying_tri@, bc@));
        let x = moved[0].over(moved[3]).to_i32();
        let y = moved[1].over(moved[3]).to_i32();
        let depth = moved[2].over(moved[3]);
        if x < 0 || y < 0 {
            return Err(RenderError::SampleOutOfRange);
        }
        match self.shadow_buffer.get(x as u32, y as u32) {
            Ok(stored) => Ok(shadow_factor(stored, depth)),
            Err(e) => Err(e),
        }
    }
}

/// The fragment with the weights `bc` on the screen of the camera, with its depth
/// and a one, where `tri` holds x, y and depth of the three corners of its face.
pub open spec fn screen_point_spec<T: NumLike>(tri: Seq<Seq<T>>, bc: Seq<T>) -> Seq<T> {
    let p = mul_vec_spec(tri, bc);
    seq![p[0], p[1], p[2], T::one_spec()]
}

/// The pixel and the depth of the fragment with the weights `bc` on the screen of
/// the light, to which `m_shadow` leads from the screen of the camera.
pub open spec fn light_view_spec<T: NumLike>(tri: Seq<Seq<T>>, m_shadow: Seq<Seq<T>>, bc: Seq<T>) -> (
    int,
    int,
    T,
) {
    let moved = mul_vec_spec(m_shadow, screen_point_spec(tri, bc));
    (
        moved[0].over_spec(moved[3]).to_i32_spec() as int,
        moved[1].over_spec(moved[3]).to_i32_spec() as int,
        moved[2].over_spec(moved[3]),
    )
}

/// What the shader of the second pass returns for a fragment with the weights `bc`:
/// a failure where the screen of the light does not show the fragment, which is
/// where `inside` does not hold, and else where the specular map's shader fails;
/// else the texel of the diffuse map at its texture coordinates, lit by the light on
/// its normal and by its highlight, of which the share `shadow` arrives.
pub open spec fn shadowed_outcome_spec<T: FloatLike>(
    model: Model<T>,
    uv: Seq<Seq<T>>,
    m: Seq<Seq<T>>,
    m_it: Seq<Seq<T>>,
    light: Seq<T>,
    bc: Seq<T>,
    inside: bool,
    shadow: T,
) -> Result<Option<Color>, RenderError> {
    let at = mul_vec_spec(uv, bc);
    if !inside {
        Err(RenderError::SampleOutOfRange)
    } else {
        match highlit_failure_spec(model, uv, m, m_it, light, bc) {
            Some(e) => Err(e),
            None => Ok(
                Some(
                    shadowed_color_spec(
                        texel_spec(model.diffuse_map, at[0], at[1]),
                        shadow,
                        lit_spec(
                            fragment_normal_spec(model, m, at),
                            normalize_spec(transformed_spec(m_it, light)),
                        ),
                        highlight_spec(model, m, m_it, light, at),
                    ),
                ),
            ),
        }
    }
}

impl<'a, T: FloatLike> IShader<T> for Pass2Shader<'a, T> {
    open spec fn shader_req(&self) -> bool {
        &&& self.gl.wf()
        &&& self.model.wf()
        &&& self.shadow_buffer.wf()
        &&& is_varying(self.varying_uv, 2)
        &&& is_varying(self.varying_tri, 3)
        &&& is_transform(self.uniform_m)
        &&& is_transform(self.uniform_m_it)
        &&& is_transform(self.uniform_m_shadow)
        &&& usable::<T>()
    }

    open spec fn has_vertex(&self, iface: usize, nthvert: usize) -> bool {
        nthvert < 3 && self.model.has_corner(iface, nthvert)
    }

    open spec fn obeys_shader_spec() -> bool {
        true
    }

    /// What the shader returns for the fragment, with the share of the light that
    /// the depths of the first pass give.
    open spec fn fragment_spec(&self, bc: Seq<T>) -> Result<Option<Color>, RenderError> {
        let at = light_view_spec(self.varying_tri@, self.uniform_m_shadow@, bc);
        shadowed_outcome_spec(
            *self.model,
            self.varying_uv@,
            self.uniform_m@,
            self.uniform_m_it@,
            self.gl.light_dir@,
            bc,
            self.shadow_buffer.contains(at.0, at.1),
            shadow_factor_spec(self.shadow_buffer.depth_at(at.0, at.1), at.2),
        )
    }

    /// Keeps the texture coordinates and the place on the screen of the corner and
    /// returns the corner in clip space.
    fn vertex(&mut self, iface: usize, nthvert: usize) -> (r: Result<Vec4<T>, RenderError>)
        ensures
            final(self).gl == old(self).gl,
            final(self).model == old(self).model,
            final(self).shadow_buffer == old(self).shadow_buffer,
            final(self).uniform_m == old(self).uniform_m,
            final(self).uniform_m_it == old(self).uniform_m_it,
            final(self).uniform_m_shadow == old(self).uniform_m_shadow,
            r is Ok <==> old(self).has_vertex(iface, nthvert),
            r matches Err(e) ==> e == RenderError::DimensionMismatch && *final(self) == *old(self),
            T::obeys_num_spec() ==> (r matches Ok(p) ==> ({
                let corner = old(self).model.corner(iface, nthvert);
                &&& p@ == old(self).gl.clip_spec(old(self).model.verts@[corner[0] as int]@)
                &&& final(self).varying_uv@ == crate::matrix::with_column_spec(
                    old(self).varying_uv@,
                    nthvert as int,
                    old(self).model.uvs@[corner[1] as int]@,
                )
                &&& final(self).varying_tri@ == crate::matrix::with_column_spec(
                    old(self).varying_tri@,
                    nthvert as int,
                    over_spec_all(p@, repeat(p@[3], 4)),
                )
            })),
    {
        if nthvert >= 3 {
            return Err(RenderError::DimensionMismatch);
        }
        let uv = match self.model.uv(iface, nthvert) {
            Ok(uv) => uv,
            Err(e) => {
                return Err(e);
            },
        };
        let position = match self.model.vert_by(iface, nthvert) {
            Ok(v) => v,
            Err(e) => {
                return Err(e);
            },
        };
        let clip = self.gl.to_clip(&position);
        set_varying(&mut self.varying_uv, nthvert, &uv.to_vec());
        set_varying(&mut self.varying_tri, nthvert, &on_screen(&clip));
        Ok(clip)
    }

    /// The color of the fragment: the texel of the diffuse map at its texture
    /// coordinates, lit as by the specular map's shader, with three tenths of the
    /// light where the first pass found something nearer to the light. Where a map
    /// or the depths of the first pass are sampled outside, or a direction vanishes,
    /// the call fails.
    fn fragment(&mut self, bc: Vec3<T>, gl_fragcoord: Vec3<T>) -> (r: Result<
        Option<Color>,
        RenderError,
    >)
        ensures
            *final(self) == *old(self),
            r matches Ok(c) ==> c is Some,
            r matches Err(e) ==> e == RenderError::SampleOutOfRange || e == RenderError::ZeroNorm,
            T::obeys_num_spec() ==> r == old(self).fragment_spec(bc@),
    {
        let shadow = match self.shadow(&bc) {
            Ok(shadow) => shadow,
            Err(e) => {
                return Err(e);
            },
        };
        let uv = interpolate(&self.varying_uv, &bc);
        let mapped = match self.model.norm_by(Vec_ { data: [uv[0], uv[1]] }) {
            Ok(mapped) => mapped,
            Err(e) => {
                return Err(e);
            },
        };
        let n = match transform_direction(&self.uniform_m, &mapped) {
            Ok(n) => n,
            Err(e) => {
                return Err(e);
            },
        };
        let l = match transform_direction(&self.uniform_m_it, &self.gl.light_dir) {
            Ok(l) => l,
            Err(e) => {
                return Err(e);
            },
        };
        let mirror = match mirrored(&n, &l) {
            Ok(mirror) => mirror,
            Err(e) => {
                return Err(e);
            },
        };
        let exponent = match self.model.specular(uv[0], uv[1]) {
            Ok(exponent) => exponent,
            Err(e) => {
                return Err(e);
            },
        };
        let spec = maxf(mirror.data[2], T::zero()).powf(exponent);
        let diff = lit(&n, &l);
        match self.model.diffuse(uv[0], uv[1]) {
            Ok(color) => {
                let c = shadowed_color(color, shadow, diff, spec);
                assert(T::obeys_num_spec() ==> c == shadowed_color_spec(
                    texel_spec(self.model.diffuse_map, uv@[0], uv@[1]),
                    shadow,
                    lit_spec(
                        fragment_normal_spec(*self.model, self.uniform_m@, uv@),
                        normalize_spec(transformed_spec(self.uniform_m_it@, self.gl.light_dir@)),
                    ),
                    spec,
                ));
                Ok(Some(c))
            },
            Err(e) => Err(e),
        }
    }
}

/// The transform of the scene as the light at `sun` sees it, without perspective:
/// viewport times view.
pub open spec fn light_composite_spec<T: NumLike>(sun: Seq<T>) -> Seq<Seq<T>> {
    mul_spec(
        mul_spec(crate::camera::viewport_spec::<T>(100, 100, 600, 600), identity_spec::<T>(4), 4),
        crate::camera::lookat_spec(sun, vec3_spec::<T>(0, 0, 0), vec3_spec::<T>(0, 1, 0)),
        4,
    )
}

/// From the screen of the camera at `eye` to the screen of the light at `sun`.
pub open spec fn shadow_transform_spec<T: NumLike>(eye: Seq<T>, sun: Seq<T>) -> Seq<Seq<T>> {
    mul_spec(
        light_composite_spec(sun),
        transpose_spec(invert_transpose_spec(scene_composite_spec(eye)), 4),
        4,
    )
}

/// The depth that the first pass stores at the pixel `(x, y)` once the first `n`
/// faces of the mesh are drawn under the transform `composite`: the depth of the
/// last face that is drawn there, and the far depth before any.
pub open spec fn light_depth_spec<T: NumLike>(
    model: Model<T>,
    composite: Seq<Seq<T>>,
    n: int,
    x: int,
    y: int,
) -> T
    decreases n,
{
    if n <= 0 {
        far_spec::<T>()
    } else {
        let before = light_depth_spec(model, composite, n - 1, x, y);
        let clip = face_clip_spec(model, composite, (n - 1) as usize);
        if draws_at(clip, WIDTH as int, HEIGHT as int, x, y, before) {
            pixel_depth_spec(clip, x, y)
        } else {
            before
        }
    }
}

/// The three corners of the face `f` of the mesh on the screen, under the transform
/// `composite`: a row of the three for each of x, y and depth.
pub open spec fn face_screen_spec<T: NumLike>(model: Model<T>, composite: Seq<Seq<T>>, f: usize) -> Seq<
    Seq<T>,
> {
    let clip = face_clip_spec(model, composite, f);
    Seq::new(3, |r: int| Seq::new(3, |k: int| clip[k][r].over_spec(clip[k][3])))
}

/// The pixel and the depth, on the screen of the light at `sun`, of the pixel
/// `(x, y)` of the face `f` of the mesh as the camera at `eye` sees it.
pub open spec fn face_light_view_spec<T: NumLike>(
    model: Model<T>,
    eye: Seq<T>,
    sun: Seq<T>,
    f: int,
    x: int,
    y: int,
) -> (int, int, T) {
    let composite = scene_composite_spec(eye);
    light_view_spec(
        face_screen_spec(model, composite, f as usize),
        shadow_transform_spec(eye, sun),
        pixel_weights_spec(face_clip_spec(model, composite, f as usize), x, y),
    )
}

/// What the shader of the second pass returns for the pixel `(x, y)` of the face `f`
/// of the mesh, seen from `eye` in the light from `sun`, with the shadows of the
/// whole mesh.
pub open spec fn face_outcome_spec<T: FloatLike>(
    model: Model<T>,
    eye: Seq<T>,
    sun: Seq<T>,
    f: int,
    x: int,
    y: int,
) -> Result<Option<Color>, RenderError> {
    let at = face_light_view_spec(model, eye, sun, f, x, y);
    shadowed_outcome_spec(
        model,
        face_uv_spec(model, f as usize),
        scene_uniform_spec(eye),
        invert_transpose_spec(scene_uniform_spec(eye)),
        normalize_spec(sun),
        pixel_weights_spec(face_clip_spec(model, scene_composite_spec(eye), f as usize), x, y),
        0 <= at.0 < WIDTH && 0 <= at.1 < HEIGHT,
        shadow_factor_spec(
            light_depth_spec(
                model,
                light_composite_spec(sun),
                model.faces@.len() as int,
                at.0,
                at.1,
            ),
            at.2,
        ),
    )
}

/// Whether `c` is the color that the face `f` of the mesh has at the pixel `(x, y)`,
/// seen from `eye` in the light from `sun`.
pub open spec fn face_fits<T: FloatLike>(
    model: Model<T>,
    eye: Seq<T>,
    sun: Seq<T>,
    f: int,
    x: int,
    y: int,
    c: Color,
) -> bool {
    face_outcome_spec(model, eye, sun, f, x, y) == Ok::<Option<Color>, RenderError>(Some(c))
}

/// The face that shows at the pixel `(x, y)` once the second pass has drawn the
/// first `n` faces of the mesh, and the depth there: the last face that is drawn at
/// the pixel, with its depth; before any face, no face, which is -1, at the far
/// depth.
pub open spec fn shown_face_spec<T: FloatLike>(
    model: Model<T>,
    eye: Seq<T>,
    sun: Seq<T>,
    n: int,
    x: int,
    y: int,
) -> (int, T)
    decreases n,
{
    if n <= 0 {
        (-1, far_spec::<T>())
    } else {
        let before = shown_face_spec(model, eye, sun, n - 1, x, y);
        let clip = face_clip_spec(model, scene_composite_spec(eye), (n - 1) as usize);
        if draws_at(clip, WIDTH as int, HEIGHT as int, x, y, before.1) && face_outcome_spec(
            model,
            eye,
            sun,
            n - 1,
            x,
            y,
        ) matches Ok(Some(_)) {
            (n - 1, pixel_depth_spec(clip, x, y))
        } else {
            before
        }
    }
}

/// Whether `c` is the color of the pixel `(x, y)` once the second pass has drawn the
/// first `n` faces of the mesh: the color of the face that shows there, and opaque
/// black where none does.
pub open spec fn pixel_fits<T: FloatLike>(
    model: Model<T>,
    eye: Seq<T>,
    sun: Seq<T>,
    n: int,
    x: int,
    y: int,
    c: Color,
) -> bool {
    let f = shown_face_spec(model, eye, sun, n, x, y).0;
    if f < 0 {
        c == [0u8, 0u8, 0u8, 255u8]
    } else {
        face_fits(model, eye, sun, f, x, y, c)
    }
}

/// The color of the pixel `(x, y)` once the second pass has drawn the first `n`
/// faces of the mesh, seen from `eye` in the light from `sun`: the color of the face
/// that shows there, and opaque black where none does.
pub open spec fn pixel_color_spec<T: FloatLike>(
    model: Model<T>,
    eye: Seq<T>,
    sun: Seq<T>,
    n: int,
    x: int,
    y: int,
) -> Color {
    let f = shown_face_spec(model, eye, sun, n, x, y).0;
    if f < 0 {
        [0u8, 0u8, 0u8, 255u8]
    } else {
        face_outcome_spec(model, eye, sun, f, x, y)->Ok_0->0
    }
}

/// Whether the second pass draws the face `f` of the mesh at the pixel `(x, y)` of
/// the frame, after the faces before it, where the shader fails.
pub open spec fn misses_shadow<T: FloatLike>(
    model: Model<T>,
    eye: Seq<T>,
    sun: Seq<T>,
    f: int,
    x: int,
    y: int,
) -> bool {
    &&& 0 <= x < WIDTH && 0 <= y < HEIGHT
    &&& draws_at(
        face_clip_spec(model, scene_composite_spec(eye), f as usize),
        WIDTH as int,
        HEIGHT as int,
        x,
        y,
        shown_face_spec(model, eye, sun, f, x, y).1,
    )
    &&& face_outcome_spec(model, eye, sun, f, x, y) is Err
}

/// Whether the shader of the second pass succeeds wherever one of the first `n`
/// faces of the mesh is drawn.
pub open spec fn shadows_well<T: FloatLike>(model: Model<T>, eye: Seq<T>, sun: Seq<T>, n: int) -> bool {
    forall|f: int, x: int, y: int|
        0 <= f < n ==> !#[trigger] misses_shadow(model, eye, sun, f, x, y)
}

/// The depths of the mesh as the light of the scene `light_gl` sees it.
fn light_pass<T: NumLike>(model: &Model<T>, light_gl: &GL<T>) -> (r: Result<
    DepthBuffer<T>,
    RenderError,
>)
    requires
        model.wf(),
        light_gl.wf(),
        usable::<T>(),
    ensures
        r matches Ok(depths) ==> depths.wf() && depths.spec_width() == WIDTH
            && depths.spec_height() == HEIGHT,
        T::obeys_num_spec() ==> r is Ok,
        T::obeys_num_spec() ==> (r matches Ok(depths) ==> forall|x: int, y: int|
            depths.contains(x, y) ==> (#[trigger] depths.depth_at(x, y)) == light_depth_spec(
                *model,
                light_gl.composite_spec(),
                model.faces@.len() as int,
                x,
                y,
            )),
{
    let ghost composite = light_gl.composite_spec();
    let (mut img, mut zbuf) = blank_frame::<T>();
    let mut shader = DepthShader::new(light_gl, model);
    let nfaces = model.nfaces();
    let mut i: usize = 0;
    while i < nfaces
        invariant
            i <= nfaces,
            nfaces == model.faces@.len(),
            model.wf(),
            light_gl.wf(),
            zbuf.wf(),
            usable::<T>(),
            shader.shader_req(),
            T::obeys_num_spec() ==> shader.gl == light_gl && shader.model == model,
            forall|f: usize, n: usize| shader.has_vertex(f, n) == (n < 3 && model.has_corner(f, n)),
            composite == light_gl.composite_spec(),
            img.spec_width() == WIDTH && img.spec_height() == HEIGHT,
            zbuf.spec_width() == WIDTH && zbuf.spec_height() == HEIGHT,
            T::obeys_num_spec() ==> forall|x: int, y: int|
                img.contains(x, y) ==> (#[trigger] zbuf.depth_at(x, y)) == light_depth_spec(
                    *model,
                    composite,
                    i as int,
                    x,
                    y,
                ),
        decreases nfaces - i,
    {
        let c0 = match shader.vertex(i, 0) {
            Ok(c) => c,
            Err(e) => {
                return Err(e);
            },
        };
        let c1 = match shader.vertex(i, 1) {
            Ok(c) => c,
            Err(e) => {
                return Err(e);
            },
        };
        let c2 = match shader.vertex(i, 2) {
            Ok(c) => c,
            Err(e) => {
                return Err(e);
            },
        };
        let pts = [c0, c1, c2];
        assert(T::obeys_num_spec() ==> points_view(pts) =~~= face_clip_spec(*model, composite, i));
        let ghost start = shader;
        match light_gl.triangle(pts, &mut shader, &mut img, &mut zbuf) {
            Ok(()) => {},
            Err(e) => {
                return Err(e);
            },
        }
        proof {
            if T::obeys_num_spec() {
                let clip = face_clip_spec(*model, composite, i);
                assert forall|x: int, y: int| img.contains(x, y) implies paints_at(
                    start,
                    clip,
                    WIDTH as int,
                    HEIGHT as int,
                    x,
                    y,
                    light_depth_spec(*model, composite, i as int, x, y),
                ) == draws_at(
                    clip,
                    WIDTH as int,
                    HEIGHT as int,
                    x,
                    y,
                    light_depth_spec(*model, composite, i as int, x, y),
                ) by {}
            }
        }
        i += 1;
    }
    Ok(zbuf)
}

/// Renders the textured mesh with shadows, seen from (1, 1, 3) in the light from
/// (1, 1, 1), with the first row of the canvas at the top of the picture. The first
/// pass draws the mesh as the light sees it, without perspective, and keeps the
/// depths; the second draws it as the camera sees it and looks each fragment up in
/// those depths. A transform that cannot be inverted, or a fragment for which the
/// shader fails, ends the render.
pub fn shadow_mapping_render<T: FloatLike>(model: &Model<T>) -> (r: Result<Canvas, RenderError>)
    requires
        model.wf(),
        usable::<T>(),
    ensures
        r matches Ok(img) ==> img.spec_width() == WIDTH && img.spec_height() == HEIGHT,
        T::obeys_num_spec() ==> (r matches Err(e) ==> e == RenderError::ZeroNorm || e
            == RenderError::SingularMatrix || e == RenderError::SampleOutOfRange),
        T::obeys_num_spec() ==> (r is Ok <==> !scene_fails_spec(
            vec3_spec::<T>(1, 1, 1),
            vec3_spec::<T>(1, 1, 1),
        ) && !scene_fails_spec(vec3_spec::<T>(1, 1, 3), vec3_spec::<T>(1, 1, 1)) && !singular_spec(
            scene_composite_spec(vec3_spec::<T>(1, 1, 3)),
        ) && !singular_spec(scene_uniform_spec(vec3_spec::<T>(1, 1, 3))) && shadows_well(
            *model,
            vec3_spec::<T>(1, 1, 3),
            vec3_spec::<T>(1, 1, 1),
            model.faces@.len() as int,
        )),
        T::obeys_num_spec() && r is Ok ==> forall|x: int, y: int|
            r->Ok_0.contains(x, y) ==> (#[trigger] r->Ok_0.color_at(x, y)) == pixel_color_spec(
                *model,
                vec3_spec::<T>(1, 1, 3),
                vec3_spec::<T>(1, 1, 1),
                model.faces@.len() as int,
                x,
                HEIGHT - 1 - y,
            ),
{
    let ghost eye = vec3_spec::<T>(1, 1, 3);
    let ghost sun = vec3_spec::<T>(1, 1, 1);
    let mut light_gl = match scene(vec3(1, 1, 1), vec3(1, 1, 1)) {
        Ok(gl) => gl,
        Err(e) => {
            return Err(e);
        },
    };
    light_gl.projection(T::zero());
    assert(T::obeys_num_spec() ==> light_gl.projection@ =~~= identity_spec::<T>(4));
    let shadow_buffer = match light_pass(model, &light_gl) {
        Ok(depths) => depths,
        Err(e) => {
            return Err(e);
        },
    };
    let gl = match scene(vec3(1, 1, 3), vec3(1, 1, 1)) {
        Ok(gl) => gl,
        Err(e) => {
            return Err(e);
        },
    };
    let ghost light = gl.light_dir@;
    let ghost composite = gl.composite_spec();
    let to_light = light_gl.composite();
    let to_screen = gl.composite();
    proof {
        if T::obeys_num_spec() {
            let one = T::one_spec();
            lemma_total_matrices(to_screen@, to_screen@, 4, seq![one], one);
            lemma_total_matrices(
                to_light@,
                transpose_spec(invert_transpose_spec(to_screen@), 4),
                4,
                seq![one],
                one,
            );
        }
    }
    let from_screen = match to_screen.invert() {
        Ok(m) => m,
        Err(e) => {
            return Err(e);
        },
    };
    let (mut img, mut zbuf) = blank_frame::<T>();
    let mut shader = Pass2Shader::new(&gl, model, &shadow_buffer);
    match to_light.mul_mat(&from_screen) {
        Ok(m) => {
            shader.uniform_m_shadow = m;
        },
        Err(e) => {
            return Err(e);
        },
    }
    match uniforms(&gl) {
        Ok(u) => {
            shader.uniform_m = u.0;
            shader.uniform_m_it = u.1;
        },
        Err(e) => {
            return Err(e);
        },
    }
    let nfaces = model.nfaces();
    let mut i: usize = 0;
    while i < nfaces
        invariant
            i <= nfaces,
            nfaces == model.faces@.len(),
            model.wf(),
            gl.wf(),
            zbuf.wf(),
            shadow_buffer.wf(),
            shadow_buffer.spec_width() == WIDTH && shadow_buffer.spec_height() == HEIGHT,
            usable::<T>(),
            shader.shader_req(),
            T::obeys_num_spec() ==> shader.gl == &gl && shader.model == model
                && shader.shadow_buffer == &shadow_buffer,
            T::obeys_num_spec() ==> shader.uniform_m@ == scene_uniform_spec(eye)
                && shader.uniform_m_it@ == invert_transpose_spec(scene_uniform_spec(eye))
                && shader.uniform_m_shadow@ == shadow_transform_spec(eye, sun),
            forall|f: usize, n: usize| shader.has_vertex(f, n) == (n < 3 && model.has_corner(f, n)),
            eye == vec3_spec::<T>(1, 1, 3),
            sun == vec3_spec::<T>(1, 1, 1),
            composite == gl.composite_spec(),
            light == gl.light_dir@,
            T::obeys_num_spec() ==> composite == scene_composite_spec(eye),
            T::obeys_num_spec() ==> light == normalize_spec(sun),
            T::obeys_num_spec() ==> forall|x: int, y: int|
                shadow_buffer.contains(x, y) ==> (#[trigger] shadow_buffer.depth_at(x, y))
                    == light_depth_spec(
                    *model,
                    light_composite_spec(sun),
                    model.faces@.len() as int,
                    x,
                    y,
                ),
            T::obeys_num_spec() ==> shadows_well(*model, eye, sun, i as int),
            img.spec_width() == WIDTH && img.spec_height() == HEIGHT,
            zbuf.spec_width() == WIDTH && zbuf.spec_height() == HEIGHT,
            T::obeys_num_spec() ==> forall|x: int, y: int|
                img.contains(x, y) ==> pixel_fits(
                    *model,
                    eye,
                    sun,
                    i as int,
                    x,
                    y,
                    #[trigger] img.color_at(x, y),
                ),
            T::obeys_num_spec() ==> forall|x: int, y: int|
                img.contains(x, y) ==> (#[trigger] zbuf.depth_at(x, y)) == shown_face_spec(
                    *model,
                    eye,
                    sun,
                    i as int,
                    x,
                    y,
                ).1,
        decreases nfaces - i,
    {
        let c0 = match shader.vertex(i, 0) {
            Ok(c) => c,
            Err(e) => {
                return Err(e);
            },
        };
        let c1 = match shader.vertex(i, 1) {
            Ok(c) => c,
            Err(e) => {
                return Err(e);
            },
        };
        let c2 = match shader.vertex(i, 2) {
            Ok(c) => c,
            Err(e) => {
                return Err(e);
            },
        };
        let pts = [c0, c1, c2];
        proof {
            if T::obeys_num_spec() {
                assert(points_view(pts) =~~= face_clip_spec(*model, composite, i));
                assert(shader.varying_uv@ =~~= face_uv_spec(*model, i));
                assert(shader.varying_tri@ =~~= face_screen_spec(*model, composite, i));
            }
        }
        let ghost start = shader;
        let ghost img_before = img;
        let ghost zbuf_before = zbuf;
        proof {
            if T::obeys_num_spec() {
                let clip = face_clip_spec(*model, composite, i);
                assert forall|x: int, y: int| #[trigger]
                    shaded_spec(start, clip, x, y) == face_outcome_spec(
                        *model,
                        eye,
                        sun,
                        i as int,
                        x,
                        y,
                    ) by {}
            }
        }
        match gl.triangle(pts, &mut shader, &mut img, &mut zbuf) {
            Ok(()) => {},
            Err(e) => {
                proof {
                    if T::obeys_num_spec() {
                        let clip = face_clip_spec(*model, composite, i);
                        let (x, y) = choose|x: int, y: int|
                            img_before.contains(x, y) && draws_at(
                                clip,
                                WIDTH as int,
                                HEIGHT as int,
                                x,
                                y,
                                zbuf_before.depth_at(x, y),
                            ) && !(#[trigger] shaded_spec(start, clip, x, y) is Ok);
                        assert(misses_shadow(*model, eye, sun, i as int, x, y));
                    }
                }
                return Err(e);
            },
        }
        proof {
            if T::obeys_num_spec() {
                let clip = face_clip_spec(*model, composite, i);
                assert forall|f: int, x: int, y: int| 0 <= f < i + 1 implies !#[trigger] misses_shadow(
                    *model,
                    eye,
                    sun,
                    f,
                    x,
                    y,
                ) by {
                    if f == i && misses_shadow(*model, eye, sun, f, x, y) {
                        assert(img_before.contains(x, y));
                        assert(shaded_spec(start, clip, x, y) is Ok);
                    }
                }
                assert forall|x: int, y: int| img.contains(x, y) implies paints_at(
                    start,
                    clip,
                    WIDTH as int,
                    HEIGHT as int,
                    x,
                    y,
                    shown_face_spec(*model, eye, sun, i as int, x, y).1,
                ) == (draws_at(
                    clip,
                    WIDTH as int,
                    HEIGHT as int,
                    x,
                    y,
                    shown_face_spec(*model, eye, sun, i as int, x, y).1,
                ) && face_outcome_spec(*model, eye, sun, i as int, x, y) matches Ok(Some(_))) by {
                    assert(shaded_spec(start, clip, x, y) == face_outcome_spec(
                        *model,
                        eye,
                        sun,
                        i as int,
                        x,
                        y,
                    ));
                }
                assert forall|x: int, y: int| img.contains(x, y) implies pixel_fits(
                    *model,
                    eye,
                    sun,
                    i + 1,
                    x,
                    y,
                    #[trigger] img.color_at(x, y),
                ) by {
                    assert(img_before.contains(x, y));
                    assert(pixel_fits(*model, eye, sun, i as int, x, y, img_before.color_at(x, y)));
                    if paints_at(
                        start,
                        clip,
                        WIDTH as int,
                        HEIGHT as int,
                        x,
                        y,
                        zbuf_before.depth_at(x, y),
                    ) {
                        assert(img.color_at(x, y) == shaded_spec(start, clip, x, y)->Ok_0->0);
                        let at = face_light_view_spec(*model, eye, sun, i as int, x, y);
                        assert(shaded_spec(start, clip, x, y) == face_outcome_spec(
                            *model,
                            eye,
                            sun,
                            i as int,
                            x,
                            y,
                        ));
                        assert(shadow_buffer.contains(at.0, at.1));
                        assert(face_fits(*model, eye, sun, i as int, x, y, img.color_at(x, y)));
                    }
                }
            }
        }
        i += 1;
    }
    let ghost drawn = img;
    img.flip_vertical();
    proof {
        if T::obeys_num_spec() {
            assert forall|x: int, y: int| img.contains(x, y) implies (#[trigger] img.color_at(x, y))
                == pixel_color_spec(
                *model,
                vec3_spec::<T>(1, 1, 3),
                vec3_spec::<T>(1, 1, 1),
                model.faces@.len() as int,
                x,
                HEIGHT - 1 - y,
            ) by {
                assert(drawn.contains(x, HEIGHT - 1 - y));
                assert(img.color_at(x, y) == drawn.color_at(x, HEIGHT - 1 - y));
                assert(pixel_fits(
                    *model,
                    eye,
                    sun,
                    nfaces as int,
                    x,
                    HEIGHT - 1 - y,
                    drawn.color_at(x, HEIGHT - 1 - y),
                ));
            }
        }
    }
    Ok(img)
}

} // verus!
