//! Shading of a textured mesh with a normal map and a specular map.
use crate::error::RenderError;
use crate::framebuffer::{Canvas, Color};
use crate::geometry::{
    dot_spec, lemma_total_vectors, minus_spec_all, norm_spec, normalize_spec, points_view, repeat,
    times_spec_all, Vec3, Vec4, Vec_,
};
use crate::gl::{
    draws_at, paints_at, pixel_depth_spec, pixel_weights_spec, shaded_spec, IShader, GL,
};
use crate::matrix::{invert_transpose_spec, mul_vec_spec, singular_spec, Mat};
use crate::model::{samples_inside, texel_normal_spec, texel_spec, Model};
use crate::shaders::gouraud6l::{lit, lit_spec};
use crate::shaders::normalmapping::vanishes;
use crate::shaders::{
    blank_frame, face_clip_spec, face_uv_spec, far_spec, interpolate, is_transform, is_varying,
    scene, scene_composite_spec, scene_fails_spec, scene_uniform_spec, set_varying,
    transform_direction, transformed_spec, uniforms, vec3, vec3_spec, HEIGHT, WIDTH,
};
use crate::util::{
    maxf, maxf_spec, ratio, ratio_spec, to_channel, to_channel_spec, usable, FloatLike, NumLike,
    RgbaImageExt,
};
use vstd::prelude::*;

verus! {

/// The shader of the specular map: it keeps the texture coordinates at the three
/// corners of the face, and the transforms for normals and for the light.
pub struct SpecularMappingShader<'a, T: NumLike> {
    pub gl: &'a GL<T>,
    /// Two rows and three columns: the texture coordinates of each corner.
    pub varying_uv: Mat<T>,
    /// Projection times view.
    pub uniform_m: Mat<T>,
    /// The transposed inverse of projection times view.
    pub uniform_m_it: Mat<T>,
    pub model: &'a Model<T>,
}

/// The direction of the light `l` mirrored at a surface with the normal `n`, before
/// it is normalized: `n` times twice the dot product of the two, minus `l`.
pub open spec fn mirrored_spec<T: NumLike>(n: Seq<T>, l: Seq<T>) -> Seq<T> {
    minus_spec_all(
        times_spec_all(n, repeat(dot_spec(n, l, 3).times_spec(T::from_i32_spec(2i32)), 3)),
        l,
    )
}

/// The direction of the light `l` mirrored at a surface with the normal `n`,
/// normalized.
pub fn mirrored<T: NumLike>(n: &Vec3<T>, l: &Vec3<T>) -> (r: Result<Vec3<T>, RenderError>)
    requires
        usable::<T>(),
    ensures
        r matches Err(e) ==> e == RenderError::ZeroNorm,
        T::obeys_num_spec() ==> (r is Err <==> norm_spec(mirrored_spec(n@, l@)).equals_spec(
            T::zero_spec(),
        )),
        T::obeys_num_spec() ==> (r matches Ok(m) ==> m@ == normalize_spec(mirrored_spec(n@, l@))),
{
    proof {
        if T::obeys_num_spec() {
            lemma_total_vectors(n@, l@, 3);
            let k = dot_spec(n@, l@, 3).times_spec(T::from_i32_spec(2i32));
            lemma_total_vectors(n@, repeat(k, 3), 3);
            lemma_total_vectors(times_spec_all(n@, repeat(k, 3)), l@, 3);
            lemma_total_vectors(mirrored_spec(n@, l@), l@, 3);
        }
    }
    let mut m = n.scale(n.dot(l).times(T::from_i32(2))).minus(l);
    m.normalize()
}

/// One channel of the lit color: the channel times the sum of the diffuse light and
/// six tenths of the highlight, its fraction cut off, plus 5, and no more than 255.
pub open spec fn lit_channel_spec<T: NumLike>(channel: u8, diff: T, spec: T) -> u8 {
    let light = diff.plus_spec(ratio_spec::<T>(6, 10).times_spec(spec));
    let level = 5 + to_channel_spec(T::from_i32_spec(channel as i32).times_spec(light));
    if level > 255 {
        255u8
    } else {
        level as u8
    }
}

/// The lit color: each of red, green and blue lit by the diffuse light `diff` and
/// the highlight `spec`, and opaque.
pub open spec fn lit_color_spec<T: NumLike>(c: Color, diff: T, spec: T) -> Color {
    [
        lit_channel_spec(c@[0], diff, spec),
        lit_channel_spec(c@[1], diff, spec),
        lit_channel_spec(c@[2], diff, spec),
        255u8,
    ]
}

/// One channel of the lit color.
fn lit_channel<T: NumLike>(channel: u8, diff: T, spec: T) -> (r: u8)
    requires
        usable::<T>(),
    ensures
        T::obeys_num_spec() ==> r == lit_channel_spec(channel, diff, spec),
{
    let light = diff.plus(ratio::<T>(6, 10).times(spec));
    let level: u16 = 5 + to_channel(T::from_i32(channel as i32).times(light)) as u16;
    if level > 255 {
        255
    } else {
        level as u8
    }
}

/// The color `c` lit by the diffuse light `diff` and the highlight `spec`.
pub fn lit_color<T: NumLike>(c: Color, diff: T, spec: T) -> (r: Color)
    requires
        usable::<T>(),
    ensures
        T::obeys_num_spec() ==> r == lit_color_spec(c, diff, spec),
{
    [
        lit_channel(c[0], diff, spec),
        lit_channel(c[1], diff, spec),
        lit_channel(c[2], diff, spec),
        255,
    ]
}

impl<'a, T: NumLike> SpecularMappingShader<'a, T> {
    /// The shader for the mesh `model` in the scene `gl`, with no varyings yet and
    /// the identity for both transforms.
    pub fn new(gl: &'a GL<T>, model: &'a Model<T>) -> (r: Self)
        ensures
            r.gl == gl,
            r.model == model,
            is_varying(r.varying_uv, 2),
            is_transform(r.uniform_m),
            is_transform(r.uniform_m_it),
    {
        SpecularMappingShader {
            gl,
            varying_uv: Mat::new(2, 3),
            uniform_m: Mat::identity(4),
            uniform_m_it: Mat::identity(4),
            model,
        }
    }
}

/// The normal of a fragment at the texture coordinates `at`: that of the normal map
/// there under the transform `m`, normalized.
pub open spec fn fragment_normal_spec<T: NumLike>(model: Model<T>, m: Seq<Seq<T>>, at: Seq<T>) -> Seq<
    T,
> {
    normalize_spec(
        transformed_spec(m, texel_normal_spec::<T>(texel_spec(model.normal_map, at[0], at[1]))),
    )
}

/// The highlight of a fragment at the texture coordinates `at`: the z of the light
/// mirrored at its normal, or zero where that is below, raised to the power that the
/// red channel of the specular map gives there.
pub open spec fn highlight_spec<T: FloatLike>(
    model: Model<T>,
    m: Seq<Seq<T>>,
    m_it: Seq<Seq<T>>,
    light: Seq<T>,
    at: Seq<T>,
) -> T {
    let n = fragment_normal_spec(model, m, at);
    let l = normalize_spec(transformed_spec(m_it, light));
    maxf_spec(normalize_spec(mirrored_spec(n, l))[2], T::zero_spec()).powf_spec(
        T::from_i32_spec(texel_spec(model.specular_map, at[0], at[1])@[0] as i32).over_spec(
            T::one_spec(),
        ),
    )
}

/// Why the shader fails for a fragment with the weights `bc` on a face with the
/// texture coordinates `uv` at its corners, under the transform `m` for normals and
/// `m_it` for the light `light`, if it does: the texture coordinates of the fragment
/// sample nothing of the normal map; its normal, the light or the mirrored light
/// vanishes; or the coordinates sample nothing of the specular map or of the diffuse
/// map, whichever comes first.
pub open spec fn highlit_failure_spec<T: NumLike>(
    model: Model<T>,
    uv: Seq<Seq<T>>,
    m: Seq<Seq<T>>,
    m_it: Seq<Seq<T>>,
    light: Seq<T>,
    bc: Seq<T>,
) -> Option<RenderError> {
    let at = mul_vec_spec(uv, bc);
    let n = fragment_normal_spec(model, m, at);
    let l = normalize_spec(transformed_spec(m_it, light));
    if !samples_inside(model.normal_map, at[0], at[1]) {
        Some(RenderError::SampleOutOfRange)
    } else if vanishes(
        m,
        texel_normal_spec::<T>(texel_spec(model.normal_map, at[0], at[1])),
    ) || vanishes(m_it, light) || norm_spec(mirrored_spec(n, l)).equals_spec(T::zero_spec()) {
        Some(RenderError::ZeroNorm)
    } else if !samples_inside(model.specular_map, at[0], at[1]) || !samples_inside(
        model.diffuse_map,
        at[0],
        at[1],
    ) {
        Some(RenderError::SampleOutOfRange)
    } else {
        None
    }
}

/// What the shader returns for a fragment with the weights `bc`: its failure, or the
/// texel of the diffuse map at its texture coordinates, lit by the light on its
/// normal and by its highlight.
pub open spec fn highlit_outcome_spec<T: FloatLike>(
    model: Model<T>,
    uv: Seq<Seq<T>>,
    m: Seq<Seq<T>>,
    m_it: Seq<Seq<T>>,
    light: Seq<T>,
    bc: Seq<T>,
) -> Result<Option<Color>, RenderError> {
    let at = mul_vec_spec(uv, bc);
    match highlit_failure_spec(model, uv, m, m_it, light, bc) {
        Some(e) => Err(e),
        None => Ok(
            Some(
                lit_color_spec(
                    texel_spec(model.diffuse_map, at[0], at[1]),
                    lit_spec(
                        fragment_normal_spec(model, m, at),
                        normalize_spec(transformed_spec(m_it, light)),
                    ),
                    highlight_spec(model, m, m_it, light, at),
                ),
            ),
        ),
    }
}

impl<'a, T: FloatLike> IShader<T> for SpecularMappingShader<'a, T> {
    open spec fn shader_req(&self) -> bool {
        &&& self.gl.wf()
        &&& self.model.wf()
        &&& is_varying(self.varying_uv, 2)
        &&& is_transform(self.uniform_m)
        &&& is_transform(self.uniform_m_it)
        &&& usable::<T>()
    }

    open spec fn has_vertex(&self, iface: usize, nthvert: usize) -> bool {
        nthvert < 3 && self.model.has_corner(iface, nthvert)
    }

    open spec fn obeys_shader_spec() -> bool {
        true
    }

    /// What the shader returns for the fragment.
    open spec fn fragment_spec(&self, bc: Seq<T>) -> Result<Option<Color>, RenderError> {
        highlit_outcome_spec(
            *self.model,
            self.varying_uv@,
            self.uniform_m@,
            self.uniform_m_it@,
            self.gl.light_dir@,
            bc,
        )
    }

    /// Keeps the texture coordinates at the corner and returns the corner in clip
    /// space.
    fn vertex(&mut self, iface: usize, nthvert: usize) -> (r: Result<Vec4<T>, RenderError>)
        ensures
            final(self).gl == old(self).gl,
            final(self).model == old(self).model,
            final(self).uniform_m == old(self).uniform_m,
            final(self).uniform_m_it == old(self).uniform_m_it,
            r is Ok <==> old(self).has_vertex(iface, nthvert),
            r matches Err(e) ==> e == RenderError::DimensionMismatch && *final(self) == *old(self),
            T::obeys_num_spec() ==> (r matches Ok(p) ==> ({
                let corner = old(self).model.corner(iface, nthvert);
                &&& p@ == old(self).gl.clip_spec(old(self).model.verts@[corner[0] as int]@)
                &&& final(self).varying_uv@ == crate::matrix::with_column_spec(
                    old(self).varying_uv@,
                    nthvert as int,
                    old(self).model.uvs@[corner[1] as int]@,
                )
            })),
    {
        if nthvert >= 3 {
            return Err(RenderError::DimensionMismatch);
        }
        let uv = match self.model.uv(iface, nthvert) {
            Ok(uv) => uv,
            Err(e) => {
                return Err(e);
            },
        };
        let position = match self.model.vert_by(iface, nthvert) {
            Ok(v) => v,
            Err(e) => {
                return Err(e);
            },
        };
        set_varying(&mut self.varying_uv, nthvert, &uv.to_vec());
        Ok(self.gl.to_clip(&position))
    }

    /// The color of the fragment: the texel of the diffuse map at its texture
    /// coordinates, lit by the light on the normal of the normal map and by a
    /// highlight. The highlight is the z of the mirrored light, or zero where that
    /// is below, raised to the power that the specular map gives. Where the
    /// coordinates sample nothing or a direction vanishes, the call fails.
    fn fragment(&mut self, bc: Vec3<T>, gl_fragcoord: Vec3<T>) -> (r: Result<
        Option<Color>,
        RenderError,
    >)
        ensures
            *final(self) == *old(self),
            r matches Ok(c) ==> c is Some,
            r matches Err(e) ==> e == RenderError::SampleOutOfRange || e == RenderError::ZeroNorm,
            T::obeys_num_spec() ==> r == highlit_outcome_spec(
                *old(self).model,
                old(self).varying_uv@,
                old(self).uniform_m@,
                old(self).uniform_m_it@,
                old(self).gl.light_dir@,
                bc@,
            ),
    {
        let uv = interpolate(&self.varying_uv, &bc);
        let mapped = match self.model.norm_by(Vec_ { data: [uv[0], uv[1]] }) {
            Ok(mapped) => mapped,
            Err(e) => {
                return Err(e);
            },
        };
        let n = match transform_direction(&self.uniform_m, &mapped) {
            Ok(n) => n,
            Err(e) => {
                return Err(e);
            },
        };
        let l = match transform_direction(&self.uniform_m_it, &self.gl.light_dir) {
            Ok(l) => l,
            Err(e) => {
                return Err(e);
            },
        };
        let mirror = match mirrored(&n, &l) {
            Ok(mirror) => mirror,
            Err(e) => {
                return Err(e);
            },
        };
        let exponent = match self.model.specular(uv[0], uv[1]) {
            Ok(exponent) => exponent,
            Err(e) => {
                return Err(e);
            },
        };
        let spec = maxf(mirror.data[2], T::zero()).powf(exponent);
        let diff = lit(&n, &l);
        match self.model.diffuse(uv[0], uv[1]) {
            Ok(color) => {
                let c = lit_color(color, diff, spec);
                assert(T::obeys_num_spec() ==> c == lit_color_spec(
                    texel_spec(self.model.diffuse_map, uv@[0], uv@[1]),
                    lit_spec(
                        fragment_normal_spec(*self.model, self.uniform_m@, uv@),
                        normalize_spec(transformed_spec(self.uniform_m_it@, self.gl.light_dir@)),
                    ),
                    spec,
                ));
                Ok(Some(c))
            },
            Err(e) => Err(e),
        }
    }
}

/// What the shader does with the pixel `(x, y)` of the face `f` of the mesh, seen
/// from `eye` in the light `light`.
pub open spec fn face_outcome_spec<T: FloatLike>(
    model: Model<T>,
    eye: Seq<T>,
    light: Seq<T>,
    f: int,
    x: int,
    y: int,
) -> Result<Option<Color>, RenderError> {
    highlit_outcome_spec(
        model,
        face_uv_spec(model, f as usize),
        scene_uniform_spec(eye),
        invert_transpose_spec(scene_uniform_spec(eye)),
        light,
        pixel_weights_spec(face_clip_spec(model, scene_composite_spec(eye), f as usize), x, y),
    )
}

/// Whether `c` is the color that the face `f` of the mesh has at the pixel `(x, y)`,
/// seen from `eye` in the light `light`.
pub open spec fn face_fits<T: FloatLike>(
    model: Model<T>,
    eye: Seq<T>,
    light: Seq<T>,
    f: int,
    x: int,
    y: int,
    c: Color,
) -> bool {
    face_outcome_spec(model, eye, light, f, x, y) == Ok::<Option<Color>, RenderError>(Some(c))
}

/// The face that shows at the pixel `(x, y)` once the first `n` faces of the mesh
/// are drawn, seen from `eye` in the light `light`, and the depth there: the last
/// face that is drawn at the pixel, with its depth; before any face, no face, which
/// is -1, at the far depth.
pub open spec fn shown_face_spec<T: FloatLike>(
    model: Model<T>,
    eye: Seq<T>,
    light: Seq<T>,
    n: int,
    x: int,
    y: int,
) -> (int, T)
    decreases n,
{
    if n <= 0 {
        (-1, far_spec::<T>())
    } else {
        let before = shown_face_spec(model, eye, light, n - 1, x, y);
        let clip = face_clip_spec(model, scene_composite_spec(eye), (n - 1) as usize);
        if draws_at(clip, WIDTH as int, HEIGHT as int, x, y, before.1) && face_outcome_spec(
            model,
            eye,
            light,
            n - 1,
            x,
            y,
        ) matches Ok(Some(_)) {
            (n - 1, pixel_depth_spec(clip, x, y))
        } else {
            before
        }
    }
}

/// Whether `c` is the color of the pixel `(x, y)` once the first `n` faces of the
/// mesh are drawn: the color of the face that shows there, and opaque black where
/// none does.
pub open spec fn pixel_fits<T: FloatLike>(
    model: Model<T>,
    eye: Seq<T>,
    light: Seq<T>,
    n: int,
    x: int,
    y: int,
    c: Color,
) -> bool {
    let f = shown_face_spec(model, eye, light, n, x, y).0;
    if f < 0 {
        c == [0u8, 0u8, 0u8, 255u8]
    } else {
        face_fits(model, eye, light, f, x, y, c)
    }
}

/// The color of the pixel `(x, y)` once the first `n` faces of the mesh are drawn,
/// seen from `eye` in the light `light`: the color of the face that shows there,
/// and opaque black where none does.
pub open spec fn pixel_color_spec<T: FloatLike>(
    model: Model<T>,
    eye: Seq<T>,
    light: Seq<T>,
    n: int,
    x: int,
    y: int,
) -> Color {
    let f = shown_face_spec(model, eye, light, n, x, y).0;
    if f < 0 {
        [0u8, 0u8, 0u8, 255u8]
    } else {
        face_outcome_spec(model, eye, light, f, x, y)->Ok_0->0
    }
}

/// Whether the face `f` of the mesh is drawn at the pixel `(x, y)` of the frame,
/// after the faces before it, where the shader fails.
pub open spec fn misses_highlight<T: FloatLike>(
    model: Model<T>,
    eye: Seq<T>,
    light: Seq<T>,
    f: int,
    x: int,
    y: int,
) -> bool {
    &&& 0 <= x < WIDTH && 0 <= y < HEIGHT
    &&& draws_at(
        face_clip_spec(model, scene_composite_spec(eye), f as usize),
        WIDTH as int,
        HEIGHT as int,
        x,
        y,
        shown_face_spec(model, eye, light, f, x, y).1,
    )
    &&& face_outcome_spec(model, eye, light, f, x, y) is Err
}

/// Whether the shader succeeds wherever one of the first `n` faces of the mesh is
/// drawn.
pub open spec fn highlights_well<T: FloatLike>(
    model: Model<T>,
    eye: Seq<T>,
    light: Seq<T>,
    n: int,
) -> bool {
    forall|f: int, x: int, y: int|
        0 <= f < n ==> !#[trigger] misses_highlight(model, eye, light, f, x, y)
}

/// Renders the textured mesh with the normals of its normal map and the highlights
/// of its specular map, seen from (1, 1, 3) in the light from (1, 1, 1), with the
/// first row of the canvas at the top of the picture. A transform that cannot be
/// inverted, or a fragment for which the shader fails, ends the render.
pub fn specular_mapping_render<T: FloatLike>(model: &Model<T>) -> (r: Result<Canvas, RenderError>)
    requires
        model.wf(),
        usable::<T>(),
    ensures
        r matches Ok(img) ==> img.spec_width() == WIDTH && img.spec_height() == HEIGHT,
        T::obeys_num_spec() ==> (r matches Err(e) ==> e == RenderError::ZeroNorm || e
            == RenderError::SingularMatrix || e == RenderError::SampleOutOfRange),
        T::obeys_num_spec() ==> (r is Ok <==> !scene_fails_spec(
            vec3_spec::<T>(1, 1, 3),
            vec3_spec::<T>(1, 1, 1),
        ) && !singular_spec(scene_uniform_spec(vec3_spec::<T>(1, 1, 3))) && highlights_well(
            *model,
            vec3_spec::<T>(1, 1, 3),
            normalize_spec(vec3_spec::<T>(1, 1, 1)),
            model.faces@.len() as int,
        )),
        T::obeys_num_spec() && r is Ok ==> forall|x: int, y: int|
            r->Ok_0.contains(x, y) ==> (#[trigger] r->Ok_0.color_at(x, y)) == pixel_color_spec(
                *model,
                vec3_spec::<T>(1, 1, 3),
                normalize_spec(vec3_spec::<T>(1, 1, 1)),
                model.faces@.len() as int,
                x,
                HEIGHT - 1 - y,
            ),
{
    let gl = match scene(vec3(1, 1, 3), vec3(1, 1, 1)) {
        Ok(gl) => gl,
        Err(e) => {
            return Err(e);
        },
    };
    let ghost eye = vec3_spec::<T>(1, 1, 3);
    let ghost light = gl.light_dir@;
    let ghost composite = gl.composite_spec();
    let (mut img, mut zbuf) = blank_frame::<T>();
    let mut shader = SpecularMappingShader::new(&gl, model);
    match uniforms(&gl) {
        Ok(u) => {
            shader.uniform_m = u.0;
            shader.uniform_m_it = u.1;
        },
        Err(e) => {
            return Err(e);
        },
    }
    let nfaces = model.nfaces();
    let mut i: usize = 0;
    while i < nfaces
        invariant
            i <= nfaces,
            nfaces == model.faces@.len(),
            model.wf(),
            gl.wf(),
            zbuf.wf(),
            usable::<T>(),
            shader.shader_req(),
            T::obeys_num_spec() ==> shader.gl == &gl && shader.model == model,
            T::obeys_num_spec() ==> shader.uniform_m@ == scene_uniform_spec(eye)
                && shader.uniform_m_it@ == invert_transpose_spec(scene_uniform_spec(eye)),
            forall|f: usize, n: usize| shader.has_vertex(f, n) == (n < 3 && model.has_corner(f, n)),
            eye == vec3_spec::<T>(1, 1, 3),
            composite == gl.composite_spec(),
            light == gl.light_dir@,
            T::obeys_num_spec() ==> composite == scene_composite_spec(eye),
            T::obeys_num_spec() ==> light == normalize_spec(vec3_spec::<T>(1, 1, 1)),
            T::obeys_num_spec() ==> highlights_well(*model, eye, light, i as int),
            img.spec_width() == WIDTH && img.spec_height() == HEIGHT,
            zbuf.spec_width() == WIDTH && zbuf.spec_height() == HEIGHT,
            T::obeys_num_spec() ==> forall|x: int, y: int|
                img.contains(x, y) ==> pixel_fits(
                    *model,
                    eye,
                    light,
                    i as int,
                    x,
                    y,
                    #[trigger] img.color_at(x, y),
                ),
            T::obeys_num_spec() ==> forall|x: int, y: int|
                img.contains(x, y) ==> (#[trigger] zbuf.depth_at(x, y)) == shown_face_spec(
                    *model,
                    eye,
                    light,
                    i as int,
                    x,
                    y,
                ).1,
        decreases nfaces - i,
    {
        let c0 = match shader.vertex(i, 0) {
            Ok(c) => c,
            Err(e) => {
                return Err(e);
            },
        };
        let c1 = match shader.vertex(i, 1) {
            Ok(c) => c,
            Err(e) => {
                return Err(e);
            },
        };
        let c2 = match shader.vertex(i, 2) {
            Ok(c) => c,
            Err(e) => {
                return Err(e);
            },
        };
        let pts = [c0, c1, c2];
        proof {
            if T::obeys_num_spec() {
                assert(points_view(pts) =~~= face_clip_spec(*model, composite, i));
                assert(shader.varying_uv@ =~~= face_uv_spec(*model, i));
            }
        }
        let ghost start = shader;
        let ghost img_before = img;
        let ghost zbuf_before = zbuf;
        match gl.triangle(pts, &mut shader, &mut img, &mut zbuf) {
            Ok(()) => {},
            Err(e) => {
                proof {
                    if T::obeys_num_spec() {
                        let clip = face_clip_spec(*model, composite, i);
                        let (x, y) = choose|x: int, y: int|
                            img_before.contains(x, y) && draws_at(
                                clip,
                                WIDTH as int,
                                HEIGHT as int,
                                x,
                                y,
                                zbuf_before.depth_at(x, y),
                            ) && !(#[trigger] shaded_spec(start, clip, x, y) is Ok);
                        assert(misses_highlight(*model, eye, light, i as int, x, y));
                    }
                }
                return Err(e);
            },
        }
        proof {
            if T::obeys_num_spec() {
                let clip = face_clip_spec(*model, composite, i);
                assert forall|f: int, x: int, y: int| 0 <= f < i + 1 implies !#[trigger] misses_highlight(
                    *model,
                    eye,
                    light,
                    f,
                    x,
                    y,
                ) by {
                    if f == i && misses_highlight(*model, eye, light, f, x, y) {
                        assert(img_before.contains(x, y));
                        assert(shaded_spec(start, clip, x, y) is Ok);
                    }
                }
                assert forall|x: int, y: int| img.contains(x, y) implies paints_at(
                    start,
                    clip,
                    WIDTH as int,
                    HEIGHT as int,
                    x,
                    y,
                    shown_face_spec(*model, eye, light, i as int, x, y).1,
                ) == (draws_at(
                    clip,
                    WIDTH as int,
                    HEIGHT as int,
                    x,
                    y,
                    shown_face_spec(*model, eye, light, i as int, x, y).1,
                ) && face_outcome_spec(*model, eye, light, i as int, x, y) matches Ok(Some(_))) by {}
                assert forall|x: int, y: int| img.contains(x, y) implies pixel_fits(
                    *model,
                    eye,
                    light,
                    i + 1,
                    x,
                    y,
                    #[trigger] img.color_at(x, y),
                ) by {
                    assert(img_before.contains(x, y));
                    assert(pixel_fits(*model, eye, light, i as int, x, y, img_before.color_at(x, y)));
                    if paints_at(
                        start,
                        clip,
                        WIDTH as int,
                        HEIGHT as int,
                        x,
                        y,
                        zbuf_before.depth_at(x, y),
                    ) {
                        assert(img.color_at(x, y) == shaded_spec(start, clip, x, y)->Ok_0->0);
                        assert(face_fits(*model, eye, light, i as int, x, y, img.color_at(x, y)));
                    }
                }
            }
        }
        i += 1;
    }
    let ghost drawn = img;
    img.flip_vertical();
    proof {
        if T::obeys_num_spec() {
            assert forall|x: int, y: int| img.contains(x, y) implies (#[trigger] img.color_at(x, y))
                == pixel_color_spec(
                *model,
                vec3_spec::<T>(1, 1, 3),
                normalize_spec(vec3_spec::<T>(1, 1, 1)),
                model.faces@.len() as int,
                x,
                HEIGHT - 1 - y,
            ) by {
                assert(drawn.contains(x, HEIGHT - 1 - y));
                assert(img.color_at(x, y) == drawn.color_at(x, HEIGHT - 1 - y));
                assert(pixel_fits(
                    *model,
                    eye,
                    light,
                    nfaces as int,
                    x,
                    HEIGHT - 1 - y,
                    drawn.color_at(x, HEIGHT - 1 - y),
                ));
            }
        }
    }
    Ok(img)
}

} // verus!
