//! Shading of a textured mesh with the normals of a normal map.
use crate::error::RenderError;
use crate::framebuffer::{Canvas, Color};
use crate::geometry::{norm_spec, normalize_spec, points_view, Vec3, Vec4, Vec_};
use crate::gl::{
    draws_at, paints_at, pixel_depth_spec, pixel_weights_spec, shaded_spec, IShader, GL,
};
use crate::matrix::{invert_transpose_spec, mul_vec_spec, singular_spec, Mat};
use crate::model::{samples_inside, texel_normal_spec, texel_spec, Model};
use crate::shaders::gouraud6l::{lit, lit_spec};
use crate::shaders::{
    blank_frame, face_clip_spec, face_uv_spec, far_spec, interpolate, is_transform, is_varying,
    scene, scene_composite_spec, scene_fails_spec, scene_uniform_spec, set_varying, tint,
    tint_spec, transform_direction, transformed_spec, uniforms, vec3, vec3_spec, HEIGHT, WIDTH,
};
use crate::util::{usable, NumLike, RgbaImageExt};
use vstd::prelude::*;

verus! {

/// The shader of the normal map: it keeps the texture coordinates at the three
/// corners of the face, and the transforms for normals and for the light.
pub struct NormalMappingShader<'a, T: NumLike> {
    pub gl: &'a GL<T>,
    /// Two rows and three columns: the texture coordinates of each corner.
    pub varying_uv: Mat<T>,
    /// Projection times view.
    pub uniform_m: Mat<T>,
    /// The transposed inverse of projection times view.
    pub uniform_m_it: Mat<T>,
    pub model: &'a Model<T>,
}

/// Whether a direction has no length after a transform, so that it cannot be
/// normalized.
pub open spec fn vanishes<T: NumLike>(m: Seq<Seq<T>>, v: Seq<T>) -> bool {
    norm_spec(transformed_spec(m, v)).equals_spec(T::zero_spec())
}

impl<'a, T: NumLike> NormalMappingShader<'a, T> {
    /// The shader for the mesh `model` in the scene `gl`, with no varyings yet and
    /// the identity for both transforms.
    pub fn new(gl: &'a GL<T>, model: &'a Model<T>) -> (r: Self)
        ensures
            r.gl == gl,
            r.model == model,
            is_varying(r.varying_uv, 2),
            is_transform(r.uniform_m),
            is_transform(r.uniform_m_it),
    {
        NormalMappingShader {
            gl,
            varying_uv: Mat::new(2, 3),
            uniform_m: Mat::identity(4),
            uniform_m_it: Mat::identity(4),
            model,
        }
    }
}

/// The color of a fragment with the weights `bc` on a face with the texture
/// coordinates `uv` at its corners: the texel of the diffuse map at the texture
/// coordinates of the fragment, as bright as the light `light` under the transform
/// `m_it` on the normal of the normal map there under the transform `m`. It is a
/// failure where the coordinates sample nothing of the normal map, where the normal
/// or the light vanishes, or where the coordinates sample nothing of the diffuse
/// map, whichever comes first.
pub open spec fn normal_mapped_spec<T: NumLike>(
    model: Model<T>,
    uv: Seq<Seq<T>>,
    m: Seq<Seq<T>>,
    m_it: Seq<Seq<T>>,
    light: Seq<T>,
    bc: Seq<T>,
) -> Result<Option<Color>, RenderError> {
    let at = mul_vec_spec(uv, bc);
    let mapped = texel_normal_spec::<T>(texel_spec(model.normal_map, at[0], at[1]));
    if !samples_inside(model.normal_map, at[0], at[1]) {
        Err(RenderError::SampleOutOfRange)
    } else if vanishes(m, mapped) || vanishes(m_it, light) {
        Err(RenderError::ZeroNorm)
    } else if !samples_inside(model.diffuse_map, at[0], at[1]) {
        Err(RenderError::SampleOutOfRange)
    } else {
        Ok(
            Some(
                tint_spec(
                    texel_spec(model.diffuse_map, at[0], at[1]),
                    lit_spec(
                        normalize_spec(transformed_spec(m, mapped)),
                        normalize_spec(transformed_spec(m_it, light)),
                    ),
                ),
            ),
        )
    }
}

impl<'a, T: NumLike> IShader<T> for NormalMappingShader<'a, T> {
    open spec fn shader_req(&self) -> bool {
        &&& self.gl.wf()
        &&& self.model.wf()
        &&& is_varying(self.varying_uv, 2)
        &&& is_transform(self.uniform_m)
        &&& is_transform(self.uniform_m_it)
        &&& usable::<T>()
    }

    open spec fn has_vertex(&self, iface: usize, nthvert: usize) -> bool {
        nthvert < 3 && self.model.has_corner(iface, nthvert)
    }

    open spec fn obeys_shader_spec() -> bool {
        true
    }

    /// What the face with the texture coordinates and under the transforms that the
    /// shader keeps gives for the fragment.
    open spec fn fragment_spec(&self, bc: Seq<T>) -> Result<Option<Color>, RenderError> {
        normal_mapped_spec(
            *self.model,
            self.varying_uv@,
            self.uniform_m@,
            self.uniform_m_it@,
            self.gl.light_dir@,
            bc,
        )
    }

    /// Keeps the texture coordinates at the corner and returns the corner in clip
    /// space.
    fn vertex(&mut self, iface: usize, nthvert: usize) -> (r: Result<Vec4<T>, RenderError>)
        ensures
            final(self).gl == old(self).gl,
            final(self).model == old(self).model,
            final(self).uniform_m == old(self).uniform_m,
            final(self).uniform_m_it == old(self).uniform_m_it,
            r is Ok <==> old(self).has_vertex(iface, nthvert),
            r matches Err(e) ==> e == RenderError::DimensionMismatch && *final(self) == *old(self),
            T::obeys_num_spec() ==> (r matches Ok(p) ==> ({
                let corner = old(self).model.corner(iface, nthvert);
                &&& p@ == old(self).gl.clip_spec(old(self).model.verts@[corner[0] as int]@)
                &&& final(self).varying_uv@ == crate::matrix::with_column_spec(
                    old(self).varying_uv@,
                    nthvert as int,
                    old(self).model.uvs@[corner[1] as int]@,
                )
            })),
    {
        if nthvert >= 3 {
            return Err(RenderError::DimensionMismatch);
        }
        let uv = match self.model.uv(iface, nthvert) {
            Ok(uv) => uv,
            Err(e) => {
                return Err(e);
            },
        };
        let position = match self.model.vert_by(iface, nthvert) {
            Ok(v) => v,
            Err(e) => {
                return Err(e);
            },
        };
        set_varying(&mut self.varying_uv, nthvert, &uv.to_vec());
        Ok(self.gl.to_clip(&position))
    }

    /// The color of the fragment: the texel of the diffuse map at its texture
    /// coordinates, as bright as the light on the normal that the normal map gives
    /// there. Where the coordinates sample nothing or a direction vanishes, the call
    /// fails.
    fn fragment(&mut self, bc: Vec3<T>, gl_fragcoord: Vec3<T>) -> (r: Result<
        Option<Color>,
        RenderError,
    >)
        ensures
            *final(self) == *old(self),
            r matches Ok(c) ==> c is Some,
            r matches Err(e) ==> e == RenderError::SampleOutOfRange || e == RenderError::ZeroNorm,
            T::obeys_num_spec() ==> r == normal_mapped_spec(
                *old(self).model,
                old(self).varying_uv@,
                old(self).uniform_m@,
                old(self).uniform_m_it@,
                old(self).gl.light_dir@,
                bc@,
            ),
    {
        let uv = interpolate(&self.varying_uv, &bc);
        let mapped = match self.model.norm_by(Vec_ { data: [uv[0], uv[1]] }) {
            Ok(mapped) => mapped,
            Err(e) => {
                return Err(e);
            },
        };
        let n = match transform_direction(&self.uniform_m, &mapped) {
            Ok(n) => n,
            Err(e) => {
                return Err(e);
            },
        };
        let l = match transform_direction(&self.uniform_m_it, &self.gl.light_dir) {
            Ok(l) => l,
            Err(e) => {
                return Err(e);
            },
        };
        let intensity = lit(&n, &l);
        match self.model.diffuse(uv[0], uv[1]) {
            Ok(color) => Ok(Some(tint(color, intensity))),
            Err(e) => Err(e),
        }
    }
}

/// What the shader returns for the pixel `(x, y)` of the face `f` of the mesh, seen
/// from `eye` in the light `light`.
pub open spec fn face_mapped_spec<T: NumLike>(
    model: Model<T>,
    eye: Seq<T>,
    light: Seq<T>,
    f: int,
    x: int,
    y: int,
) -> Result<Option<Color>, RenderError> {
    normal_mapped_spec(
        model,
        face_uv_spec(model, f as usize),
        scene_uniform_spec(eye),
        invert_transpose_spec(scene_uniform_spec(eye)),
        light,
        pixel_weights_spec(face_clip_spec(model, scene_composite_spec(eye), f as usize), x, y),
    )
}

/// The color and the depth of the pixel `(x, y)` once the first `n` faces of the mesh
/// are drawn with the normals of the normal map, seen from `eye` in the light
/// `light`: where a face is drawn, what the shader returns there and the depth of
/// the face; before any face, opaque black at the far depth.
pub open spec fn mapped_pixel_spec<T: NumLike>(
    model: Model<T>,
    eye: Seq<T>,
    light: Seq<T>,
    n: int,
    x: int,
    y: int,
) -> (Color, T)
    decreases n,
{
    if n <= 0 {
        ([0u8, 0u8, 0u8, 255u8], far_spec::<T>())
    } else {
        let before = mapped_pixel_spec(model, eye, light, n - 1, x, y);
        let clip = face_clip_spec(model, scene_composite_spec(eye), (n - 1) as usize);
        let shaded = face_mapped_spec(model, eye, light, n - 1, x, y);
        if draws_at(clip, WIDTH as int, HEIGHT as int, x, y, before.1) && shaded matches Ok(
            Some(_),
        ) {
            (shaded->Ok_0->0, pixel_depth_spec(clip, x, y))
        } else {
            before
        }
    }
}

/// Whether the face `f` of the mesh is drawn at the pixel `(x, y)` of the frame,
/// after the faces before it, where the shader fails.
pub open spec fn misses_mapping<T: NumLike>(
    model: Model<T>,
    eye: Seq<T>,
    light: Seq<T>,
    f: int,
    x: int,
    y: int,
) -> bool {
    &&& 0 <= x < WIDTH && 0 <= y < HEIGHT
    &&& draws_at(
        face_clip_spec(model, scene_composite_spec(eye), f as usize),
        WIDTH as int,
        HEIGHT as int,
        x,
        y,
        mapped_pixel_spec(model, eye, light, f, x, y).1,
    )
    &&& face_mapped_spec(model, eye, light, f, x, y) is Err
}

/// Whether the shader succeeds wherever one of the first `n` faces of the mesh is
/// drawn.
pub open spec fn maps_well<T: NumLike>(model: Model<T>, eye: Seq<T>, light: Seq<T>, n: int) -> bool {
    forall|f: int, x: int, y: int|
        0 <= f < n ==> !#[trigger] misses_mapping(model, eye, light, f, x, y)
}

/// Renders the textured mesh with the normals of its normal map, seen from (1, 1, 3)
/// in the light from (1, 1, 1), with the first row of the canvas at the top of the
/// picture. A transform that cannot be inverted, or a fragment for which the shader
/// fails, ends the render.
pub fn normal_mapping_render<T: NumLike>(model: &Model<T>) -> (r: Result<Canvas, RenderError>)
    requires
        model.wf(),
        usable::<T>(),
    ensures
        r matches Ok(img) ==> img.spec_width() == WIDTH && img.spec_height() == HEIGHT,
        T::obeys_num_spec() ==> (r matches Err(e) ==> e == RenderError::ZeroNorm || e
            == RenderError::SingularMatrix || e == RenderError::SampleOutOfRange),
        T::obeys_num_spec() ==> (r is Ok <==> !scene_fails_spec(
            vec3_spec::<T>(1, 1, 3),
            vec3_spec::<T>(1, 1, 1),
        ) && !singular_spec(scene_uniform_spec(vec3_spec::<T>(1, 1, 3))) && maps_well(
            *model,
            vec3_spec::<T>(1, 1, 3),
            normalize_spec(vec3_spec::<T>(1, 1, 1)),
            model.faces@.len() as int,
        )),
        T::obeys_num_spec() && r is Ok ==> forall|x: int, y: int|
            r->Ok_0.contains(x, y) ==> (#[trigger] r->Ok_0.color_at(x, y)) == mapped_pixel_spec(
                *model,
                vec3_spec::<T>(1, 1, 3),
                normalize_spec(vec3_spec::<T>(1, 1, 1)),
                model.faces@.len() as int,
                x,
                HEIGHT - 1 - y,
            ).0,
{
    let gl = match scene(vec3(1, 1, 3), vec3(1, 1, 1)) {
        Ok(gl) => gl,
        Err(e) => {
            return Err(e);
        },
    };
    let ghost eye = vec3_spec::<T>(1, 1, 3);
    let ghost light = gl.light_dir@;
    let ghost composite = gl.composite_spec();
    let (mut img, mut zbuf) = blank_frame::<T>();
    let mut shader = NormalMappingShader::new(&gl, model);
    match uniforms(&gl) {
        Ok(u) => {
            shader.uniform_m = u.0;
            shader.uniform_m_it = u.1;
        },
        Err(e) => {
            return Err(e);
        },
    }
    let nfaces = model.nfaces();
    let mut i: usize = 0;
    while i < nfaces
        invariant
            i <= nfaces,
            nfaces == model.faces@.len(),
            model.wf(),
            gl.wf(),
            zbuf.wf(),
            usable::<T>(),
            shader.shader_req(),
            T::obeys_num_spec() ==> shader.gl == &gl && shader.model == model,
            T::obeys_num_spec() ==> shader.uniform_m@ == scene_uniform_spec(eye)
                && shader.uniform_m_it@ == invert_transpose_spec(scene_uniform_spec(eye)),
            forall|f: usize, n: usize| shader.has_vertex(f, n) == (n < 3 && model.has_corner(f, n)),
            eye == vec3_spec::<T>(1, 1, 3),
            composite == gl.composite_spec(),
            light == gl.light_dir@,
            T::obeys_num_spec() ==> composite == scene_composite_spec(eye),
            T::obeys_num_spec() ==> light == normalize_spec(vec3_spec::<T>(1, 1, 1)),
            T::obeys_num_spec() ==> maps_well(*model, eye, light, i as int),
            img.spec_width() == WIDTH && img.spec_height() == HEIGHT,
            zbuf.spec_width() == WIDTH && zbuf.spec_height() == HEIGHT,
            T::obeys_num_spec() ==> forall|x: int, y: int|
                img.contains(x, y) ==> (#[trigger] img.color_at(x, y)) == mapped_pixel_spec(
                    *model,
                    eye,
                    light,
                    i as int,
                    x,
                    y,
                ).0,
            T::obeys_num_spec() ==> forall|x: int, y: int|
                img.contains(x, y) ==> (#[trigger] zbuf.depth_at(x, y)) == mapped_pixel_spec(
                    *model,
                    eye,
                    light,
                    i as int,
                    x,
                    y,
                ).1,
        decreases nfaces - i,
    {
        let c0 = match shader.vertex(i, 0) {
            Ok(c) => c,
            Err(e) => {
                return Err(e);
            },
        };
        let c1 = match shader.vertex(i, 1) {
            Ok(c) => c,
            Err(e) => {
                return Err(e);
            },
        };
        let c2 = match shader.vertex(i, 2) {
            Ok(c) => c,
            Err(e) => {
                return Err(e);
            },
        };
        let pts = [c0, c1, c2];
        proof {
            if T::obeys_num_spec() {
                assert(points_view(pts) =~~= face_clip_spec(*model, composite, i));
                assert(shader.varying_uv@ =~~= face_uv_spec(*model, i));
            }
        }
        let ghost start = shader;
        let ghost img_before = img;
        let ghost zbuf_before = zbuf;
        match gl.triangle(pts, &mut shader, &mut img, &mut zbuf) {
            Ok(()) => {},
            Err(e) => {
                proof {
                    if T::obeys_num_spec() {
                        let clip = face_clip_spec(*model, composite, i);
                        let (x, y) = choose|x: int, y: int|
                            img_before.contains(x, y) && draws_at(
                                clip,
                                WIDTH as int,
                                HEIGHT as int,
                                x,
                                y,
                                zbuf_before.depth_at(x, y),
                            ) && !(#[trigger] shaded_spec(start, clip, x, y) is Ok);
                        assert(misses_mapping(*model, eye, light, i as int, x, y));
                    }
                }
                return Err(e);
            },
        }
        proof {
            if T::obeys_num_spec() {
                let clip = face_clip_spec(*model, composite, i);
                assert forall|f: int, x: int, y: int| 0 <= f < i + 1 implies !#[trigger] misses_mapping(
                    *model,
                    eye,
                    light,
                    f,
                    x,
                    y,
                ) by {
                    if f == i && misses_mapping(*model, eye, light, f, x, y) {
                        assert(img_before.contains(x, y));
                        assert(shaded_spec(start, clip, x, y) is Ok);
                    }
                }
                assert forall|x: int, y: int| img.contains(x, y) implies paints_at(
                    start,
                    clip,
                    WIDTH as int,
                    HEIGHT as int,
                    x,
                    y,
                    mapped_pixel_spec(*model, eye, light, i as int, x, y).1,
                ) == (draws_at(
                    clip,
                    WIDTH as int,
                    HEIGHT as int,
                    x,
                    y,
                    mapped_pixel_spec(*model, eye, light, i as int, x, y).1,
                ) && face_mapped_spec(*model, eye, light, i as int, x, y) matches Ok(Some(_))) by {}
            }
        }
        i += 1;
    }
    let ghost drawn = img;
    img.flip_vertical();
    proof {
        if T::obeys_num_spec() {
            assert forall|x: int, y: int| img.contains(x, y) implies (#[trigger] img.color_at(x, y))
                == mapped_pixel_spec(
                *model,
                vec3_spec::<T>(1, 1, 3),
                normalize_spec(vec3_spec::<T>(1, 1, 1)),
                model.faces@.len() as int,
                x,
                HEIGHT - 1 - y,
            ).0 by {
                assert(drawn.contains(x, HEIGHT - 1 - y));
                assert(img.color_at(x, y) == drawn.color_at(x, HEIGHT - 1 - y));
            }
        }
    }
    Ok(img)
}

} // verus!
