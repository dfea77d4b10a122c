//! Smooth shading of a textured mesh.
use crate::error::RenderError;
use crate::framebuffer::{Canvas, Color};
use crate::geometry::{dot_spec, lemma_total_vectors, norm_spec, normalize_spec, Vec3, Vec4};
use crate::geometry::points_view;
use crate::gl::{
    draws_at, paints_at, pixel_depth_spec, pixel_weights_spec, shaded_spec, IShader, GL,
};
use crate::matrix::{mul_vec_spec, Mat};
use crate::model::{samples_inside, texel_spec, Model};
use crate::shaders::gouraud6l::{lit, lit_spec};
use crate::shaders::{
    blank_frame, face_clip_spec, face_intensity_spec, face_uv_spec, faces_are_lit, far_spec,
    interpolate, is_varying, normal_vanishes, scene, scene_composite_spec, scene_fails_spec,
    set_varying, tint, tint_spec, vec3, vec3_spec, HEIGHT, WIDTH,
};
use crate::util::{usable, NumLike, RgbaImageExt};
use vstd::prelude::*;

verus! {

/// The shader of the textured mesh: it keeps the intensity of the light and the
/// texture coordinates at the three corners of the face.
pub struct TextureShader<'a, T: NumLike> {
    pub gl: &'a GL<T>,
    pub varying_intensity: Vec3<T>,
    /// Two rows and three columns: the texture coordinates of each corner.
    pub varying_uv: Mat<T>,
    pub model: &'a Model<T>,
}

/// The color of a fragment with the weights `bc` of a face with the texture
/// coordinates `uv` and the intensities `ity` at its corners: the texel of `map` at
/// its texture coordinates, as bright as its intensity; a failure where the
/// coordinates sample nothing.
pub open spec fn textured_spec<T: NumLike>(map: Canvas, uv: Seq<Seq<T>>, ity: Seq<T>, bc: Seq<T>) -> Result<
    Option<Color>,
    RenderError,
> {
    let at = mul_vec_spec(uv, bc);
    if samples_inside(map, at[0], at[1]) {
        Ok(Some(tint_spec(texel_spec(map, at[0], at[1]), dot_spec(ity, bc, 3))))
    } else {
        Err(RenderError::SampleOutOfRange)
    }
}

impl<'a, T: NumLike> TextureShader<'a, T> {
    /// The shader for the mesh `model` in the scene `gl`, with no varyings yet.
    pub fn new(gl: &'a GL<T>, model: &'a Model<T>) -> (r: Self)
        ensures
            r.gl == gl,
            r.model == model,
            is_varying(r.varying_uv, 2),
    {
        TextureShader { gl, varying_intensity: Vec3::new(), varying_uv: Mat::new(2, 3), model }
    }

    /// The texture coordinates of the fragment with the weights `bc`.
    pub open spec fn uv_spec(&self, bc: Seq<T>) -> Seq<T> {
        mul_vec_spec(self.varying_uv@, bc)
    }
}

impl<'a, T: NumLike> IShader<T> for TextureShader<'a, T> {
    open spec fn shader_req(&self) -> bool {
        &&& self.gl.wf()
        &&& self.model.wf()
        &&& is_varying(self.varying_uv, 2)
        &&& usable::<T>()
    }

    open spec fn has_vertex(&self, iface: usize, nthvert: usize) -> bool {
        nthvert < 3 && self.model.has_corner(iface, nthvert)
    }

    open spec fn obeys_shader_spec() -> bool {
        true
    }

    /// The texel of the diffuse map at the texture coordinates of the fragment, as
    /// bright as its intensity; a failure where the coordinates sample nothing.
    open spec fn fragment_spec(&self, bc: Seq<T>) -> Result<Option<Color>, RenderError> {
        textured_spec(self.model.diffuse_map, self.varying_uv@, self.varying_intensity@, bc)
    }

    /// Keeps the intensity of the light and the texture coordinates at the corner
    /// and returns the corner in clip space.
    fn vertex(&mut self, iface: usize, nthvert: usize) -> (r: Result<Vec4<T>, RenderError>)
        ensures
            final(self).gl == old(self).gl,
            final(self).model == old(self).model,
            !old(self).has_vertex(iface, nthvert) ==> r == Err::<Vec4<T>, RenderError>(
                RenderError::DimensionMismatch,
            ),
            old(self).has_vertex(iface, nthvert) ==> (r matches Err(e) ==> e
                == RenderError::ZeroNorm),
            r matches Err(e) ==> (e == RenderError::DimensionMismatch || e == RenderError::ZeroNorm)
                && *final(self) == *old(self),
            T::obeys_num_spec() && old(self).has_vertex(iface, nthvert) ==> (r is Err
                <==> norm_spec(
                old(self).model.norms@[old(self).model.corner(iface, nthvert)[2] as int]@,
            ).equals_spec(T::zero_spec())),
            T::obeys_num_spec() ==> (r matches Ok(p) ==> ({
                let corner = old(self).model.corner(iface, nthvert);
                &&& p@ == old(self).gl.clip_spec(old(self).model.verts@[corner[0] as int]@)
                &&& final(self).varying_uv@ == crate::matrix::with_column_spec(
                    old(self).varying_uv@,
                    nthvert as int,
                    old(self).model.uvs@[corner[1] as int]@,
                )
                &&& final(self).varying_intensity@ == old(self).varying_intensity@.update(
                    nthvert as int,
                    lit_spec(
                        normalize_spec(old(self).model.norms@[corner[2] as int]@),
                        old(self).gl.light_dir@,
                    ),
                )
            })),
    {
        if nthvert >= 3 {
            return Err(RenderError::DimensionMismatch);
        }
        let normal = match self.model.norm(iface, nthvert) {
            Ok(n) => n,
            Err(e) => {
                return Err(e);
            },
        };
        let uv = match self.model.uv(iface, nthvert) {
            Ok(uv) => uv,
            Err(e) => {
                return Err(e);
            },
        };
        let position = match self.model.vert_by(iface, nthvert) {
            Ok(v) => v,
            Err(e) => {
                return Err(e);
            },
        };
        self.varying_intensity.set(nthvert, lit(&normal, &self.gl.light_dir));
        set_varying(&mut self.varying_uv, nthvert, &uv.to_vec());
        Ok(self.gl.to_clip(&position))
    }

    /// The color of the fragment: the texel of the diffuse map at its texture
    /// coordinates, as bright as its intensity. Where the coordinates sample nothing,
    /// the call fails.
    fn fragment(&mut self, bc: Vec3<T>, gl_fragcoord: Vec3<T>) -> (r: Result<
        Option<Color>,
        RenderError,
    >)
        ensures
            *final(self) == *old(self),
            r matches Ok(c) ==> c is Some,
            r matches Err(e) ==> e == RenderError::SampleOutOfRange,
            T::obeys_num_spec() ==> ({
                let uv = old(self).uv_spec(bc@);
                let map = old(self).model.diffuse_map;
                &&& r is Ok <==> samples_inside(map, uv[0], uv[1])
                &&& r is Ok ==> r == Ok::<Option<Color>, RenderError>(
                    Some(
                        tint_spec(
                            texel_spec(map, uv[0], uv[1]),
                            dot_spec(old(self).varying_intensity@, bc@, 3),
                        ),
                    ),
                )
            }),
    {
        proof {
            if T::obeys_num_spec() {
                lemma_total_vectors(self.varying_intensity@, bc@, 3);
            }
        }
        let intensity = self.varying_intensity.dot(&bc);
        let uv = interpolate(&self.varying_uv, &bc);
        match self.model.diffuse(uv[0], uv[1]) {
            Ok(color) => Ok(Some(tint(color, intensity))),
            Err(e) => Err(e),
        }
    }
}

/// What the shader returns for the pixel `(x, y)` of the face `f` of the mesh, under
/// the transform `composite` in the light `light`.
pub open spec fn face_texel_spec<T: NumLike>(
    model: Model<T>,
    composite: Seq<Seq<T>>,
    light: Seq<T>,
    f: int,
    x: int,
    y: int,
) -> Result<Option<Color>, RenderError> {
    textured_spec(
        model.diffuse_map,
        face_uv_spec(model, f as usize),
        face_intensity_spec(model, light, f as usize),
        pixel_weights_spec(face_clip_spec(model, composite, f as usize), x, y),
    )
}

/// The color and the depth of the pixel `(x, y)` once the first `n` faces of the
/// textured mesh are drawn, under the transform `composite` in the light `light`:
/// where a face is drawn, its texel there, as bright as its intensity, and its
/// depth; before any face, opaque black at the far depth.
pub open spec fn textured_pixel_spec<T: NumLike>(
    model: Model<T>,
    composite: Seq<Seq<T>>,
    light: Seq<T>,
    n: int,
    x: int,
    y: int,
) -> (Color, T)
    decreases n,
{
    if n <= 0 {
        ([0u8, 0u8, 0u8, 255u8], far_spec::<T>())
    } else {
        let before = textured_pixel_spec(model, composite, light, n - 1, x, y);
        let clip = face_clip_spec(model, composite, (n - 1) as usize);
        let shaded = face_texel_spec(model, composite, light, n - 1, x, y);
        if draws_at(clip, WIDTH as int, HEIGHT as int, x, y, before.1) && shaded matches Ok(
            Some(_),
        ) {
            (shaded->Ok_0->0, pixel_depth_spec(clip, x, y))
        } else {
            before
        }
    }
}

/// Whether the face `f` of the mesh is drawn at the pixel `(x, y)` of the frame,
/// after the faces before it, at texture coordinates that sample nothing.
pub open spec fn misses_texture<T: NumLike>(
    model: Model<T>,
    composite: Seq<Seq<T>>,
    light: Seq<T>,
    f: int,
    x: int,
    y: int,
) -> bool {
    &&& 0 <= x < WIDTH && 0 <= y < HEIGHT
    &&& draws_at(
        face_clip_spec(model, composite, f as usize),
        WIDTH as int,
        HEIGHT as int,
        x,
        y,
        textured_pixel_spec(model, composite, light, f, x, y).1,
    )
    &&& face_texel_spec(model, composite, light, f, x, y) is Err
}

/// Whether each of the first `n` faces of the mesh samples the texture wherever it
/// is drawn.
pub open spec fn samples_well<T: NumLike>(
    model: Model<T>,
    composite: Seq<Seq<T>>,
    light: Seq<T>,
    n: int,
) -> bool {
    forall|f: int, x: int, y: int|
        0 <= f < n ==> !#[trigger] misses_texture(model, composite, light, f, x, y)
}

/// Renders the textured mesh, smoothly shaded, seen from (1, 1, 3) in the light from
/// (1, 1, 1), with the first row of the canvas at the top of the picture. A normal
/// of no length, or a fragment of which the texture coordinates sample nothing, ends
/// the render.
pub fn texture_render<T: NumLike>(model: &Model<T>) -> (r: Result<Canvas, RenderError>)
    requires
        model.wf(),
        usable::<T>(),
    ensures
        r matches Ok(img) ==> img.spec_width() == WIDTH && img.spec_height() == HEIGHT,
        T::obeys_num_spec() ==> (r matches Err(e) ==> e == RenderError::ZeroNorm || e
            == RenderError::SampleOutOfRange),
        T::obeys_num_spec() ==> (r is Ok <==> !scene_fails_spec(
            vec3_spec::<T>(1, 1, 3),
            vec3_spec::<T>(1, 1, 1),
        ) && faces_are_lit(*model, model.faces@.len() as int) && samples_well(
            *model,
            scene_composite_spec(vec3_spec::<T>(1, 1, 3)),
            normalize_spec(vec3_spec::<T>(1, 1, 1)),
            model.faces@.len() as int,
        )),
        T::obeys_num_spec() && r is Ok ==> forall|x: int, y: int|
            r->Ok_0.contains(x, y) ==> (#[trigger] r->Ok_0.color_at(x, y)) == textured_pixel_spec(
                *model,
                scene_composite_spec(vec3_spec::<T>(1, 1, 3)),
                normalize_spec(vec3_spec::<T>(1, 1, 1)),
                model.faces@.len() as int,
                x,
                HEIGHT - 1 - y,
            ).0,
{
    let gl = match scene(vec3(1, 1, 3), vec3(1, 1, 1)) {
        Ok(gl) => gl,
        Err(e) => {
            return Err(e);
        },
    };
    let ghost composite = gl.composite_spec();
    let ghost light = gl.light_dir@;
    let (mut img, mut zbuf) = blank_frame::<T>();
    let mut shader = TextureShader::new(&gl, model);
    let nfaces = model.nfaces();
    let mut i: usize = 0;
    while i < nfaces
        invariant
            i <= nfaces,
            nfaces == model.faces@.len(),
            model.wf(),
            gl.wf(),
            zbuf.wf(),
            usable::<T>(),
            shader.shader_req(),
            T::obeys_num_spec() ==> shader.gl == &gl && shader.model == model,
            forall|f: usize, n: usize| shader.has_vertex(f, n) == (n < 3 && model.has_corner(f, n)),
            composite == gl.composite_spec(),
            light == gl.light_dir@,
            T::obeys_num_spec() ==> composite == scene_composite_spec(vec3_spec::<T>(1, 1, 3)),
            T::obeys_num_spec() ==> light == normalize_spec(vec3_spec::<T>(1, 1, 1)),
            T::obeys_num_spec() ==> faces_are_lit(*model, i as int),
            T::obeys_num_spec() ==> samples_well(*model, composite, light, i as int),
            img.spec_width() == WIDTH && img.spec_height() == HEIGHT,
            zbuf.spec_width() == WIDTH && zbuf.spec_height() == HEIGHT,
            T::obeys_num_spec() ==> forall|x: int, y: int|
                img.contains(x, y) ==> (#[trigger] img.color_at(x, y)) == textured_pixel_spec(
                    *model,
                    composite,
                    light,
                    i as int,
                    x,
                    y,
                ).0,
            T::obeys_num_spec() ==> forall|x: int, y: int|
                img.contains(x, y) ==> (#[trigger] zbuf.depth_at(x, y)) == textured_pixel_spec(
                    *model,
                    composite,
                    light,
                    i as int,
                    x,
                    y,
                ).1,
        decreases nfaces - i,
    {
        let c0 = match shader.vertex(i, 0) {
            Ok(c) => c,
            Err(e) => {
                assert(T::obeys_num_spec() ==> normal_vanishes(*model, i as int, 0));
                return Err(e);
            },
        };
        assert(T::obeys_num_spec() ==> !normal_vanishes(*model, i as int, 0));
        let c1 = match shader.vertex(i, 1) {
            Ok(c) => c,
            Err(e) => {
                assert(T::obeys_num_spec() ==> normal_vanishes(*model, i as int, 1));
                return Err(e);
            },
        };
        assert(T::obeys_num_spec() ==> !normal_vanishes(*model, i as int, 1));
        let c2 = match shader.vertex(i, 2) {
            Ok(c) => c,
            Err(e) => {
                assert(T::obeys_num_spec() ==> normal_vanishes(*model, i as int, 2));
                return Err(e);
            },
        };
        assert(T::obeys_num_spec() ==> !normal_vanishes(*model, i as int, 2));
        let pts = [c0, c1, c2];
        proof {
            if T::obeys_num_spec() {
                assert(points_view(pts) =~~= face_clip_spec(*model, composite, i));
                assert(shader.varying_intensity@ =~= face_intensity_spec(*model, light, i));
                assert(shader.varying_uv@ =~~= face_uv_spec(*model, i));
            }
        }
        let ghost start = shader;
        let ghost img_before = img;
        let ghost zbuf_before = zbuf;
        match gl.triangle(pts, &mut shader, &mut img, &mut zbuf) {
            Ok(()) => {},
            Err(e) => {
                proof {
                    if T::obeys_num_spec() {
                        let clip = face_clip_spec(*model, composite, i);
                        let (x, y) = choose|x: int, y: int|
                            img_before.contains(x, y) && draws_at(
                                clip,
                                WIDTH as int,
                                HEIGHT as int,
                                x,
                                y,
                                zbuf_before.depth_at(x, y),
                            ) && !(#[trigger] shaded_spec(start, clip, x, y) is Ok);
                        assert(misses_texture(*model, composite, light, i as int, x, y));
                    }
                }
                return Err(e);
            },
        }
        proof {
            if T::obeys_num_spec() {
                let clip = face_clip_spec(*model, composite, i);
                assert forall|f: int, x: int, y: int| 0 <= f < i + 1 implies !#[trigger] misses_texture(
                    *model,
                    composite,
                    light,
                    f,
                    x,
                    y,
                ) by {
                    if f == i && misses_texture(*model, composite, light, f, x, y) {
                        assert(img_before.contains(x, y));
                        assert(shaded_spec(start, clip, x, y) is Ok);
                    }
                }
            }
        }
        proof {
            if T::obeys_num_spec() {
                let clip = face_clip_spec(*model, composite, i);
                assert forall|x: int, y: int| img.contains(x, y) implies paints_at(
                    start,
                    clip,
                    WIDTH as int,
                    HEIGHT as int,
                    x,
                    y,
                    textured_pixel_spec(*model, composite, light, i as int, x, y).1,
                ) == (draws_at(
                    clip,
                    WIDTH as int,
                    HEIGHT as int,
                    x,
                    y,
                    textured_pixel_spec(*model, composite, light, i as int, x, y).1,
                ) && face_texel_spec(*model, composite, light, i as int, x, y) matches Ok(Some(_))) by {}
            }
        }
        i += 1;
    }
    let ghost drawn = img;
    img.flip_vertical();
    proof {
        if T::obeys_num_spec() {
            assert(composite == scene_composite_spec(vec3_spec::<T>(1, 1, 3)));
            assert forall|x: int, y: int| img.contains(x, y) implies (#[trigger] img.color_at(x, y))
                == textured_pixel_spec(
                *model,
                scene_composite_spec(vec3_spec::<T>(1, 1, 3)),
                normalize_spec(vec3_spec::<T>(1, 1, 1)),
                model.faces@.len() as int,
                x,
                HEIGHT - 1 - y,
            ).0 by {
                assert(drawn.contains(x, HEIGHT - 1 - y));
                assert(img.color_at(x, y) == drawn.color_at(x, HEIGHT - 1 - y));
            }
        }
    }
    Ok(img)
}

} // verus!
