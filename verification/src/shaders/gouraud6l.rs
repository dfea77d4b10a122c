//! Shading in six bands of intensity.
use crate::error::RenderError;
use crate::framebuffer::{Canvas, Color};
use crate::geometry::{
    dot_spec, lemma_total_vectors, norm_spec, normalize_spec, Vec3, Vec4,
};
use crate::geometry::points_view;
use crate::gl::{draws_at, paints_at, pixel_depth_spec, pixel_weights_spec, IShader, GL};
use crate::model::Model;
use crate::shaders::{
    blank_frame, face_clip_spec, face_intensity_spec, faces_are_lit, far_spec, normal_vanishes,
    scene, scene_composite_spec, scene_fails_spec, vec3, vec3_spec, HEIGHT, WIDTH,
};
use crate::util::{
    maxf, ratio, ratio_spec, to_channel, to_channel_spec, usable, NumLike, RgbaImageExt,
};
use vstd::prelude::*;

verus! {

/// The shader of the six bands: it keeps the intensity of the light at the three
/// corners of the face.
pub struct Gouraud6LShader<'a, T: NumLike> {
    pub gl: &'a GL<T>,
    pub varying_intensity: Vec3<T>,
    pub model: &'a Model<T>,
}

/// The intensity of the light on a surface with the normal `normal`: the dot product
/// of the two directions, and zero where the surface faces away.
pub open spec fn lit_spec<T: NumLike>(normal: Seq<T>, light: Seq<T>) -> T {
    let d = dot_spec(normal, light, 3);
    if d.less_spec(T::zero_spec()) {
        T::zero_spec()
    } else {
        d
    }
}

/// The band of an intensity: 1 above 0.85, 0.8 above 0.6, 0.6 above 0.45, 0.45 above
/// 0.3, 0.3 above 0.15, and 0 below.
pub open spec fn band_spec<T: NumLike>(ity: T) -> T {
    if ratio_spec::<T>(85, 100).less_spec(ity) {
        T::one_spec()
    } else if ratio_spec::<T>(60, 100).less_spec(ity) {
        ratio_spec::<T>(80, 100)
    } else if ratio_spec::<T>(45, 100).less_spec(ity) {
        ratio_spec::<T>(60, 100)
    } else if ratio_spec::<T>(30, 100).less_spec(ity) {
        ratio_spec::<T>(45, 100)
    } else if ratio_spec::<T>(15, 100).less_spec(ity) {
        ratio_spec::<T>(30, 100)
    } else {
        T::zero_spec()
    }
}

/// The color of an intensity: orange, as bright as the band of the intensity.
pub open spec fn band_color_spec<T: NumLike>(ity: T) -> Color {
    let band = band_spec(ity);
    [
        to_channel_spec(T::from_i32_spec(255i32).times_spec(band)),
        to_channel_spec(T::from_i32_spec(155i32).times_spec(band)),
        to_channel_spec(T::from_i32_spec(0i32).times_spec(band)),
        255u8,
    ]
}

/// The intensity of the light on a surface with the normal `normal`.
pub fn lit<T: NumLike>(normal: &Vec3<T>, light: &Vec3<T>) -> (r: T)
    requires
        usable::<T>(),
    ensures
        T::obeys_num_spec() ==> r == lit_spec(normal@, light@),
{
    proof {
        if T::obeys_num_spec() {
            lemma_total_vectors(normal@, light@, 3);
        }
    }
    maxf(T::zero(), normal.dot(light))
}

/// The band of an intensity.
pub fn band<T: NumLike>(ity: T) -> (r: T)
    requires
        usable::<T>(),
    ensures
        T::obeys_num_spec() ==> r == band_spec(ity),
{
    if ratio::<T>(85, 100).less(ity) {
        T::one()
    } else if ratio::<T>(60, 100).less(ity) {
        ratio(80, 100)
    } else if ratio::<T>(45, 100).less(ity) {
        ratio(60, 100)
    } else if ratio::<T>(30, 100).less(ity) {
        ratio(45, 100)
    } else if ratio::<T>(15, 100).less(ity) {
        ratio(30, 100)
    } else {
        T::zero()
    }
}

impl<'a, T: NumLike> Gouraud6LShader<'a, T> {
    /// The shader for the mesh `model` in the scene `gl`, with no intensities yet.
    pub fn new(gl: &'a GL<T>, model: &'a Model<T>) -> (r: Self)
        ensures
            r.gl == gl,
            r.model == model,
            T::obeys_num_spec() ==> r.varying_intensity@ == Seq::new(3, |i: int| T::zero_spec()),
    {
        Gouraud6LShader { gl, varying_intensity: Vec3::new(), model }
    }
}

impl<'a, T: NumLike> IShader<T> for Gouraud6LShader<'a, T> {
    open spec fn shader_req(&self) -> bool {
        &&& self.gl.wf()
        &&& self.model.wf()
        &&& usable::<T>()
    }

    open spec fn has_vertex(&self, iface: usize, nthvert: usize) -> bool {
        nthvert < 3 && self.model.has_corner(iface, nthvert)
    }

    open spec fn obeys_shader_spec() -> bool {
        true
    }

    /// The color of the band of the intensity, which is the intensities of the
    /// corners weighted by `bc`.
    open spec fn fragment_spec(&self, bc: Seq<T>) -> Result<Option<Color>, RenderError> {
        Ok(Some(band_color_spec(dot_spec(self.varying_intensity@, bc, 3))))
    }

    /// Keeps the intensity of the light at the corner and returns the corner in clip
    /// space.
    fn vertex(&mut self, iface: usize, nthvert: usize) -> (r: Result<Vec4<T>, RenderError>)
        ensures
            final(self).gl == old(self).gl,
            final(self).model == old(self).model,
            !old(self).has_vertex(iface, nthvert) ==> r == Err::<Vec4<T>, RenderError>(
                RenderError::DimensionMismatch,
            ),
            old(self).has_vertex(iface, nthvert) ==> (r matches Err(e) ==> e
                == RenderError::ZeroNorm),
            r matches Err(e) ==> (e == RenderError::DimensionMismatch || e == RenderError::ZeroNorm)
                && final(self).varying_intensity == old(self).varying_intensity,
            T::obeys_num_spec() && old(self).has_vertex(iface, nthvert) ==> (r is Err
                <==> norm_spec(
                old(self).model.norms@[old(self).model.corner(iface, nthvert)[2] as int]@,
            ).equals_spec(T::zero_spec())),
            T::obeys_num_spec() ==> (r matches Ok(p) ==> ({
                let corner = old(self).model.corner(iface, nthvert);
                &&& p@ == old(self).gl.clip_spec(old(self).model.verts@[corner[0] as int]@)
                &&& final(self).varying_intensity@ == old(self).varying_intensity@.update(
                    nthvert as int,
                    lit_spec(
                        normalize_spec(old(self).model.norms@[corner[2] as int]@),
                        old(self).gl.light_dir@,
                    ),
                )
            })),
    {
        if nthvert >= 3 {
            return Err(RenderError::DimensionMismatch);
        }
        let normal = match self.model.norm(iface, nthvert) {
            Ok(n) => n,
            Err(e) => {
                return Err(e);
            },
        };
        let position = match self.model.vert_by(iface, nthvert) {
            Ok(v) => v,
            Err(e) => {
                return Err(e);
            },
        };
        self.varying_intensity.set(nthvert, lit(&normal, &self.gl.light_dir));
        Ok(self.gl.to_clip(&position))
    }

    /// The color of the fragment: that of the band of its intensity, which is the
    /// intensities of the corners weighted by `bc`.
    fn fragment(&mut self, bc: Vec3<T>, gl_fragcoord: Vec3<T>) -> (r: Result<
        Option<Color>,
        RenderError,
    >)
        ensures
            *final(self) == *old(self),
            r matches Ok(Some(_)),
            T::obeys_num_spec() ==> r == Ok::<Option<Color>, RenderError>(
                Some(band_color_spec(dot_spec(old(self).varying_intensity@, bc@, 3))),
            ),
    {
        proof {
            if T::obeys_num_spec() {
                lemma_total_vectors(self.varying_intensity@, bc@, 3);
            }
        }
        let level = band(self.varying_intensity.dot(&bc));
        let color = [
            to_channel(T::from_i32(255).times(level)),
            to_channel(T::from_i32(155).times(level)),
            to_channel(T::from_i32(0).times(level)),
            255,
        ];
        Ok(Some(color))
    }
}

/// The color and the depth of the pixel `(x, y)` once the first `n` faces of the mesh
/// are drawn in six bands, under the transform `composite` in the light `light`:
/// where a face is drawn, the color of the band of its intensity there and its
/// depth; before any face, opaque black at the far depth.
pub open spec fn banded_pixel_spec<T: NumLike>(
    model: Model<T>,
    composite: Seq<Seq<T>>,
    light: Seq<T>,
    n: int,
    x: int,
    y: int,
) -> (Color, T)
    decreases n,
{
    if n <= 0 {
        ([0u8, 0u8, 0u8, 255u8], far_spec::<T>())
    } else {
        let before = banded_pixel_spec(model, composite, light, n - 1, x, y);
        let clip = face_clip_spec(model, composite, (n - 1) as usize);
        if draws_at(clip, WIDTH as int, HEIGHT as int, x, y, before.1) {
            (
                band_color_spec(
                    dot_spec(
                        face_intensity_spec(model, light, (n - 1) as usize),
                        pixel_weights_spec(clip, x, y),
                        3,
                    ),
                ),
                pixel_depth_spec(clip, x, y),
            )
        } else {
            before
        }
    }
}

/// Renders the mesh shaded in six bands, seen from (1, 1, 3) in the light from
/// (1, 1, 1), with the first row of the canvas at the top of the picture. A normal
/// of no length ends the render.
pub fn gouraud6l_render<T: NumLike>(model: &Model<T>) -> (r: Result<Canvas, RenderError>)
    requires
        model.wf(),
        usable::<T>(),
    ensures
        r matches Ok(img) ==> img.spec_width() == WIDTH && img.spec_height() == HEIGHT,
        T::obeys_num_spec() ==> (r matches Err(e) ==> e == RenderError::ZeroNorm),
        T::obeys_num_spec() ==> (r is Ok <==> !scene_fails_spec(
            vec3_spec::<T>(1, 1, 3),
            vec3_spec::<T>(1, 1, 1),
        ) && faces_are_lit(*model, model.faces@.len() as int)),
        T::obeys_num_spec() && r is Ok ==> forall|x: int, y: int|
            r->Ok_0.contains(x, y) ==> (#[trigger] r->Ok_0.color_at(x, y)) == banded_pixel_spec(
                *model,
                scene_composite_spec(vec3_spec::<T>(1, 1, 3)),
                normalize_spec(vec3_spec::<T>(1, 1, 1)),
                model.faces@.len() as int,
                x,
                HEIGHT - 1 - y,
            ).0,
{
    let gl = match scene(vec3(1, 1, 3), vec3(1, 1, 1)) {
        Ok(gl) => gl,
        Err(e) => {
            return Err(e);
        },
    };
    let ghost composite = gl.composite_spec();
    let ghost light = gl.light_dir@;
    let (mut img, mut zbuf) = blank_frame::<T>();
    let mut shader = Gouraud6LShader::new(&gl, model);
    let nfaces = model.nfaces();
    let mut i: usize = 0;
    while i < nfaces
        invariant
            i <= nfaces,
            nfaces == model.faces@.len(),
            model.wf(),
            gl.wf(),
            zbuf.wf(),
            usable::<T>(),
            shader.shader_req(),
            T::obeys_num_spec() ==> shader.gl == &gl && shader.model == model,
            forall|f: usize, n: usize| shader.has_vertex(f, n) == (n < 3 && model.has_corner(f, n)),
            composite == gl.composite_spec(),
            light == gl.light_dir@,
            T::obeys_num_spec() ==> faces_are_lit(*model, i as int),
            img.spec_width() == WIDTH && img.spec_height() == HEIGHT,
            zbuf.spec_width() == WIDTH && zbuf.spec_height() == HEIGHT,
            T::obeys_num_spec() ==> forall|x: int, y: int|
                img.contains(x, y) ==> (#[trigger] img.color_at(x, y)) == banded_pixel_spec(
                    *model,
                    composite,
                    light,
                    i as int,
                    x,
                    y,
                ).0,
            T::obeys_num_spec() ==> forall|x: int, y: int|
                img.contains(x, y) ==> (#[trigger] zbuf.depth_at(x, y)) == banded_pixel_spec(
                    *model,
                    composite,
                    light,
                    i as int,
                    x,
                    y,
                ).1,
        decreases nfaces - i,
    {
        let c0 = match shader.vertex(i, 0) {
            Ok(c) => c,
            Err(e) => {
                assert(T::obeys_num_spec() ==> normal_vanishes(*model, i as int, 0));
                return Err(e);
            },
        };
        assert(T::obeys_num_spec() ==> !normal_vanishes(*model, i as int, 0));
        let c1 = match shader.vertex(i, 1) {
            Ok(c) => c,
            Err(e) => {
                assert(T::obeys_num_spec() ==> normal_vanishes(*model, i as int, 1));
                return Err(e);
            },
        };
        assert(T::obeys_num_spec() ==> !normal_vanishes(*model, i as int, 1));
        let c2 = match shader.vertex(i, 2) {
            Ok(c) => c,
            Err(e) => {
                assert(T::obeys_num_spec() ==> normal_vanishes(*model, i as int, 2));
                return Err(e);
            },
        };
        assert(T::obeys_num_spec() ==> !normal_vanishes(*model, i as int, 2));
        let pts = [c0, c1, c2];
        proof {
            if T::obeys_num_spec() {
                assert(points_view(pts) =~~= face_clip_spec(*model, composite, i));
                assert(shader.varying_intensity@ =~= face_intensity_spec(*model, light, i));
            }
        }
        let ghost start = shader;
        match gl.triangle(pts, &mut shader, &mut img, &mut zbuf) {
            Ok(()) => {},
            Err(e) => {
                return Err(e);
            },
        }
        proof {
            if T::obeys_num_spec() {
                let clip = face_clip_spec(*model, composite, i);
                assert forall|x: int, y: int| img.contains(x, y) implies paints_at(
                    start,
                    clip,
                    WIDTH as int,
                    HEIGHT as int,
                    x,
                    y,
                    banded_pixel_spec(*model, composite, light, i as int, x, y).1,
                ) == draws_at(
                    clip,
                    WIDTH as int,
                    HEIGHT as int,
                    x,
                    y,
                    banded_pixel_spec(*model, composite, light, i as int, x, y).1,
                ) by {}
            }
        }
        i += 1;
    }
    let ghost drawn = img;
    img.flip_vertical();
    proof {
        if T::obeys_num_spec() {
            assert(composite == scene_composite_spec(vec3_spec::<T>(1, 1, 3)));
            assert forall|x: int, y: int| img.contains(x, y) implies (#[trigger] img.color_at(x, y))
                == banded_pixel_spec(
                *model,
                scene_composite_spec(vec3_spec::<T>(1, 1, 3)),
                normalize_spec(vec3_spec::<T>(1, 1, 1)),
                model.faces@.len() as int,
                x,
                HEIGHT - 1 - y,
            ).0 by {
                assert(drawn.contains(x, HEIGHT - 1 - y));
                assert(img.color_at(x, y) == drawn.color_at(x, HEIGHT - 1 - y));
            }
        }
    }
    Ok(img)
}

} // verus!
