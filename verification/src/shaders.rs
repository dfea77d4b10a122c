//! The shading variants, and what their renders share: the scene and the frame.
use crate::error::RenderError;
use crate::framebuffer::{Canvas, Color, DepthBuffer};
use crate::geometry::{
    embed, embed_spec, lemma_total_vectors, minus_spec_all, norm_spec, normalize_spec, Vec3, Vec_,
};
use crate::gl::GL;
use crate::matrix::{lemma_total_matrices, mul_spec, mul_vec_spec, Mat};
use crate::model::Model;
use crate::util::{to_channel, to_channel_spec, usable, NumLike};
use vstd::prelude::*;

pub mod ambientocclusion;
pub mod gouraud6l;
pub mod normalmapping;
pub mod shadowmapping;
pub mod specularmapping;
pub mod texture;

verus! {

/// The width of the frame of every render, in pixels.
pub const WIDTH: u32 = 800;

/// The height of the frame of every render, in pixels.
pub const HEIGHT: u32 = 800;

/// The depth that a buffer holds where nothing was drawn: below every depth of a
/// fragment.
pub open spec fn far_spec<T: NumLike>() -> T {
    T::from_i32_spec(i32::MIN)
}

/// The vector with the components `x`, `y` and `z`, formed in `T`.
pub open spec fn vec3_spec<T: NumLike>(x: i32, y: i32, z: i32) -> Seq<T> {
    seq![T::from_i32_spec(x), T::from_i32_spec(y), T::from_i32_spec(z)]
}

/// The vector with the components `x`, `y` and `z`, formed in `T`.
pub fn vec3<T: NumLike>(x: i32, y: i32, z: i32) -> (r: Vec3<T>)
    ensures
        T::obeys_num_spec() ==> r@ == vec3_spec::<T>(x, y, z),
{
    let r = Vec_ { data: [T::from_i32(x), T::from_i32(y), T::from_i32(z)] };
    assert(T::obeys_num_spec() ==> r@ =~= vec3_spec::<T>(x, y, z));
    r
}

/// A frame of the size of every render: a canvas of opaque black and a depth buffer
/// that holds the far depth.
pub fn blank_frame<T: NumLike>() -> (r: (Canvas, DepthBuffer<T>))
    ensures
        r.1.wf(),
        r.0.spec_width() == WIDTH && r.0.spec_height() == HEIGHT,
        r.1.spec_width() == WIDTH && r.1.spec_height() == HEIGHT,
        forall|x: int, y: int| r.0.contains(x, y) ==> #[trigger] r.0.color_at(x, y) == [0u8, 0u8, 0u8, 255u8],
        T::obeys_num_spec() ==> forall|x: int, y: int|
            r.1.contains(x, y) ==> #[trigger] r.1.depth_at(x, y) == far_spec::<T>(),
{
    let far = T::from_i32(i32::MIN);
    let img = match Canvas::from_pixel(WIDTH, HEIGHT, [0, 0, 0, 255]) {
        Some(img) => img,
        None => vstd::pervasive::unreached(),
    };
    let zbuf = match DepthBuffer::new(WIDTH, HEIGHT, far) {
        Some(zbuf) => zbuf,
        None => vstd::pervasive::unreached(),
    };
    (img, zbuf)
}

/// The projection of a camera at the distance `distance` from what it looks at: the
/// identity but for the entry in row 3 and column 2, which is -1 over the distance.
pub open spec fn perspective_spec<T: NumLike>(distance: T) -> Seq<Seq<T>> {
    crate::matrix::identity_spec::<T>(4).update(
        3,
        crate::matrix::identity_spec::<T>(4)[3].update(
            2,
            T::from_i32_spec(-1i32).over_spec(distance),
        ),
    )
}

/// The state of a render with a camera at `eye` that looks at the origin, with the y
/// axis upward; with the light from `light`, normalized; with the viewport in the
/// middle three quarters of the frame; and with the perspective of the camera's
/// distance.
pub fn scene<T: NumLike>(eye: Vec3<T>, light: Vec3<T>) -> (r: Result<GL<T>, RenderError>)
    requires
        usable::<T>(),
    ensures
        r matches Ok(gl) ==> gl.wf() && gl.width == WIDTH && gl.height == HEIGHT,
        r matches Err(e) ==> e == RenderError::ZeroNorm,
        T::obeys_num_spec() ==> (r is Err <==> scene_fails_spec(eye@, light@)),
        T::obeys_num_spec() ==> (r matches Ok(gl) ==> {
            &&& gl.light_dir@ == normalize_spec(light@)
            &&& gl.model_view@ == crate::camera::lookat_spec(
                eye@,
                vec3_spec::<T>(0, 0, 0),
                vec3_spec::<T>(0, 1, 0),
            )
            &&& gl.viewport@ == crate::camera::viewport_spec::<T>(100, 100, 600, 600)
            &&& gl.projection@ == perspective_spec(
                norm_spec(minus_spec_all(eye@, vec3_spec::<T>(0, 0, 0))),
            )
        }),
{
    let center = vec3(0, 0, 0);
    let up = vec3(0, 1, 0);
    let mut light_dir = light;
    proof {
        if T::obeys_num_spec() {
            lemma_total_vectors(light@, light@, 3);
            lemma_total_vectors(eye@, center@, 3);
            lemma_total_vectors(minus_spec_all(eye@, center@), center@, 3);
        }
    }
    match light_dir.normalize() {
        Ok(_) => {},
        Err(e) => {
            return Err(e);
        },
    }
    let mut gl = GL::new(light_dir, WIDTH, HEIGHT);
    match gl.lookat(eye, center, up) {
        Ok(()) => {},
        Err(e) => {
            return Err(e);
        },
    }
    gl.viewport(
        (WIDTH / 8) as i32,
        (HEIGHT / 8) as i32,
        (WIDTH * 3 / 4) as i32,
        (HEIGHT * 3 / 4) as i32,
    );
    let distance = eye.minus(&center).norm();
    gl.projection(T::from_i32(-1).over(distance));
    Ok(gl)
}

/// The color `c` with its red, green and blue multiplied by `ity`, and opaque.
pub open spec fn tint_spec<T: NumLike>(c: Color, ity: T) -> Color {
    [
        to_channel_spec(T::from_i32_spec(c@[0] as i32).times_spec(ity)),
        to_channel_spec(T::from_i32_spec(c@[1] as i32).times_spec(ity)),
        to_channel_spec(T::from_i32_spec(c@[2] as i32).times_spec(ity)),
        255u8,
    ]
}

/// The color `c` with its red, green and blue multiplied by `ity`, and opaque.
pub fn tint<T: NumLike>(c: Color, ity: T) -> (r: Color)
    requires
        usable::<T>(),
    ensures
        T::obeys_num_spec() ==> r == tint_spec(c, ity),
{
    [
        to_channel(T::from_i32(c[0] as i32).times(ity)),
        to_channel(T::from_i32(c[1] as i32).times(ity)),
        to_channel(T::from_i32(c[2] as i32).times(ity)),
        255,
    ]
}

/// Whether `m` is the matrix of a varying with `rows` components at each of the
/// three corners of a face.
pub open spec fn is_varying<T: NumLike>(m: Mat<T>, rows: int) -> bool {
    m.wf() && m.M == rows && m.N == 3
}

/// Whether `m` is a transform: a matrix of four rows and four columns.
pub open spec fn is_transform<T: NumLike>(m: Mat<T>) -> bool {
    m.wf() && m.M == 4 && m.N == 4
}

/// The varying `m` at the point of the face with the weights `bc`.
pub fn interpolate<T: NumLike>(m: &Mat<T>, bc: &Vec3<T>) -> (r: Vec<T>)
    requires
        m.wf(),
        m.N == 3,
        usable::<T>(),
    ensures
        r@.len() == m.M,
        T::obeys_num_spec() ==> r@ == mul_vec_spec(m@, bc@),
{
    proof {
        if T::obeys_num_spec() {
            lemma_total_matrices(m@, m@, 3, bc@, T::one_spec());
        }
    }
    match m.transform(bc) {
        Ok(r) => r,
        Err(_) => vstd::pervasive::unreached(),
    }
}

/// Stores the first components of `value` as the varying `m` at the corner
/// `nthvert` of the face.
pub fn set_varying<T: NumLike>(m: &mut Mat<T>, nthvert: usize, value: &Vec<T>)
    requires
        old(m).wf(),
        old(m).N == 3,
        nthvert < 3,
        value.len() >= old(m).M,
    ensures
        final(m).wf(),
        final(m).M == old(m).M,
        final(m).N == 3,
        final(m)@ == crate::matrix::with_column_spec(old(m)@, nthvert as int, value@),
{
    let _ = m.set_col(nthvert, value);
}

/// The direction of `v` after the transform `m`: the first three components of `m`
/// applied to `(v.x, v.y, v.z, 1)`, before they are normalized.
pub open spec fn transformed_spec<T: NumLike>(m: Seq<Seq<T>>, v: Seq<T>) -> Seq<T> {
    mul_vec_spec(m, embed_spec(v, T::one_spec(), 4)).take(3)
}

/// The direction of `v` after the transform `m`, normalized.
pub fn transform_direction<T: NumLike>(m: &Mat<T>, v: &Vec3<T>) -> (r: Result<
    Vec3<T>,
    RenderError,
>)
    requires
        is_transform(*m),
        usable::<T>(),
    ensures
        r matches Err(e) ==> e == RenderError::ZeroNorm,
        T::obeys_num_spec() ==> (r is Err <==> norm_spec(transformed_spec(m@, v@)).equals_spec(
            T::zero_spec(),
        )),
        T::obeys_num_spec() ==> (r matches Ok(d) ==> d@ == normalize_spec(
            transformed_spec(m@, v@),
        )),
{
    let point = embed::<T, 4, 3>(v, T::one());
    proof {
        if T::obeys_num_spec() {
            lemma_total_matrices(m@, m@, 4, point@, T::one_spec());
            lemma_total_vectors(transformed_spec(m@, v@), v@, 3);
        }
    }
    let moved = match m.transform(&point) {
        Ok(moved) => moved,
        Err(_) => vstd::pervasive::unreached(),
    };
    let mut d = Vec_ { data: [moved[0], moved[1], moved[2]] };
    assert(T::obeys_num_spec() ==> d@ =~= transformed_spec(m@, v@));
    d.normalize()
}

/// The two uniforms of a shader that lights in the space of the camera: projection
/// times view, and the transposed inverse of that.
pub fn uniforms<T: NumLike>(gl: &GL<T>) -> (r: Result<(Mat<T>, Mat<T>), RenderError>)
    requires
        gl.wf(),
        usable::<T>(),
    ensures
        r matches Ok(u) ==> is_transform(u.0) && is_transform(u.1),
        r matches Err(e) ==> e == RenderError::SingularMatrix,
        T::obeys_num_spec() ==> (r is Err <==> crate::matrix::singular_spec(
            mul_spec(gl.projection@, gl.model_view@, 4),
        )),
        T::obeys_num_spec() ==> (r matches Ok(u) ==> u.0@ == mul_spec(
            gl.projection@,
            gl.model_view@,
            4,
        ) && u.1@ == crate::matrix::invert_transpose_spec(u.0@)),
{
    proof {
        if T::obeys_num_spec() {
            let one = T::one_spec();
            lemma_total_matrices(gl.projection@, gl.model_view@, 4, seq![one], one);
            lemma_total_matrices(
                mul_spec(gl.projection@, gl.model_view@, 4),
                gl.model_view@,
                4,
                seq![one],
                one,
            );
        }
    }
    let m = match gl.projection.mul_mat(&gl.model_view) {
        Ok(m) => m,
        Err(_) => vstd::pervasive::unreached(),
    };
    match m.invert_transpose() {
        Ok(it) => Ok((m, it)),
        Err(_) => Err(RenderError::SingularMatrix),
    }
}

/// The transform of the scene of the renders with the camera at `eye`: viewport
/// times projection times view.
pub open spec fn scene_composite_spec<T: NumLike>(eye: Seq<T>) -> Seq<Seq<T>> {
    crate::camera::scene_composite_spec(eye)
}

/// The three corners of the face `f` of the mesh in clip space, under the transform
/// `composite`.
pub open spec fn face_clip_spec<T: NumLike>(model: Model<T>, composite: Seq<Seq<T>>, f: usize) -> Seq<
    Seq<T>,
> {
    Seq::new(
        3,
        |k: int|
            mul_vec_spec(
                composite,
                embed_spec(model.verts@[model.corner(f, k as usize)[0] as int]@, T::one_spec(), 4),
            ),
    )
}

/// The intensity of the light `light` at the three corners of the face `f` of the
/// mesh.
pub open spec fn face_intensity_spec<T: NumLike>(model: Model<T>, light: Seq<T>, f: usize) -> Seq<T> {
    Seq::new(
        3,
        |k: int|
            crate::shaders::gouraud6l::lit_spec(
                normalize_spec(model.norms@[model.corner(f, k as usize)[2] as int]@),
                light,
            ),
    )
}

/// The texture coordinates of the three corners of the face `f` of the mesh: a row
/// of the three for each of the two coordinates.
pub open spec fn face_uv_spec<T: NumLike>(model: Model<T>, f: usize) -> Seq<Seq<T>> {
    Seq::new(
        2,
        |r: int| Seq::new(3, |k: int| model.uvs@[model.corner(f, k as usize)[1] as int]@[r]),
    )
}

/// Whether the normal of the corner `k` of the face `f` of the mesh has no length.
pub open spec fn normal_vanishes<T: NumLike>(model: Model<T>, f: int, k: int) -> bool {
    norm_spec(model.norms@[model.corner(f as usize, k as usize)[2] as int]@).equals_spec(
        T::zero_spec(),
    )
}

/// Whether each corner of the first `n` faces of the mesh has a normal with a
/// length.
pub open spec fn faces_are_lit<T: NumLike>(model: Model<T>, n: int) -> bool {
    forall|f: int, k: int| 0 <= f < n && 0 <= k < 3 ==> !#[trigger] normal_vanishes(model, f, k)
}

/// Whether no scene can be set up with the camera at `eye` and the light from
/// `light`: the light has no length, or the camera stands where it looks or looks
/// straight up or down.
pub open spec fn scene_fails_spec<T: NumLike>(eye: Seq<T>, light: Seq<T>) -> bool {
    crate::camera::has_zero_norm(light) || crate::camera::lookat_fails(
        eye,
        vec3_spec::<T>(0, 0, 0),
        vec3_spec::<T>(0, 1, 0),
    )
}

/// Projection times view in the scene of the renders with the camera at `eye`.
pub open spec fn scene_uniform_spec<T: NumLike>(eye: Seq<T>) -> Seq<Seq<T>> {
    let origin = vec3_spec::<T>(0, 0, 0);
    mul_spec(
        perspective_spec(norm_spec(minus_spec_all(eye, origin))),
        crate::camera::lookat_spec(eye, origin, vec3_spec::<T>(0, 1, 0)),
        4,
    )
}

} // verus!
