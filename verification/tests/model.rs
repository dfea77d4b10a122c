use tinyrender::error::RenderError;
use tinyrender::framebuffer::Canvas;
use tinyrender::geometry::{Vec2, Vec3, Vec3i, Vec_};
use tinyrender::model::{parse_corner, texel, Model};
use tinyrender::util::NumLike;

/// A double-precision scalar: every operation is defined, and rounds.
#[derive(Clone, Copy, Debug, PartialEq)]
struct Real(f64);

impl NumLike for Real {
    fn zero() -> Self {
        Real(0.0)
    }

    fn one() -> Self {
        Real(1.0)
    }

    fn from_i32(v: i32) -> Self {
        Real(v as f64)
    }

    fn to_i32(self) -> i32 {
        self.0 as i32
    }

    fn plus(self, rhs: Self) -> Self {
        Real(self.0 + rhs.0)
    }

    fn minus(self, rhs: Self) -> Self {
        Real(self.0 - rhs.0)
    }

    fn times(self, rhs: Self) -> Self {
        Real(self.0 * rhs.0)
    }

    fn over(self, rhs: Self) -> Self {
        Real(self.0 / rhs.0)
    }

    fn sqrt(self) -> Self {
        Real(self.0.sqrt())
    }

    fn equals(self, rhs: Self) -> bool {
        self.0 == rhs.0
    }

    fn less(self, rhs: Self) -> bool {
        self.0 < rhs.0
    }
}

fn reals<const N: usize>(v: [f64; N]) -> Vec_<Real, N> {
    Vec_::from(v.map(Real))
}

fn texture(width: u32, height: u32, shade: u8) -> Canvas {
    let mut map = Canvas::new(width, height).unwrap();
    for y in 0..height {
        for x in 0..width {
            map.put(x, y, [x as u8 + shade, y as u8, shade, 255]).unwrap();
        }
    }
    map
}

fn corner(v: i32, t: i32, n: i32) -> Vec3i {
    Vec_::from([v, t, n])
}

fn parts() -> (
    Vec<Vec3<Real>>,
    Vec<Vec<Vec3i>>,
    Vec<Vec3<Real>>,
    Vec<Vec2<Real>>,
) {
    (
        vec![
            reals([0.0, 0.0, 0.0]),
            reals([1.0, 0.0, 0.0]),
            reals([0.0, 1.0, 0.0]),
            reals([1.0, 1.0, 0.5]),
        ],
        vec![
            vec![corner(0, 0, 0), corner(1, 1, 1), corner(2, 2, 0)],
            vec![corner(3, 2, 1), corner(2, 1, 1), corner(1, 0, 0), corner(0, 0, 0)],
        ],
        vec![reals([0.0, 0.0, 2.0]), reals([0.0, 3.0, 4.0])],
        vec![reals([0.0, 0.0]), reals([0.5, 0.0]), reals([0.0, 0.75])],
    )
}

fn model() -> Model<Real> {
    let (verts, faces, norms, uvs) = parts();
    match Model::new(
        verts,
        faces,
        norms,
        uvs,
        texture(4, 4, 10),
        texture(4, 2, 20),
        texture(2, 4, 30),
    ) {
        Ok(m) => m,
        Err(e) => panic!("{:?}", e),
    }
}

fn rejected(
    verts: Vec<Vec3<Real>>,
    faces: Vec<Vec<Vec3i>>,
    norms: Vec<Vec3<Real>>,
    uvs: Vec<Vec2<Real>>,
) -> Option<RenderError> {
    Model::new(
        verts,
        faces,
        norms,
        uvs,
        texture(1, 1, 0),
        texture(1, 1, 0),
        texture(1, 1, 0),
    )
    .err()
}

#[test]
fn test_model_new() {
    let model = model();
    assert!(model.nverts() > 0);
    assert!(model.nfaces() > 0);
    assert!(model.norms.len() > 0);
    println!("nverts:{:}, norms:{:}", model.nverts(), model.norms.len());
    assert_eq!((model.nverts(), model.nfaces()), (4, 2));
}

#[test]
fn a_mesh_with_a_defect_is_rejected() {
    let (verts, faces, norms, uvs) = parts();
    assert_eq!(rejected(verts, faces, norms, uvs), None);
    let (verts, mut faces, norms, uvs) = parts();
    faces[0].pop();
    assert_eq!(rejected(verts, faces, norms, uvs), Some(RenderError::MeshLoadError));
    let (verts, mut faces, norms, uvs) = parts();
    faces[1][3] = corner(4, 0, 0);
    assert_eq!(rejected(verts, faces, norms, uvs), Some(RenderError::MeshLoadError));
    let (verts, mut faces, norms, uvs) = parts();
    faces[1][0] = corner(0, 3, 0);
    assert_eq!(rejected(verts, faces, norms, uvs), Some(RenderError::MeshLoadError));
    let (verts, mut faces, norms, uvs) = parts();
    faces[0][2] = corner(0, 0, 2);
    assert_eq!(rejected(verts, faces, norms, uvs), Some(RenderError::MeshLoadError));
    let (verts, mut faces, norms, uvs) = parts();
    faces[0][1] = corner(-1, 0, 0);
    assert_eq!(rejected(verts, faces, norms, uvs), Some(RenderError::MeshLoadError));
    let (verts, _, norms, uvs) = parts();
    assert_eq!(rejected(verts, Vec::new(), norms, uvs), None);
}

#[test]
fn a_texture_beyond_32_bit_coordinates_is_rejected() {
    let wide = || Canvas::new(1 << 31, 0).unwrap();
    let (verts, faces, norms, uvs) = parts();
    let r = Model::new(verts, faces, norms, uvs, texture(1, 1, 0), wide(), texture(1, 1, 0));
    assert_eq!(r.err(), Some(RenderError::TextureLoadError));
    let (verts, faces, norms, uvs) = parts();
    let r = Model::new(verts, faces, norms, uvs, texture(1, 1, 0), texture(1, 1, 0), wide());
    assert_eq!(r.err(), Some(RenderError::TextureLoadError));
    // a defect of the mesh is found first
    let (verts, mut faces, norms, uvs) = parts();
    faces[0].pop();
    let r = Model::new(verts, faces, norms, uvs, wide(), texture(1, 1, 0), texture(1, 1, 0));
    assert_eq!(r.err(), Some(RenderError::MeshLoadError));
    assert_eq!(texel(&wide(), Real(0.0), Real(0.0)), Err(RenderError::SampleOutOfRange));
}

#[test]
fn corners_of_faces() {
    let model = model();
    assert_eq!(model.vert(3), Ok(reals([1.0, 1.0, 0.5])));
    assert_eq!(model.vert(4), Err(RenderError::DimensionMismatch));
    assert_eq!(model.face(0), Ok(vec![0, 1, 2]));
    assert_eq!(model.face(1), Ok(vec![3, 2, 1, 0]));
    assert_eq!(model.face(2), Err(RenderError::DimensionMismatch));
    assert_eq!(model.vert_by(1, 0), Ok(reals([1.0, 1.0, 0.5])));
    assert_eq!(model.vert_by(1, 3), Ok(reals([0.0, 0.0, 0.0])));
    assert_eq!(model.vert_by(0, 3), Err(RenderError::DimensionMismatch));
    assert_eq!(model.vert_by(2, 0), Err(RenderError::DimensionMismatch));
    assert_eq!(model.uv(0, 2), Ok(reals([0.0, 0.75])));
    assert_eq!(model.uv(1, 1), Ok(reals([0.5, 0.0])));
    assert_eq!(model.uv(1, 4), Err(RenderError::DimensionMismatch));
    assert_eq!(model.norm(0, 0), Ok(reals([0.0, 0.0, 1.0])));
    assert_eq!(model.norm(0, 1), Ok(reals([0.0, 0.6, 0.8])));
    assert_eq!(model.norm(5, 1), Err(RenderError::DimensionMismatch));
    assert_eq!(
        model.corners(1),
        Ok([reals([1.0, 1.0, 0.5]), reals([0.0, 1.0, 0.0]), reals([1.0, 0.0, 0.0])])
    );
    assert_eq!(model.corners(2), Err(RenderError::DimensionMismatch));
}

#[test]
fn a_normal_of_no_length_is_reported() {
    let (verts, faces, mut norms, uvs) = parts();
    norms[1] = reals([0.0, 0.0, 0.0]);
    let model = Model::new(
        verts,
        faces,
        norms,
        uvs,
        texture(1, 1, 0),
        texture(1, 1, 0),
        texture(1, 1, 0),
    )
    .ok()
    .unwrap();
    assert_eq!(model.norm(0, 1), Err(RenderError::ZeroNorm));
    assert_eq!(model.norm(0, 0), Ok(reals([0.0, 0.0, 1.0])));
}

#[test]
fn textures_are_sampled_by_the_nearest_texel_and_not_outside() {
    let model = model();
    // the diffuse map has 4 by 4 texels
    assert_eq!(model.diffuse(Real(0.0), Real(0.0)), Ok([10, 0, 10, 255]));
    assert_eq!(model.diffuse(Real(0.49), Real(0.5)), Ok([11, 2, 10, 255]));
    assert_eq!(model.diffuse(Real(0.5), Real(0.99)), Ok([12, 3, 10, 255]));
    assert_eq!(model.diffuse(Real(0.999), Real(0.25)), Ok([13, 1, 10, 255]));
    assert_eq!(model.diffuse(Real(1.0), Real(0.0)), Err(RenderError::SampleOutOfRange));
    assert_eq!(model.diffuse(Real(0.0), Real(1.0)), Err(RenderError::SampleOutOfRange));
    assert_eq!(model.diffuse(Real(7.5), Real(0.0)), Err(RenderError::SampleOutOfRange));
    // below zero the first column and row are sampled
    assert_eq!(model.diffuse(Real(-0.2), Real(0.5)), Ok([10, 2, 10, 255]));
    assert_eq!(model.diffuse(Real(-7.0), Real(-7.0)), Ok([10, 0, 10, 255]));
    assert_eq!(model.diffuse(Real(f64::NAN), Real(0.5)), Ok([10, 2, 10, 255]));
    // the specular map has 2 by 4 texels and gives its red channel
    assert_eq!(model.specular(Real(0.5), Real(0.5)), Ok(Real(31.0)));
    assert_eq!(model.specular(Real(0.25), Real(0.0)), Ok(Real(30.0)));
    assert_eq!(model.specular(Real(1.5), Real(0.0)), Err(RenderError::SampleOutOfRange));
    // the normal map has 4 by 2 texels: blue gives x, green y and red z
    let n = model.norm_by(reals([0.75, 0.5])).unwrap();
    assert_eq!(
        n,
        reals([
            20.0 / 255.0 * 2.0 - 1.0,
            1.0 / 255.0 * 2.0 - 1.0,
            23.0 / 255.0 * 2.0 - 1.0
        ])
    );
    assert_eq!(model.norm_by(reals([0.0, 1.0])), Err(RenderError::SampleOutOfRange));
    let empty = Canvas::new(0, 3).unwrap();
    assert_eq!(texel(&empty, Real(0.0), Real(0.0)), Err(RenderError::SampleOutOfRange));
}

#[test]
fn corners_of_faces_are_read_from_words() {
    for (word, want) in [
        ("1/2/3", [0, 1, 2]),
        ("12/7/30", [11, 6, 29]),
        ("01/002/3", [0, 1, 2]),
        ("1/2/3/4", [0, 1, 2]),
        ("1/2/3/", [0, 1, 2]),
        ("2147483647/1/1", [2147483646, 0, 0]),
    ] {
        assert_eq!(parse_corner(word).map(|c| c.data), Ok(want));
    }
    for word in [
        "", "1", "1/2", "1//3", "/2/3", "1/2/", "0/1/1", "1/0/1", "1/1/0", "-1/2/3", "+1/2/3",
        "a/b/c", "1/2/3x", "1 /2/3", "2147483648/1/1", "1/99999999999999999999999/1", "1.5/2/3",
    ] {
        assert_eq!(parse_corner(word).map(|c| c.data), Err(RenderError::MeshLoadError));
    }
}
