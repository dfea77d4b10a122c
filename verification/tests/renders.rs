use tinyrender::camera::{depth_image, move_camera};
use tinyrender::error::RenderError;
use tinyrender::framebuffer::{Canvas, Color, DepthBuffer};
use tinyrender::geometry::{Vec2, Vec3, Vec3i, Vec_};
use tinyrender::line::wireframe;
use tinyrender::model::Model;
use tinyrender::shaders::ambientocclusion::ambient_occlusion_render;
use tinyrender::shaders::gouraud6l::gouraud6l_render;
use tinyrender::shaders::normalmapping::normal_mapping_render;
use tinyrender::shaders::shadowmapping::shadow_mapping_render;
use tinyrender::shaders::specularmapping::specular_mapping_render;
use tinyrender::shaders::texture::texture_render;
use tinyrender::shaders::{blank_frame, scene, vec3};
use tinyrender::triangle::{face_level, fill_face, flat_shading, linear_light, pixel_of, sample_triangle};
use tinyrender::util::{FloatLike, NumLike};
use tinyrender::zbuf::z_buf;

/// A double-precision scalar: every operation is defined, and rounds.
#[derive(Clone, Copy, Debug, PartialEq)]
struct Real(f64);

impl NumLike for Real {
    fn zero() -> Self {
        Real(0.0)
    }

    fn one() -> Self {
        Real(1.0)
    }

    fn from_i32(v: i32) -> Self {
        Real(v as f64)
    }

    fn to_i32(self) -> i32 {
        self.0 as i32
    }

    fn plus(self, rhs: Self) -> Self {
        Real(self.0 + rhs.0)
    }

    fn minus(self, rhs: Self) -> Self {
        Real(self.0 - rhs.0)
    }

    fn times(self, rhs: Self) -> Self {
        Real(self.0 * rhs.0)
    }

    fn over(self, rhs: Self) -> Self {
        Real(self.0 / rhs.0)
    }

    fn sqrt(self) -> Self {
        Real(self.0.sqrt())
    }

    fn equals(self, rhs: Self) -> bool {
        self.0 == rhs.0
    }

    fn less(self, rhs: Self) -> bool {
        self.0 < rhs.0
    }
}

impl FloatLike for Real {
    fn powf(self, exponent: Self) -> Self {
        Real(self.0.powf(exponent.0))
    }

    fn atan(self) -> Self {
        Real(self.0.atan())
    }

    fn cos(self) -> Self {
        Real(self.0.cos())
    }

    fn sin(self) -> Self {
        Real(self.0.sin())
    }

    fn pi() -> Self {
        Real(std::f64::consts::PI)
    }
}

fn reals<const N: usize>(v: [f64; N]) -> Vec_<Real, N> {
    Vec_::from(v.map(Real))
}

const BLACK: Color = [0, 0, 0, 255];
const CLEAR: Color = [0, 0, 0, 0];

fn filled(f: fn(u32, u32) -> Color) -> Canvas {
    let mut map = Canvas::new(4, 4).unwrap();
    for y in 0..4 {
        for x in 0..4 {
            map.put(x, y, f(x, y)).unwrap();
        }
    }
    map
}

fn diffuse(x: u32, y: u32) -> Color {
    [(x * 60 + y * 3) as u8, (100 + y * 10 + x) as u8, (200 + x + y) as u8, 77]
}

fn normals(x: u32, y: u32) -> Color {
    [(250 - x * 20) as u8, (128 + y * 30) as u8, (130 - x * 30) as u8, 255]
}

fn exponents(x: u32, y: u32) -> Color {
    [(1 + x + 2 * y) as u8, 9, 9, 255]
}

fn corner(v: i32, t: i32) -> Vec3i {
    Vec_::from([v, t, v])
}

/// Two small faces near the origin.
fn model() -> Model<Real> {
    model_with(
        vec![
            reals([0.0, 0.0, 1.0]),
            reals([0.3, 0.2, 1.0]),
            reals([1.0, 1.0, 1.0]),
            reals([-1.0, 0.0, 0.2]),
        ],
        vec![reals([0.1, 0.1]), reals([0.6, 0.2]), reals([0.3, 0.7])],
    )
}

/// The two faces with the normals `norms` and the texture coordinates `uvs`.
fn model_with(norms: Vec<Vec3<Real>>, uvs: Vec<Vec2<Real>>) -> Model<Real> {
    let verts: Vec<Vec3<Real>> = vec![
        reals([-0.05, -0.05, 0.0]),
        reals([0.05, -0.04, 0.01]),
        reals([0.0, 0.06, -0.01]),
        reals([0.02, 0.0, 0.05]),
    ];
    let faces = vec![
        vec![corner(0, 0), corner(1, 1), corner(2, 2)],
        vec![corner(1, 1), corner(3, 0), corner(2, 2)],
    ];
    Model::new(
        verts,
        faces,
        norms,
        uvs,
        filled(diffuse),
        filled(normals),
        filled(exponents),
    )
    .ok()
    .unwrap()
}

fn count(img: &Canvas, color: Color) -> usize {
    (0..img.height())
        .flat_map(|y| (0..img.width()).map(move |x| (x, y)))
        .filter(|(x, y)| img.get(*x, *y) == Ok(color))
        .count()
}

/// The rows and the columns that hold a pixel that is not of the color `ground`.
fn extent(img: &Canvas, ground: Color) -> (u32, u32, u32, u32) {
    let mut e = (u32::MAX, 0, u32::MAX, 0);
    for y in 0..img.height() {
        for x in 0..img.width() {
            if img.get(x, y) != Ok(ground) {
                e = (e.0.min(x), e.1.max(x), e.2.min(y), e.3.max(y));
            }
        }
    }
    e
}

fn checked(r: Result<Canvas, RenderError>, ground: Color) -> Canvas {
    let img = r.ok().unwrap();
    assert_eq!((img.width(), img.height()), (800, 800));
    let drawn = 640000 - count(&img, ground);
    assert!(drawn > 100 && drawn < 2000);
    let e = extent(&img, ground);
    assert!(e.0 > 350 && e.1 < 450 && e.2 > 350 && e.3 < 450);
    for y in 0..800 {
        for x in 0..800 {
            assert_eq!(img.get(x, y).unwrap()[3], ground[3].max(img.get(x, y).unwrap()[3]));
        }
    }
    img
}

#[test]
fn the_sample_triangle_stands_on_its_head() {
    let img = sample_triangle();
    assert_eq!((img.width(), img.height()), (200, 200));
    assert_eq!(count(&img, [255, 0, 0, 255]), 4976);
    assert_eq!(count(&img, CLEAR), 40000 - 4976);
    assert_eq!(img.get(10, 189), Ok([255, 0, 0, 255]));
    assert_eq!(img.get(190, 39), Ok([255, 0, 0, 255]));
    assert_eq!(img.get(100, 139), Ok([255, 0, 0, 255]));
    assert_eq!(img.get(10, 10), Ok(CLEAR));
    assert_eq!(img.get(0, 0), Ok(CLEAR));
    assert_eq!(img.get(199, 199), Ok(CLEAR));
}

#[test]
fn the_scene_of_the_renders() {
    let gl = scene::<Real>(vec3(1, 1, 3), vec3(1, 1, 1)).ok().unwrap();
    let third = 1.0 / 3.0f64.sqrt();
    assert_eq!(gl.light_dir, reals([third, third, third]));
    assert_eq!((gl.width, gl.height), (800, 800));
    assert_eq!(gl.viewport.data[0], reals([300.0, 0.0, 0.0, 400.0]).data);
    assert_eq!(gl.viewport.data[2], reals([0.0, 0.0, 63.75, 63.75]).data);
    assert_eq!(gl.projection.data[3], reals([0.0, 0.0, -1.0 / 11.0f64.sqrt(), 1.0]).data);
    assert_eq!(gl.model_view.data[2][..3], reals([1.0, 1.0, 3.0]).normalize().unwrap().data);
    assert_eq!(
        scene::<Real>(vec3(0, 0, 0), vec3(1, 1, 1)).err(),
        Some(RenderError::ZeroNorm)
    );
    assert_eq!(
        scene::<Real>(vec3(1, 1, 3), vec3(0, 0, 0)).err(),
        Some(RenderError::ZeroNorm)
    );
    let (img, zbuf) = blank_frame::<Real>();
    assert_eq!((img.width(), img.height(), zbuf.width(), zbuf.height()), (800, 800, 800, 800));
    assert_eq!(img.get(799, 0), Ok(BLACK));
    assert_eq!(zbuf.get(0, 799), Ok(Real(i32::MIN as f64)));
}

#[test]
fn render_in_six_bands() {
    let img = checked(gouraud6l_render(&model()), BLACK);
    assert_eq!(count(&img, BLACK), 639571);
    assert_eq!(count(&img, [153, 93, 0, 255]), 1);
    assert_eq!(count(&img, [204, 124, 0, 255]), 304);
    assert_eq!(count(&img, [255, 155, 0, 255]), 124);
    assert_eq!(extent(&img, BLACK), (387, 413, 382, 412));
    assert_eq!(img.get(400, 400), Ok([204, 124, 0, 255]));
    assert_eq!(img.get(398, 390), Ok([255, 155, 0, 255]));
    assert_eq!(img.get(395, 405), Ok([204, 124, 0, 255]));
    assert_eq!(img.get(400, 380), Ok(BLACK));
}

#[test]
fn render_with_a_texture() {
    let img = checked(texture_render(&model()), BLACK);
    // the same pixels as in six bands are drawn, or are black for want of light
    assert_eq!(extent(&img, BLACK), (387, 413, 382, 412));
}

#[test]
fn render_with_a_normal_map() {
    checked(normal_mapping_render(&model()), BLACK);
}

#[test]
fn render_with_a_specular_map() {
    let img = checked(specular_mapping_render(&model()), BLACK);
    // each fragment has at least the 5 that is added to each channel
    assert_eq!(extent(&img, BLACK), (387, 413, 382, 412));
    assert_eq!(640000 - count(&img, BLACK), 429);
}

#[test]
fn render_with_shadows() {
    let img = checked(shadow_mapping_render(&model()), BLACK);
    assert_eq!(extent(&img, BLACK), (387, 413, 382, 412));
    assert_eq!(640000 - count(&img, BLACK), 429);
}

#[test]
fn render_of_the_ambient_occlusion() {
    let img = ambient_occlusion_render(&model()).ok().unwrap();
    assert_eq!((img.width(), img.height()), (800, 800));
    let e = extent(&img, BLACK);
    assert!(e.0 > 350 && e.1 < 450 && e.2 > 350 && e.3 < 450);
    for y in e.2..=e.3 {
        for x in e.0..=e.1 {
            let c = img.get(x, y).unwrap();
            assert!(c[0] == c[1] && c[1] == c[2] && c[3] == 255);
        }
    }
}

#[test]
fn render_by_scanlines_with_its_depths() {
    let (img, depths) = move_camera(&model()).ok().unwrap();
    assert_eq!((img.width(), img.height()), (800, 800));
    assert_eq!((depths.width(), depths.height()), (800, 800));
    let e = extent(&img, BLACK);
    assert!(e.0 > 350 && e.1 < 450 && e.2 > 350 && e.3 < 450);
    // a pixel has a depth exactly where it was drawn, and both are gray
    for y in 0..800 {
        for x in 0..800 {
            let (c, d) = (img.get(x, y).unwrap(), depths.get(x, y).unwrap());
            assert!(c[0] == c[1] && c[1] == c[2] && c[3] == 255);
            assert!(d[0] == d[1] && d[1] == d[2] && d[3] == 255);
            if d != BLACK {
                assert!(x >= e.0 && x <= e.1 && y >= e.2 && y <= e.3);
                // the mesh lies near the origin, in the middle of the depths
                assert!(d[0] > 58 && d[0] < 70);
            }
        }
    }
    assert!(count(&depths, BLACK) < 640000);
}

#[test]
fn depths_as_a_picture() {
    let mut zbuf = DepthBuffer::new(3, 2, Real(-1e300)).unwrap();
    zbuf.set(0, 0, Real(127.9)).unwrap();
    zbuf.set(2, 1, Real(300.0)).unwrap();
    zbuf.set(1, 1, Real(-4.0)).unwrap();
    let img = depth_image(&zbuf).unwrap();
    assert_eq!((img.width(), img.height()), (3, 2));
    assert_eq!(img.get(0, 0), Ok([127, 127, 127, 255]));
    assert_eq!(img.get(2, 1), Ok([255, 255, 255, 255]));
    assert_eq!(img.get(1, 1), Ok(BLACK));
    assert_eq!(img.get(1, 0), Ok(BLACK));
}

#[test]
fn faces_seen_along_z() {
    let model = model();
    assert_eq!(pixel_of(&reals([-1.0, 1.0, 5.0])).data, [0, 799]);
    assert_eq!(pixel_of(&reals([0.0, 0.5, 0.0])).data, [399, 599]);
    assert_eq!(pixel_of(&reals([-0.05, -0.05, 0.0])).data, [379, 379]);
    let mut img = Canvas::new(800, 800).unwrap();
    assert_eq!(fill_face(&model, 0, &mut img, [1, 2, 3, 4]), Ok(()));
    assert_eq!(fill_face(&model, 2, &mut img, [9, 9, 9, 9]), Err(RenderError::DimensionMismatch));
    assert_eq!(count(&img, [9, 9, 9, 9]), 0);
    assert_eq!(extent(&img, CLEAR), (379, 419, 379, 423));
    assert_eq!(img.get(379, 379), Ok([1, 2, 3, 4]));
    assert_eq!(img.get(399, 423), Ok([1, 2, 3, 4]));
    assert_eq!(img.get(419, 383), Ok([1, 2, 3, 4]));
    assert_eq!(img.get(400, 400), Ok([1, 2, 3, 4]));
}

#[test]
fn the_light_on_a_face() {
    let light = reals([0.0, 0.0, -1.0]);
    let toward = [reals([0.0, 0.0, 0.0]), reals([0.0, 1.0, 0.0]), reals([1.0, 0.0, 0.0])];
    assert_eq!(face_level(&toward, &light), None);
    let away = [toward[0], toward[2], toward[1]];
    assert_eq!(face_level(&away, &light), Some(255));
    let tilted = [reals([0.0, 0.0, 0.0]), reals([4.0, 0.0, 0.0]), reals([0.0, 4.0, 3.0])];
    assert_eq!(face_level(&tilted, &light), Some(204));
    let line = [toward[0], toward[1], reals([0.0, 2.0, 0.0])];
    assert_eq!(face_level(&line, &light), None);
}

#[test]
fn render_in_random_colors() {
    let img = checked(flat_shading(&model()), CLEAR);
    let mut colors: Vec<Color> = Vec::new();
    for y in 0..800 {
        for x in 0..800 {
            let c = img.get(x, y).unwrap();
            if c != CLEAR && !colors.contains(&c) {
                colors.push(c);
            }
        }
    }
    assert!(colors.len() >= 1 && colors.len() <= 2);
    for c in colors {
        assert!(c[0] < 255 && c[1] < 255 && c[2] < 255 && c[3] == 255);
    }
    assert_eq!(img.get(379, 799 - 379), Ok(img.get(380, 799 - 380).unwrap()));
    assert!(img.get(379, 799 - 379) != Ok(CLEAR));
}

#[test]
fn render_in_the_light_along_z() {
    let lit = checked(linear_light(&model()), CLEAR);
    let buffered = checked(z_buf(&model()), CLEAR);
    // the light reaches the first face, at 0.98 of its strength; the second looks away
    let gray = [250, 250, 250, 255];
    for img in [&lit, &buffered] {
        assert_eq!(img.get(400, 799 - 400), Ok(gray));
        assert_eq!(640000 - count(img, CLEAR), count(img, gray));
    }
    // with corners on whole pixels
    assert_eq!(count(&lit, gray), 855);
    assert_eq!(extent(&lit, CLEAR), (379, 419, 799 - 423, 799 - 379));
    assert_eq!(lit.get(379, 799 - 379), Ok(gray));
    // and with corners between them
    assert_eq!(count(&buffered, gray), 842);
    assert_eq!(extent(&buffered, CLEAR), (380, 419, 799 - 422, 799 - 380));
    assert_eq!(buffered.get(379, 799 - 379), Ok(CLEAR));
}

#[test]
fn render_of_the_edges() {
    let img = wireframe::<Real, Real>(&model()).ok().unwrap();
    assert_eq!((img.width(), img.height()), (801, 801));
    let drawn = 641601 - count(&img, CLEAR);
    assert_eq!(drawn, count(&img, BLACK));
    assert!(drawn > 100 && drawn < 400);
    let e = extent(&img, CLEAR);
    assert!(e.0 >= 379 && e.1 <= 421 && e.2 >= 376 && e.3 <= 421);
}

#[test]
fn a_mesh_without_faces_renders_the_ground() {
    let empty = || {
        Model::<Real>::new(
            Vec::new(),
            Vec::new(),
            Vec::new(),
            Vec::new(),
            filled(diffuse),
            filled(normals),
            filled(exponents),
        )
        .ok()
        .unwrap()
    };
    let img = gouraud6l_render(&empty()).ok().unwrap();
    assert_eq!(count(&img, BLACK), 640000);
    let img = z_buf(&empty()).ok().unwrap();
    assert_eq!(count(&img, CLEAR), 640000);
    let img = wireframe::<Real, Real>(&empty()).ok().unwrap();
    assert_eq!(count(&img, CLEAR), 641601);
}

#[test]
fn a_normal_of_no_length_ends_the_renders_that_light_by_it() {
    let flat = || {
        model_with(
            vec![
                reals([0.0, 0.0, 1.0]),
                reals([0.3, 0.2, 1.0]),
                reals([0.0, 0.0, 0.0]),
                reals([-1.0, 0.0, 0.2]),
            ],
            vec![reals([0.1, 0.1]), reals([0.6, 0.2]), reals([0.3, 0.7])],
        )
    };
    assert_eq!(gouraud6l_render(&flat()).err(), Some(RenderError::ZeroNorm));
    assert_eq!(texture_render(&flat()).err(), Some(RenderError::ZeroNorm));
    assert_eq!(move_camera(&flat()).err(), Some(RenderError::ZeroNorm));
    // the normal map stands in for the normals of the mesh
    assert!(normal_mapping_render(&flat()).is_ok());
    assert!(ambient_occlusion_render(&flat()).is_ok());
}

#[test]
fn texture_coordinates_that_sample_nothing_end_the_textured_renders() {
    let beside = || {
        model_with(
            vec![
                reals([0.0, 0.0, 1.0]),
                reals([0.3, 0.2, 1.0]),
                reals([1.0, 1.0, 1.0]),
                reals([-1.0, 0.0, 0.2]),
            ],
            vec![reals([1.5, 0.1]), reals([1.6, 0.2]), reals([1.3, 0.7])],
        )
    };
    assert_eq!(texture_render(&beside()).err(), Some(RenderError::SampleOutOfRange));
    assert_eq!(normal_mapping_render(&beside()).err(), Some(RenderError::SampleOutOfRange));
    assert_eq!(specular_mapping_render(&beside()).err(), Some(RenderError::SampleOutOfRange));
    assert_eq!(shadow_mapping_render(&beside()).err(), Some(RenderError::SampleOutOfRange));
    // no texture is sampled in six bands
    let img = gouraud6l_render(&beside()).ok().unwrap();
    assert_eq!(count(&img, BLACK), 639571);
}

#[test]
fn what_the_mesh_does_not_cover_stays_black_under_the_open_sky() {
    let img = ambient_occlusion_render(&model()).ok().unwrap();
    let mut gray = 0;
    for y in 0..800 {
        for x in 0..800 {
            let c = img.get(x, y).unwrap();
            assert!(c[0] == c[1] && c[1] == c[2] && c[3] == 255);
            if c != BLACK {
                gray += 1;
            }
        }
    }
    assert!(gray > 100 && gray < 2000);
    assert_eq!(img.get(0, 0), Ok(BLACK));
    assert_eq!(img.get(799, 799), Ok(BLACK));
}
