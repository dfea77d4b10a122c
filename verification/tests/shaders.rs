use tinyrender::error::RenderError;
use tinyrender::framebuffer::{Canvas, Color, DepthBuffer};
use tinyrender::geometry::{Vec2, Vec3, Vec3i, Vec_};
use tinyrender::gl::{IShader, GL};
use tinyrender::matrix::Mat;
use tinyrender::model::Model;
use tinyrender::shaders::ambientocclusion::{
    gray_level, max_elevation_angle, occlusion_level, open_sky, sky_share, ZShader,
};
use tinyrender::shaders::gouraud6l::{band, lit, Gouraud6LShader};
use tinyrender::shaders::normalmapping::NormalMappingShader;
use tinyrender::shaders::shadowmapping::{
    shadow_factor, shadowed_color, DepthShader, Pass2Shader,
};
use tinyrender::shaders::specularmapping::{lit_color, mirrored, SpecularMappingShader};
use tinyrender::shaders::texture::TextureShader;
use tinyrender::shaders::{tint, transform_direction};
use tinyrender::util::{FloatLike, NumLike};

/// A double-precision scalar: every operation is defined, and rounds.
#[derive(Clone, Copy, Debug, PartialEq)]
struct Real(f64);

impl NumLike for Real {
    fn zero() -> Self {
        Real(0.0)
    }

    fn one() -> Self {
        Real(1.0)
    }

    fn from_i32(v: i32) -> Self {
        Real(v as f64)
    }

    fn to_i32(self) -> i32 {
        self.0 as i32
    }

    fn plus(self, rhs: Self) -> Self {
        Real(self.0 + rhs.0)
    }

    fn minus(self, rhs: Self) -> Self {
        Real(self.0 - rhs.0)
    }

    fn times(self, rhs: Self) -> Self {
        Real(self.0 * rhs.0)
    }

    fn over(self, rhs: Self) -> Self {
        Real(self.0 / rhs.0)
    }

    fn sqrt(self) -> Self {
        Real(self.0.sqrt())
    }

    fn equals(self, rhs: Self) -> bool {
        self.0 == rhs.0
    }

    fn less(self, rhs: Self) -> bool {
        self.0 < rhs.0
    }
}

impl FloatLike for Real {
    fn powf(self, exponent: Self) -> Self {
        Real(self.0.powf(exponent.0))
    }

    fn atan(self) -> Self {
        Real(self.0.atan())
    }

    fn cos(self) -> Self {
        Real(self.0.cos())
    }

    fn sin(self) -> Self {
        Real(self.0.sin())
    }

    fn pi() -> Self {
        Real(std::f64::consts::PI)
    }
}

fn reals<const N: usize>(v: [f64; N]) -> Vec_<Real, N> {
    Vec_::from(v.map(Real))
}

fn matrix(rows: [[f64; 4]; 4]) -> Mat<Real> {
    let flat: Vec<Real> = rows.iter().flatten().map(|x| Real(*x)).collect();
    Mat::from_vec(4, 4, flat).unwrap()
}

fn filled(f: fn(u32, u32) -> Color) -> Canvas {
    let mut map = Canvas::new(4, 4).unwrap();
    for y in 0..4 {
        for x in 0..4 {
            map.put(x, y, f(x, y)).unwrap();
        }
    }
    map
}

fn diffuse(x: u32, y: u32) -> Color {
    [(x * 60 + y * 3) as u8, (100 + y * 10 + x) as u8, (200 + x + y) as u8, 77]
}

fn normals(x: u32, y: u32) -> Color {
    [(250 - x * 20) as u8, (128 + y * 30) as u8, (130 - x * 30) as u8, 255]
}

fn exponents(x: u32, y: u32) -> Color {
    [(1 + x + 2 * y) as u8, 9, 9, 255]
}

fn corner(i: i32) -> Vec3i {
    Vec_::from([i, i, i])
}

fn model() -> Model<Real> {
    let verts: Vec<Vec3<Real>> = vec![
        reals([0.0, 0.0, 0.0]),
        reals([1.0, 0.0, 0.0]),
        reals([0.0, 1.0, 0.0]),
    ];
    let norms: Vec<Vec3<Real>> = vec![
        reals([0.0, 0.0, 2.0]),
        reals([0.0, 3.0, 4.0]),
        reals([1.0, 0.0, 0.0]),
    ];
    let uvs: Vec<Vec2<Real>> = vec![reals([0.0, 0.0]), reals([0.5, 0.0]), reals([0.0, 0.5])];
    let faces = vec![vec![corner(0), corner(1), corner(2)]];
    Model::new(
        verts,
        faces,
        norms,
        uvs,
        filled(diffuse),
        filled(normals),
        filled(exponents),
    )
    .ok()
    .unwrap()
}

fn scene() -> GL<Real> {
    GL::new(reals([0.0, 0.0, 1.0]), 8, 8)
}

fn all_corners<S: IShader<Real>>(shader: &mut S) {
    assert_eq!(shader.vertex(0, 0), Ok(reals([0.0, 0.0, 0.0, 1.0])));
    assert_eq!(shader.vertex(0, 1), Ok(reals([1.0, 0.0, 0.0, 1.0])));
    assert_eq!(shader.vertex(0, 2), Ok(reals([0.0, 1.0, 0.0, 1.0])));
    assert_eq!(shader.vertex(0, 3), Err(RenderError::DimensionMismatch));
    assert_eq!(shader.vertex(1, 0), Err(RenderError::DimensionMismatch));
}

fn shade<S: IShader<Real>>(shader: &mut S, bc: [f64; 3]) -> Result<Option<Color>, RenderError> {
    shader.fragment(reals(bc), reals([0.0, 0.0, 0.0]))
}

#[test]
fn light_on_a_surface_is_not_negative() {
    assert_eq!(lit(&reals([0.0, 0.6, 0.8]), &reals([0.0, 0.0, 1.0])), Real(0.8));
    assert_eq!(lit(&reals([0.0, 0.6, -0.8]), &reals([0.0, 0.0, 1.0])), Real(0.0));
}

#[test]
fn six_bands_of_intensity() {
    for (ity, want) in [
        (0.86, 1.0),
        (0.85, 0.8),
        (0.61, 0.8),
        (0.6, 0.6),
        (0.46, 0.6),
        (0.45, 0.45),
        (0.31, 0.45),
        (0.3, 0.3),
        (0.16, 0.3),
        (0.15, 0.0),
        (-1.0, 0.0),
    ] {
        assert_eq!(band(Real(ity)), Real(want));
    }
}

#[test]
fn the_shader_of_six_bands() {
    let (gl, model) = (scene(), model());
    let mut shader = Gouraud6LShader::new(&gl, &model);
    all_corners(&mut shader);
    assert_eq!(shader.varying_intensity, reals([1.0, 0.8, 0.0]));
    assert_eq!(shade(&mut shader, [1.0, 0.0, 0.0]), Ok(Some([255, 155, 0, 255])));
    assert_eq!(shade(&mut shader, [0.0, 1.0, 0.0]), Ok(Some([204, 124, 0, 255])));
    assert_eq!(shade(&mut shader, [0.5, 0.5, 0.0]), Ok(Some([255, 155, 0, 255])));
    assert_eq!(shade(&mut shader, [0.0, 0.0, 1.0]), Ok(Some([0, 0, 0, 255])));
    assert_eq!(shade(&mut shader, [0.25, 0.0, 0.75]), Ok(Some([76, 46, 0, 255])));
    assert_eq!(shade(&mut shader, [0.5, 0.0, 0.5]), Ok(Some([153, 93, 0, 255])));
    assert_eq!(shade(&mut shader, [0.4, 0.0, 0.6]), Ok(Some([114, 69, 0, 255])));
}

#[test]
fn tinting_cuts_fractions_and_stays_within_a_channel() {
    assert_eq!(tint([120, 102, 202, 77], Real(0.8)), [96, 81, 161, 255]);
    assert_eq!(tint([120, 102, 202, 77], Real(2.0)), [240, 204, 255, 255]);
    assert_eq!(tint([120, 102, 202, 77], Real(-1.0)), [0, 0, 0, 255]);
}

#[test]
fn the_shader_of_the_texture() {
    let (gl, model) = (scene(), model());
    let mut shader = TextureShader::new(&gl, &model);
    all_corners(&mut shader);
    assert_eq!(shader.varying_intensity, reals([1.0, 0.8, 0.0]));
    assert_eq!(
        shader.varying_uv.data,
        [reals([0.0, 0.5, 0.0]).data, reals([0.0, 0.0, 0.5]).data]
    );
    assert_eq!(shade(&mut shader, [1.0, 0.0, 0.0]), Ok(Some([0, 100, 200, 255])));
    assert_eq!(shade(&mut shader, [0.0, 1.0, 0.0]), Ok(Some([96, 81, 161, 255])));
    assert_eq!(shade(&mut shader, [0.0, 0.0, 1.0]), Ok(Some([0, 0, 0, 255])));
    assert_eq!(shade(&mut shader, [0.25, 0.5, 0.25]), Ok(Some([39, 65, 130, 255])));
    assert_eq!(shade(&mut shader, [0.5, 0.5, 0.0]), Ok(Some([54, 90, 180, 255])));
    // weights that take the texture coordinates to one and beyond sample nothing
    assert_eq!(shade(&mut shader, [0.0, 2.0, 0.0]), Err(RenderError::SampleOutOfRange));
    assert_eq!(shade(&mut shader, [0.0, 0.0, 2.0]), Err(RenderError::SampleOutOfRange));
}

#[test]
fn directions_are_transformed_and_normalized() {
    let m = matrix([
        [2.0, 0.0, 0.0, 0.0],
        [0.0, 1.0, 0.0, 0.5],
        [0.0, 0.0, 4.0, 0.0],
        [0.0, 0.0, 0.0, 1.0],
    ]);
    let d = transform_direction(&m, &reals([0.0, 2.5, 1.0])).unwrap();
    assert_eq!(d, reals([0.0, 0.6, 0.8]));
    let flat = matrix([[0.0; 4]; 4]);
    assert_eq!(
        transform_direction(&flat, &reals([1.0, 2.0, 3.0])),
        Err(RenderError::ZeroNorm)
    );
}

#[test]
fn the_shader_of_the_normal_map() {
    let (gl, model) = (scene(), model());
    let mut shader = NormalMappingShader::new(&gl, &model);
    all_corners(&mut shader);
    assert_eq!(shade(&mut shader, [1.0, 0.0, 0.0]), Ok(Some([0, 99, 199, 255])));
    assert_eq!(shade(&mut shader, [0.0, 1.0, 0.0]), Ok(Some([98, 83, 165, 255])));
    assert_eq!(shade(&mut shader, [0.0, 0.0, 1.0]), Ok(Some([5, 107, 181, 255])));
    assert_eq!(shade(&mut shader, [0.25, 0.5, 0.25]), Ok(Some([57, 97, 194, 255])));
    assert_eq!(shade(&mut shader, [0.0, 2.0, 0.0]), Err(RenderError::SampleOutOfRange));
}

fn uniform_m() -> Mat<Real> {
    matrix([
        [2.0, 0.0, 0.0, 0.0],
        [0.0, 1.0, 0.0, 0.5],
        [0.0, 0.0, 4.0, 0.0],
        [0.0, 0.0, 0.0, 1.0],
    ])
}

fn uniform_m_it() -> Mat<Real> {
    matrix([
        [0.5, 0.0, 0.0, 0.0],
        [0.0, 1.0, 0.0, 0.0],
        [0.0, 0.0, 0.25, 0.0],
        [0.0, -0.5, 0.0, 1.0],
    ])
}

#[test]
fn the_shader_of_the_normal_map_with_transforms() {
    let gl: GL<Real> = GL::new(reals([0.0, 0.6, 0.8]), 8, 8);
    let model = model();
    let mut shader = NormalMappingShader::new(&gl, &model);
    shader.uniform_m = uniform_m();
    shader.uniform_m_it = uniform_m_it();
    all_corners(&mut shader);
    assert_eq!(shade(&mut shader, [0.0, 1.0, 0.0]), Ok(Some([55, 47, 93, 255])));
    assert_eq!(shade(&mut shader, [0.25, 0.5, 0.25]), Ok(Some([27, 45, 91, 255])));
    shader.uniform_m = matrix([[0.0; 4]; 4]);
    assert_eq!(shade(&mut shader, [0.0, 1.0, 0.0]), Err(RenderError::ZeroNorm));
}

#[test]
fn mirrored_light() {
    let n = reals([0.0, 0.0, 1.0]);
    assert_eq!(mirrored(&n, &reals([0.0, 0.6, 0.8])), Ok(reals([0.0, -0.6, 0.8])));
    assert_eq!(mirrored(&n, &n), Ok(n));
    assert_eq!(
        mirrored(&reals([0.0, 0.0, 0.0]), &reals([0.0, 0.0, 0.0])),
        Err(RenderError::ZeroNorm)
    );
}

#[test]
fn lit_colors_add_five_and_stay_within_a_channel() {
    assert_eq!(lit_color([0, 100, 250, 9], Real(0.5), Real(0.5)), [5, 85, 205, 255]);
    assert_eq!(lit_color([0, 100, 250, 9], Real(1.0), Real(1.0)), [5, 165, 255, 255]);
    assert_eq!(lit_color([0, 100, 250, 9], Real(0.0), Real(0.0)), [5, 5, 5, 255]);
}

#[test]
fn the_shader_of_the_specular_map() {
    let (gl, model) = (scene(), model());
    let mut shader = SpecularMappingShader::new(&gl, &model);
    all_corners(&mut shader);
    assert_eq!(shade(&mut shader, [1.0, 0.0, 0.0]), Ok(Some([5, 164, 255, 255])));
    assert_eq!(shade(&mut shader, [0.0, 1.0, 0.0]), Ok(Some([106, 91, 175, 255])));
    assert_eq!(shade(&mut shader, [0.0, 0.0, 1.0]), Ok(Some([10, 118, 196, 255])));
    assert_eq!(shade(&mut shader, [0.25, 0.5, 0.25]), Ok(Some([89, 147, 255, 255])));
    assert_eq!(shade(&mut shader, [0.0, 2.0, 0.0]), Err(RenderError::SampleOutOfRange));
    let lit: GL<Real> = GL::new(reals([0.0, 0.6, 0.8]), 8, 8);
    let mut shader = SpecularMappingShader::new(&lit, &model);
    shader.uniform_m = uniform_m();
    shader.uniform_m_it = uniform_m_it();
    all_corners(&mut shader);
    assert_eq!(shade(&mut shader, [0.0, 1.0, 0.0]), Ok(Some([72, 62, 118, 255])));
    assert_eq!(shade(&mut shader, [0.25, 0.5, 0.25]), Ok(Some([44, 71, 136, 255])));
}

#[test]
fn what_is_behind_an_occluder_gets_three_tenths_of_the_light() {
    // the first pass stored depth 10 for the occluder; a point of depth 5 is behind it
    assert_eq!(shadow_factor(Real(10.0), Real(5.0)), Real(0.3));
    // nothing is nearer to the light than a point of depth 10 where 5 is stored
    assert_eq!(shadow_factor(Real(5.0), Real(10.0)), Real(1.0));
    assert_eq!(shadow_factor(Real(5.0), Real(5.0)), Real(0.3));
    // the same surface and light, in and out of the shadow
    let texel = [200, 100, 50, 255];
    assert_eq!(shadowed_color(texel, Real(0.3), Real(0.5), Real(0.25)), [65, 42, 31, 255]);
    assert_eq!(shadowed_color(texel, Real(1.0), Real(0.5), Real(0.25)), [170, 95, 57, 255]);
    assert_eq!(
        shadowed_color([255, 255, 0, 255], Real(1.0), Real(1.0), Real(1.0)),
        [255, 255, 20, 255]
    );
}

#[test]
fn the_shader_of_depths() {
    let (gl, model) = (scene(), model());
    let mut shader = DepthShader::new(&gl, &model);
    all_corners(&mut shader);
    assert_eq!(
        shader.varying_tri.data,
        [
            reals([0.0, 1.0, 0.0]).data,
            reals([0.0, 0.0, 1.0]).data,
            reals([0.0, 0.0, 0.0]).data
        ]
    );
    shader.varying_tri.set_col(0, &vec![Real(1.0), Real(2.0), Real(100.0)]).unwrap();
    shader.varying_tri.set_col(1, &vec![Real(1.0), Real(2.0), Real(300.0)]).unwrap();
    shader.varying_tri.set_col(2, &vec![Real(1.0), Real(2.0), Real(-3.0)]).unwrap();
    assert_eq!(shade(&mut shader, [1.0, 0.0, 0.0]), Ok(Some([100, 100, 100, 255])));
    assert_eq!(shade(&mut shader, [0.0, 1.0, 0.0]), Ok(Some([255, 255, 255, 255])));
    assert_eq!(shade(&mut shader, [0.0, 0.0, 1.0]), Ok(Some([0, 0, 0, 255])));
    assert_eq!(shade(&mut shader, [0.75, 0.0, 0.25]), Ok(Some([74, 74, 74, 255])));
}

#[test]
fn the_shader_of_shadows() {
    let (gl, model) = (scene(), model());
    let mut depths = DepthBuffer::new(4, 4, Real(0.0)).unwrap();
    depths.set(1, 0, Real(7.0)).unwrap();
    let mut shader = Pass2Shader::new(&gl, &model, &depths);
    all_corners(&mut shader);
    // the identity takes the corners to the pixels (0, 0), (1, 0) and (0, 1) of the
    // light's screen, at depth 0
    assert_eq!(shader.shadow(&reals([1.0, 0.0, 0.0])), Ok(Real(0.3)));
    assert_eq!(shader.shadow(&reals([0.0, 1.0, 0.0])), Ok(Real(0.3)));
    shader.varying_tri.set(2, 0, Real(5.0)).unwrap();
    shader.varying_tri.set(2, 1, Real(9.0)).unwrap();
    // in front of what is stored at (0, 0)
    assert_eq!(shader.shadow(&reals([1.0, 0.0, 0.0])), Ok(Real(1.0)));
    // and at (1, 0), where an occluder of depth 7 is stored
    assert_eq!(shader.shadow(&reals([0.0, 1.0, 0.0])), Ok(Real(1.0)));
    shader.varying_tri.set(2, 1, Real(6.0)).unwrap();
    assert_eq!(shader.shadow(&reals([0.0, 1.0, 0.0])), Ok(Real(0.3)));
    // outside the light's screen
    assert_eq!(
        shader.shadow(&reals([0.0, 5.0, 0.0])),
        Err(RenderError::SampleOutOfRange)
    );
    assert_eq!(
        shader.shadow(&reals([0.0, -1.0, 0.0])),
        Err(RenderError::SampleOutOfRange)
    );
    assert_eq!(shade(&mut shader, [0.0, 5.0, 0.0]), Err(RenderError::SampleOutOfRange));
    // the light's share enters the color: 20 + channel * share * (1.2 diff + 0.6 spec)
    let diff = 0.8203880260659603;
    let spec = 0.041447968902172776;
    let texel = [120.0, 102.0, 202.0];
    let want = texel.map(|c| (20.0 + c * 0.3 * (1.2 * diff + 0.6 * spec)) as u8);
    assert_eq!(
        shade(&mut shader, [0.0, 1.0, 0.0]),
        Ok(Some([want[0], want[1], want[2], 255]))
    );
    shader.varying_tri.set(2, 1, Real(9.0)).unwrap();
    let want = texel.map(|c| (20.0 + c * 1.0 * (1.2 * diff + 0.6 * spec)) as u8);
    assert_eq!(
        shade(&mut shader, [0.0, 1.0, 0.0]),
        Ok(Some([want[0], want[1], want[2], 255]))
    );
}

#[test]
fn the_shader_of_the_first_pass_of_the_occlusion() {
    let (gl, model) = (scene(), model());
    let mut shader = ZShader::new(&gl, &model);
    all_corners(&mut shader);
    assert_eq!(shader.corner(1), reals([1.0, 0.0, 0.0, 1.0]));
    assert_eq!(shader.corner(2), reals([0.0, 1.0, 0.0, 1.0]));
    assert_eq!(shade(&mut shader, [0.3, 0.3, 0.4]), Ok(Some([0, 0, 0, 255])));
}

fn depths() -> DepthBuffer<Real> {
    let mut zbuf = DepthBuffer::new(6, 5, Real(0.0)).unwrap();
    for y in 0..5u32 {
        for x in 0..6u32 {
            zbuf.set(x, y, Real(((x * 7 + y * 3) % 11) as f64)).unwrap();
        }
    }
    zbuf
}

#[test]
fn angles_of_elevation_along_rays() {
    let zbuf = depths();
    for (p, dir, want) in [
        ([1.0, 2.0], [1.0, 0.0], 1.4288992721907328),
        ([1.0, 2.0], [0.0, 1.0], 1.2490457723982544),
        ([4.0, 1.0], [-1.0, 0.0], 0.3217505543966422),
        ([2.0, 2.0], [0.7071067811865476, 0.7071067811865476], 0.0),
        ([0.0, 0.0], [-1.0, 0.0], 0.0),
        ([3.0, 3.0], [0.25, 0.0], 0.0),
    ] {
        assert_eq!(max_elevation_angle(&zbuf, reals(p), reals(dir)), Real(want));
    }
}

#[test]
fn open_sky_and_its_gray_level() {
    let zbuf = depths();
    for (x, y, sky, level) in [
        (1, 2, 5.545370247059122, 0),
        (0, 0, 8.51502480282517, 5),
        (3, 3, 10.995574287564278, 67),
        (5, 4, 7.939047173943128, 2),
    ] {
        assert_eq!(open_sky(&zbuf, x, y), Real(sky));
        assert_eq!(occlusion_level(Real(sky)), level);
    }
    assert_eq!(occlusion_level(Real(4.0 * std::f64::consts::PI)), 255);
}

#[test]
fn the_share_of_the_open_sky_and_the_gray_level_of_a_power() {
    let pi = std::f64::consts::PI;
    assert_eq!(sky_share(Real(2.0 * pi), Real(pi)), Real(0.5));
    assert_eq!(sky_share(Real(4.0 * pi), Real(pi)), Real(1.0));
    assert_eq!(sky_share(Real(0.0), Real(pi)), Real(0.0));
    assert_eq!(sky_share(Real(6.0), Real(3.0)), Real(0.5));
    assert_eq!(gray_level(Real(0.5)), 127);
    assert_eq!(gray_level(Real(1.0)), 255);
    assert_eq!(gray_level(Real(0.0)), 0);
    assert_eq!(gray_level(Real(2.0)), 255);
    assert_eq!(gray_level(Real(-1.0)), 0);
    for open in [0.0, 3.0, 5.545370247059122, 10.995574287564278, 4.0 * pi] {
        let power = sky_share(Real(open), Real(pi)).0.powf(10.0);
        assert_eq!(occlusion_level(Real(open)), gray_level(Real(power)));
    }
}

#[test]
fn the_open_sky_is_a_quarter_turn_less_the_elevation_for_each_of_eight_rays() {
    let zbuf = depths();
    let pi = std::f64::consts::PI;
    for (x, y) in [(1u32, 2u32), (0, 0), (3, 3), (5, 4), (2, 1)] {
        let mut total = 0.0;
        let mut angle = 0.0f64;
        for _ in 0..8 {
            let dir = reals([angle.cos(), angle.sin()]);
            let elevation = max_elevation_angle(&zbuf, reals([x as f64, y as f64]), dir);
            total += pi / 2.0 - elevation.0;
            angle += pi / 4.0;
        }
        assert_eq!(open_sky(&zbuf, x, y), Real(total));
    }
}

#[test]
fn the_greatest_angle_along_a_ray_that_stays_in_the_frame() {
    let mut zbuf = DepthBuffer::new(4, 1, Real(0.0)).unwrap();
    zbuf.set(1, 0, Real(1.0)).unwrap();
    let angle = max_elevation_angle(&zbuf, reals([0.0, 0.0]), reals([1.0, 0.0]));
    assert_eq!(angle, Real(1.0f64.atan()));
    assert_eq!(angle, Real(std::f64::consts::FRAC_PI_4));
    // the ray the other way leaves the frame at its first step
    assert_eq!(max_elevation_angle(&zbuf, reals([0.0, 0.0]), reals([-1.0, 0.0])), Real(0.0));
    // from the raised pixel every other pixel lies below
    assert_eq!(max_elevation_angle(&zbuf, reals([1.0, 0.0]), reals([1.0, 0.0])), Real(0.0));
}
