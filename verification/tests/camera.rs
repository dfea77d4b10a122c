use tinyrender::camera::{lookat, on_one_line, triangle, viewport};
use tinyrender::error::RenderError;
use tinyrender::fixed::Fixed;
use tinyrender::framebuffer::{Canvas, DepthBuffer};
use tinyrender::geometry::{Vec3, Vec3i, Vec_};
use tinyrender::util::NumLike;

/// A double-precision scalar: every operation is defined, and rounds.
#[derive(Clone, Copy, Debug, PartialEq)]
struct Real(f64);

impl NumLike for Real {
    fn zero() -> Self {
        Real(0.0)
    }

    fn one() -> Self {
        Real(1.0)
    }

    fn from_i32(v: i32) -> Self {
        Real(v as f64)
    }

    fn to_i32(self) -> i32 {
        self.0 as i32
    }

    fn plus(self, rhs: Self) -> Self {
        Real(self.0 + rhs.0)
    }

    fn minus(self, rhs: Self) -> Self {
        Real(self.0 - rhs.0)
    }

    fn times(self, rhs: Self) -> Self {
        Real(self.0 * rhs.0)
    }

    fn over(self, rhs: Self) -> Self {
        Real(self.0 / rhs.0)
    }

    fn sqrt(self) -> Self {
        Real(self.0.sqrt())
    }

    fn equals(self, rhs: Self) -> bool {
        self.0 == rhs.0
    }

    fn less(self, rhs: Self) -> bool {
        self.0 < rhs.0
    }
}

fn reals<const N: usize>(v: [f64; N]) -> Vec_<Real, N> {
    Vec_::from(v.map(Real))
}

fn row(m: &tinyrender::matrix::Mat<Real>, i: usize) -> Vec<f64> {
    m.data[i].iter().map(|r| r.0).collect()
}

const FAR: f64 = -1e300;

fn frame(size: u32) -> (Canvas, DepthBuffer<Real>) {
    (
        Canvas::new(size, size).unwrap(),
        DepthBuffer::new(size, size, Real(FAR)).unwrap(),
    )
}

fn drawn(img: &Canvas) -> Vec<usize> {
    (0..img.height())
        .map(|y| {
            (0..img.width())
                .filter(|x| img.get(*x, y) != Ok([0, 0, 0, 0]))
                .count()
        })
        .collect()
}

#[test]
fn lookat_along_the_z_axis_keeps_the_axes() {
    let m = lookat(
        reals([0.0, 0.0, 1.0]),
        reals([0.0, 0.0, 0.0]),
        reals([0.0, 1.0, 0.0]),
    )
    .unwrap();
    assert_eq!((m.M, m.N), (4, 4));
    assert_eq!(row(&m, 0), [1.0, 0.0, 0.0, 0.0]);
    assert_eq!(row(&m, 1), [0.0, 1.0, 0.0, 0.0]);
    assert_eq!(row(&m, 2), [0.0, 0.0, 1.0, 0.0]);
    assert_eq!(row(&m, 3), [0.0, 0.0, 0.0, 1.0]);
}

fn fixed(v: i32) -> Fixed {
    Fixed::from_i32(v)
}

#[test]
fn lookat_on_fixed_point_numbers_gives_the_same_basis() {
    let eye: Vec3<Fixed> = Vec_::from([fixed(0), fixed(0), fixed(1)]);
    let center: Vec3<Fixed> = Vec_::from([fixed(0), fixed(0), fixed(0)]);
    let up: Vec3<Fixed> = Vec_::from([fixed(0), fixed(1), fixed(0)]);
    let m = lookat(eye, center, up).unwrap();
    let (o, l) = (fixed(0), fixed(1));
    assert_eq!(
        m.data,
        [[l, o, o, o], [o, l, o, o], [o, o, l, o], [o, o, o, l]]
    );
    assert_eq!(lookat(eye, eye, up), Err(RenderError::ZeroNorm));
}

#[test]
fn lookat_moves_the_center_to_the_origin() {
    let m = lookat(
        reals([1.0, 1.0, 3.0]),
        reals([0.5, -2.0, 0.25]),
        reals([0.0, 1.0, 0.0]),
    )
    .unwrap();
    assert_eq!(m.data[0][3], Real(-0.5));
    assert_eq!(m.data[1][3], Real(2.0));
    assert_eq!(m.data[2][3], Real(-0.25));
    let z = reals([0.5, 3.0, 2.75]).normalize().unwrap();
    assert_eq!(row(&m, 2)[..3], [z.data[0].0, z.data[1].0, z.data[2].0]);
    for i in 0..3 {
        let len: f64 = (0..3).map(|j| m.data[i][j].0 * m.data[i][j].0).sum();
        assert!((len - 1.0).abs() < 1e-12);
        for k in 0..i {
            let dot: f64 = (0..3).map(|j| m.data[i][j].0 * m.data[k][j].0).sum();
            assert!(dot.abs() < 1e-12);
        }
    }
}

#[test]
fn lookat_without_a_direction_fails() {
    let at = reals([1.0, 2.0, 3.0]);
    assert_eq!(
        lookat(at, at, reals([0.0, 1.0, 0.0])),
        Err(RenderError::ZeroNorm)
    );
    assert_eq!(
        lookat(reals([0.0, 5.0, 0.0]), reals([0.0, 0.0, 0.0]), reals([0.0, 1.0, 0.0])),
        Err(RenderError::ZeroNorm)
    );
}

#[test]
fn viewport_maps_the_unit_cube_to_the_box() {
    let m = viewport::<Real>(100, 100, 600, 600);
    assert_eq!(row(&m, 0), [300.0, 0.0, 0.0, 400.0]);
    assert_eq!(row(&m, 1), [0.0, 300.0, 0.0, 400.0]);
    assert_eq!(row(&m, 2), [0.0, 0.0, 63.75, 63.75]);
    assert_eq!(row(&m, 3), [0.0, 0.0, 0.0, 1.0]);
    let odd = viewport::<Real>(-3, 7, 5, 9);
    assert_eq!(row(&odd, 0), [2.5, 0.0, 0.0, -0.5]);
    assert_eq!(row(&odd, 1), [0.0, 4.5, 0.0, 11.5]);
    let exact = viewport::<Fixed>(1, 2, 8, 6);
    let quarter_depth = Fixed { raw: 255 * 65536 / 4 };
    let (o, l) = (fixed(0), fixed(1));
    assert_eq!(
        exact.data,
        [
            [fixed(4), o, o, fixed(5)],
            [o, fixed(3), o, fixed(5)],
            [o, o, quarter_depth, quarter_depth],
            [o, o, o, l]
        ]
    );
}

fn corner(x: i32, y: i32, z: i32) -> Vec3i {
    Vec_::from([x, y, z])
}

#[test]
fn scanline_fills_rows_and_interpolates() {
    let (mut img, mut zbuf) = frame(16);
    let r = triangle(
        corner(2, 1, 10),
        corner(12, 5, 40),
        corner(5, 13, 90),
        Real(0.2),
        Real(0.9),
        Real(1.4),
        &mut img,
        &mut zbuf,
    );
    assert_eq!(r, Ok(()));
    assert_eq!(
        drawn(&img),
        [0, 1, 4, 5, 8, 10, 9, 7, 6, 6, 5, 3, 2, 0, 0, 0]
    );
    assert_eq!(img.get(2, 1), Ok([51, 51, 51, 255]));
    assert_eq!(zbuf.get(2, 1), Ok(Real(10.0)));
    assert_eq!(img.get(3, 1), Ok([0, 0, 0, 0]));
    assert_eq!(zbuf.get(3, 1), Ok(Real(FAR)));
    assert_eq!(img.get(7, 5), Ok([187, 187, 187, 255]));
    assert_eq!(zbuf.get(7, 5), Ok(Real(38.0)));
    assert_eq!(img.get(12, 5), Ok([229, 229, 229, 255]));
    assert_eq!(zbuf.get(12, 5), Ok(Real(40.0)));
    assert_eq!(img.get(5, 12), Ok([255, 255, 255, 255]));
    assert_eq!(zbuf.get(5, 12), Ok(Real(83.0)));
    assert_eq!(img.get(4, 6), Ok([186, 186, 186, 255]));
    assert_eq!(zbuf.get(4, 6), Ok(Real(43.0)));
    assert_eq!(img.get(9, 4), Ok([176, 176, 176, 255]));
    assert_eq!(zbuf.get(9, 4), Ok(Real(33.0)));
    assert_eq!(img.get(5, 13), Ok([0, 0, 0, 0]));
}

#[test]
fn scanline_draws_only_over_smaller_depths() {
    let (mut img, mut zbuf) = frame(16);
    triangle(
        corner(2, 1, 10),
        corner(12, 5, 40),
        corner(5, 13, 90),
        Real(0.2),
        Real(0.9),
        Real(1.4),
        &mut img,
        &mut zbuf,
    )
    .unwrap();
    triangle(
        corner(0, 0, 50),
        corner(15, 0, 50),
        corner(0, 15, 50),
        Real(0.5),
        Real(0.5),
        Real(0.5),
        &mut img,
        &mut zbuf,
    )
    .unwrap();
    let gray = [127, 127, 127, 255];
    let count = (0..16)
        .flat_map(|y| (0..16).map(move |x| (x, y)))
        .filter(|(x, y)| img.get(*x, *y) == Ok(gray))
        .count();
    assert_eq!(count, 121);
    // in front of the first triangle where that is below depth 50
    assert_eq!(img.get(2, 1), Ok(gray));
    assert_eq!(zbuf.get(2, 1), Ok(Real(50.0)));
    assert_eq!(img.get(4, 6), Ok(gray));
    assert_eq!(img.get(9, 4), Ok(gray));
    // behind it where that is above
    assert_eq!(img.get(8, 8), Ok([255, 255, 255, 255]));
    assert_eq!(zbuf.get(8, 8), Ok(Real(59.0)));
    assert_eq!(img.get(6, 9), Ok([255, 255, 255, 255]));
    assert_eq!(zbuf.get(6, 9), Ok(Real(64.0)));
    // outside the second triangle
    assert_eq!(img.get(12, 5), Ok([229, 229, 229, 255]));
    // a third time at the same depth: the stored depth is not below, nothing changes
    triangle(
        corner(0, 0, 50),
        corner(15, 0, 50),
        corner(0, 15, 50),
        Real(1.0),
        Real(1.0),
        Real(1.0),
        &mut img,
        &mut zbuf,
    )
    .unwrap();
    assert_eq!(img.get(2, 1), Ok(gray));
    assert_eq!(img.get(0, 0), Ok(gray));
}

#[test]
fn scanline_skips_what_lies_outside_the_frame() {
    let (mut img, mut zbuf) = frame(16);
    triangle(
        corner(-5, -3, 7),
        corner(20, 2, 7),
        corner(8, 30, 7),
        Real(1.0),
        Real(1.0),
        Real(1.0),
        &mut img,
        &mut zbuf,
    )
    .unwrap();
    assert_eq!(
        drawn(&img),
        [11, 16, 16, 16, 16, 16, 16, 16, 16, 16, 16, 15, 15, 15, 14, 13]
    );
}

#[test]
fn scanline_draws_nothing_for_corners_in_one_row() {
    let (mut img, mut zbuf) = frame(8);
    let r = triangle(
        corner(1, 3, 9),
        corner(6, 3, 9),
        corner(4, 3, 9),
        Real(1.0),
        Real(1.0),
        Real(1.0),
        &mut img,
        &mut zbuf,
    );
    assert_eq!(r, Ok(()));
    assert_eq!(drawn(&img), [0; 8]);
    for y in 0..8 {
        for x in 0..8 {
            assert_eq!(zbuf.get(x, y), Ok(Real(FAR)));
        }
    }
}

#[test]
fn scanline_needs_buffers_of_one_size() {
    let mut img = Canvas::new(8, 8).unwrap();
    let mut zbuf = DepthBuffer::new(8, 7, Real(FAR)).unwrap();
    let r = triangle(
        corner(1, 1, 9),
        corner(6, 3, 9),
        corner(4, 6, 9),
        Real(1.0),
        Real(1.0),
        Real(1.0),
        &mut img,
        &mut zbuf,
    );
    assert_eq!(r, Err(RenderError::DimensionMismatch));
    assert_eq!(drawn(&img), [0; 8]);
}

#[test]
fn depth_buffer_reads_and_writes_inside_only() {
    let mut zbuf = DepthBuffer::new(3, 2, 7i32).unwrap();
    assert_eq!((zbuf.width(), zbuf.height()), (3, 2));
    assert_eq!(zbuf.get(2, 1), Ok(7));
    assert_eq!(zbuf.get(3, 1), Err(RenderError::SampleOutOfRange));
    assert_eq!(zbuf.get(0, 2), Err(RenderError::SampleOutOfRange));
    assert_eq!(zbuf.set(2, 1, 9), Ok(()));
    assert_eq!(zbuf.set(2, 2, 9), Err(RenderError::SampleOutOfRange));
    assert_eq!(zbuf.get(2, 1), Ok(9));
    assert_eq!(zbuf.get(1, 1), Ok(7));
    assert_eq!(zbuf.get(2, 0), Ok(7));
}

#[test]
fn scanline_draws_nothing_for_corners_on_one_line() {
    for (a, b, c) in [
        ((0, 0), (1, 1), (2, 2)),
        ((1, 0), (1, 3), (1, 6)),
        ((6, 1), (4, 3), (2, 5)),
        ((0, 7), (7, 0), (3, 4)),
        ((2, 2), (2, 2), (5, 6)),
    ] {
        let (mut img, mut zbuf) = frame(8);
        let r = triangle(
            corner(a.0, a.1, 0),
            corner(b.0, b.1, 0),
            corner(c.0, c.1, 0),
            Real(1.0),
            Real(1.0),
            Real(1.0),
            &mut img,
            &mut zbuf,
        );
        assert_eq!(r, Ok(()));
        assert_eq!(drawn(&img), [0; 8]);
        for y in 0..8 {
            for x in 0..8 {
                assert_eq!(zbuf.get(x, y), Ok(Real(FAR)));
            }
        }
    }
}

#[test]
fn points_on_one_line() {
    assert!(on_one_line(&corner(0, 0, 0), &corner(1, 1, 5), &corner(2, 2, 9)));
    assert!(on_one_line(&corner(3, 3, 0), &corner(6, 3, 0), &corner(4, 3, 0)));
    assert!(!on_one_line(&corner(0, 0, 0), &corner(1, 1, 0), &corner(2, 3, 0)));
    assert!(on_one_line(
        &corner(i32::MIN, i32::MIN, 0),
        &corner(0, 0, 0),
        &corner(i32::MAX, i32::MAX, 0)
    ));
    assert!(!on_one_line(
        &corner(i32::MIN, i32::MIN, 0),
        &corner(i32::MAX, i32::MIN, 0),
        &corner(i32::MAX, i32::MAX, 0)
    ));
}

#[test]
fn viewport_maps_depths_to_half_the_range() {
    let m = viewport::<Real>(100, 100, 600, 600);
    for (z, depth) in [(-1.0, 0.0), (0.0, 63.75), (1.0, 127.5), (0.5, 95.625)] {
        let v = m.transform(&reals([0.0, 0.0, z, 1.0])).unwrap();
        assert_eq!(v[2], Real(depth));
        assert_eq!(v[3], Real(1.0));
    }
}
