use tinyrender::error::RenderError;
use tinyrender::framebuffer::{Canvas, Color, DepthBuffer};
use tinyrender::geometry::{Vec3, Vec_};
use tinyrender::util::NumLike;
use tinyrender::zbuf::{barycentric, triangle};

/// A double-precision scalar: every operation is defined, and rounds.
#[derive(Clone, Copy, Debug, PartialEq)]
struct Real(f64);

impl NumLike for Real {
    fn zero() -> Self {
        Real(0.0)
    }

    fn one() -> Self {
        Real(1.0)
    }

    fn from_i32(v: i32) -> Self {
        Real(v as f64)
    }

    fn to_i32(self) -> i32 {
        self.0 as i32
    }

    fn plus(self, rhs: Self) -> Self {
        Real(self.0 + rhs.0)
    }

    fn minus(self, rhs: Self) -> Self {
        Real(self.0 - rhs.0)
    }

    fn times(self, rhs: Self) -> Self {
        Real(self.0 * rhs.0)
    }

    fn over(self, rhs: Self) -> Self {
        Real(self.0 / rhs.0)
    }

    fn sqrt(self) -> Self {
        Real(self.0.sqrt())
    }

    fn equals(self, rhs: Self) -> bool {
        self.0 == rhs.0
    }

    fn less(self, rhs: Self) -> bool {
        self.0 < rhs.0
    }
}

fn reals<const N: usize>(v: [f64; N]) -> Vec_<Real, N> {
    Vec_::from(v.map(Real))
}

const FAR: f64 = -1e300;
const RED: Color = [255, 0, 0, 255];
const BLUE: Color = [0, 0, 255, 255];

fn frame(size: u32) -> (Canvas, DepthBuffer<Real>) {
    (
        Canvas::new(size, size).unwrap(),
        DepthBuffer::new(size, size, Real(FAR)).unwrap(),
    )
}

fn colored(img: &Canvas, color: Color) -> Vec<usize> {
    (0..img.height())
        .map(|y| (0..img.width()).filter(|x| img.get(*x, y) == Ok(color)).count())
        .collect()
}

fn first() -> [Vec3<Real>; 3] {
    [
        reals([1.5, 1.25, 3.0]),
        reals([9.75, 2.5, 6.0]),
        reals([3.25, 10.5, 9.0]),
    ]
}

fn second() -> [Vec3<Real>; 3] {
    [
        reals([-3.0, -2.0, 5.0]),
        reals([14.0, 0.0, 5.0]),
        reals([0.0, 20.0, 5.0]),
    ]
}

#[test]
fn weights_by_the_cross_product() {
    let pts = [reals([0.0, 0.0, 0.0]), reals([4.0, 0.0, 0.0]), reals([0.0, 4.0, 0.0])];
    assert_eq!(barycentric(&pts, reals([1.0, 2.0, 0.0])), reals([0.25, 0.25, 0.5]));
    assert_eq!(barycentric(&pts, reals([0.0, 0.0, 0.0])), reals([1.0, 0.0, 0.0]));
    assert_eq!(barycentric(&pts, reals([4.0, 0.0, 0.0])), reals([0.0, 1.0, 0.0]));
    assert_eq!(barycentric(&pts, reals([0.0, 4.0, 0.0])), reals([0.0, 0.0, 1.0]));
    assert_eq!(barycentric(&pts, reals([3.0, 3.0, 0.0])), reals([-0.5, 0.75, 0.75]));
    assert_eq!(
        barycentric(&first(), reals([4.0, 4.0, 0.0])),
        reals([0.4890387858347386, 0.24704890387858347, 0.2639123102866779])
    );
}

#[test]
fn a_triangle_of_no_area_has_the_outside_weights() {
    let small = [reals([0.0, 0.0, 0.0]), reals([0.5, 0.0, 0.0]), reals([0.0, 0.5, 0.0])];
    assert_eq!(barycentric(&small, reals([0.1, 0.1, 0.0])), reals([-1.0, 1.0, 1.0]));
    let line = [reals([0.0, 0.0, 0.0]), reals([2.0, 2.0, 0.0]), reals([7.0, 7.0, 0.0])];
    assert_eq!(barycentric(&line, reals([1.0, 1.0, 0.0])), reals([-1.0, 1.0, 1.0]));
}

#[test]
fn filling_against_depths() {
    let (mut img, mut zbuf) = frame(12);
    assert_eq!(triangle(first(), &mut zbuf, &mut img, RED), Ok(()));
    assert_eq!(colored(&img, RED), [0, 0, 5, 8, 6, 5, 4, 4, 3, 2, 0, 0]);
    assert_eq!(zbuf.get(2, 2), Ok(Real(3.584317032040472)));
    assert_eq!(zbuf.get(4, 4), Ok(Real(5.324620573355817)));
    assert_eq!(zbuf.get(8, 3), Ok(Real(5.820404721753794)));
    assert_eq!(img.get(9, 2), Ok([0, 0, 0, 0]));
    assert_eq!(zbuf.get(9, 2), Ok(Real(FAR)));
    // a triangle at depth 5 over the whole frame: in front of what is below 5
    assert_eq!(triangle(second(), &mut zbuf, &mut img, BLUE), Ok(()));
    assert_eq!(colored(&img, BLUE), [12, 12, 12, 7, 6, 6, 6, 6, 6, 6, 8, 7]);
    assert_eq!(colored(&img, RED), [0, 0, 0, 5, 6, 5, 4, 4, 3, 2, 0, 0]);
    assert_eq!(img.get(2, 2), Ok(BLUE));
    assert_eq!(zbuf.get(2, 2), Ok(Real(5.0)));
    assert_eq!(img.get(4, 4), Ok(RED));
    // the same depth once more: the stored depth is not below, nothing changes
    assert_eq!(triangle(second(), &mut zbuf, &mut img, [9, 9, 9, 9]), Ok(()));
    assert_eq!(colored(&img, [9, 9, 9, 9]), [0; 12]);
}

#[test]
fn triangles_of_no_area_and_frames_of_two_sizes() {
    let (mut img, mut zbuf) = frame(12);
    let line = [reals([1.0, 1.0, 1.0]), reals([5.0, 5.0, 1.0]), reals([9.0, 9.0, 1.0])];
    assert_eq!(triangle(line, &mut zbuf, &mut img, RED), Ok(()));
    assert_eq!(colored(&img, RED), [0; 12]);
    let mut other = DepthBuffer::new(12, 13, Real(FAR)).unwrap();
    assert_eq!(
        triangle(first(), &mut other, &mut img, RED),
        Err(RenderError::DimensionMismatch)
    );
    assert_eq!(colored(&img, RED), [0; 12]);
}
