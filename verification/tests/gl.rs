use tinyrender::error::RenderError;
use tinyrender::framebuffer::{Canvas, Color, DepthBuffer};
use tinyrender::geometry::{Vec2, Vec3, Vec4, Vec_};
use tinyrender::gl::{barycentric, fragment_visible, store_fragment, IShader, GL};
use tinyrender::util::NumLike;

/// A double-precision scalar: every operation is defined, and rounds.
#[derive(Clone, Copy, Debug, PartialEq)]
struct Real(f64);

impl NumLike for Real {
    fn zero() -> Self {
        Real(0.0)
    }

    fn one() -> Self {
        Real(1.0)
    }

    fn from_i32(v: i32) -> Self {
        Real(v as f64)
    }

    fn to_i32(self) -> i32 {
        self.0 as i32
    }

    fn plus(self, rhs: Self) -> Self {
        Real(self.0 + rhs.0)
    }

    fn minus(self, rhs: Self) -> Self {
        Real(self.0 - rhs.0)
    }

    fn times(self, rhs: Self) -> Self {
        Real(self.0 * rhs.0)
    }

    fn over(self, rhs: Self) -> Self {
        Real(self.0 / rhs.0)
    }

    fn sqrt(self) -> Self {
        Real(self.0.sqrt())
    }

    fn equals(self, rhs: Self) -> bool {
        self.0 == rhs.0
    }

    fn less(self, rhs: Self) -> bool {
        self.0 < rhs.0
    }
}

fn reals<const N: usize>(v: [f64; N]) -> Vec_<Real, N> {
    Vec_::from(v.map(Real))
}

const FAR: f64 = -1e300;

/// A shader that counts its calls and returns one color, discards every fragment, or
/// fails.
struct Flat {
    color: Option<Color>,
    fails: bool,
    calls: usize,
}

impl IShader<Real> for Flat {
    fn vertex(&mut self, _iface: usize, _nthvert: usize) -> Result<Vec4<Real>, RenderError> {
        Ok(reals([0.0, 0.0, 0.0, 1.0]))
    }

    fn fragment(
        &mut self,
        _bc: Vec3<Real>,
        _gl_fragcoord: Vec3<Real>,
    ) -> Result<Option<Color>, RenderError> {
        self.calls += 1;
        if self.fails {
            Err(RenderError::SampleOutOfRange)
        } else {
            Ok(self.color)
        }
    }
}

fn flat(color: Color) -> Flat {
    Flat {
        color: Some(color),
        fails: false,
        calls: 0,
    }
}

const RED: Color = [255, 0, 0, 255];
const BLUE: Color = [0, 0, 255, 255];
const CYAN: Color = [0, 255, 255, 255];

fn frame(size: u32) -> (GL<Real>, Canvas, DepthBuffer<Real>) {
    (
        GL::new(reals([0.0, 0.0, 1.0]), size, size),
        Canvas::new(size, size).unwrap(),
        DepthBuffer::new(size, size, Real(FAR)).unwrap(),
    )
}

fn colored(img: &Canvas, color: Color) -> Vec<usize> {
    (0..img.height())
        .map(|y| (0..img.width()).filter(|x| img.get(*x, y) == Ok(color)).count())
        .collect()
}

fn first() -> [Vec4<Real>; 3] {
    [
        reals([1.0, 1.0, 10.0, 1.0]),
        reals([9.0, 2.0, 30.0, 1.0]),
        reals([3.0, 10.0, 50.0, 1.0]),
    ]
}

fn second() -> [Vec4<Real>; 3] {
    [
        reals([-4.0, -2.0, 40.0, 2.0]),
        reals([40.0, 4.0, 40.0, 2.0]),
        reals([6.0, 30.0, 40.0, 2.0]),
    ]
}

#[test]
fn test_barycentric() {
    let pts = [reals([0.0, 0.0]), reals([1.0, 0.0]), reals([0.0, 1.0])];
    let p = reals([0.5, 0.5]);
    let bary = barycentric(pts, p);
    assert_eq!(bary, reals([0.0, 0.5, 0.5]));
}

#[test]
fn barycentric_weights_at_the_corners_and_outside() {
    let pts: [Vec2<Real>; 3] = [reals([0.0, 0.0]), reals([4.0, 0.0]), reals([0.0, 4.0])];
    assert_eq!(barycentric(pts, reals([0.0, 0.0])), reals([1.0, 0.0, 0.0]));
    assert_eq!(barycentric(pts, reals([4.0, 0.0])), reals([0.0, 1.0, 0.0]));
    assert_eq!(barycentric(pts, reals([0.0, 4.0])), reals([0.0, 0.0, 1.0]));
    let inside = barycentric(pts, reals([1.0, 2.0]));
    assert_eq!(inside, reals([0.25, 0.25, 0.5]));
    let outside = barycentric(pts, reals([3.0, 3.0]));
    assert_eq!(outside, reals([-0.5, 0.75, 0.75]));
    let left = barycentric(pts, reals([-1.0, 1.0]));
    assert!(left.data[1].0 < 0.0);
}

#[test]
fn barycentric_of_a_degenerate_triangle_is_outside() {
    let line: [Vec2<Real>; 3] = [reals([0.0, 0.0]), reals([2.0, 2.0]), reals([5.0, 5.0])];
    assert_eq!(barycentric(line, reals([1.0, 1.0])), reals([-1.0, 1.0, 1.0]));
    // corners in the other sense of rotation have a negative determinant
    let turned: [Vec2<Real>; 3] = [reals([0.0, 0.0]), reals([0.0, 4.0]), reals([4.0, 0.0])];
    assert_eq!(barycentric(turned, reals([1.0, 1.0])), reals([-1.0, 1.0, 1.0]));
    // and so has a triangle below the threshold
    let tiny: [Vec2<Real>; 3] = [reals([0.0, 0.0]), reals([0.03, 0.0]), reals([0.0, 0.03])];
    assert_eq!(barycentric(tiny, reals([0.01, 0.01])), reals([-1.0, 1.0, 1.0]));
}

#[test]
fn shader_driven_triangle_draws_and_stores_depths() {
    let (gl, mut img, mut zbuf) = frame(12);
    let mut shader = flat(RED);
    assert_eq!(gl.triangle(first(), &mut shader, &mut img, &mut zbuf), Ok(()));
    assert_eq!(shader.calls, 36);
    assert_eq!(colored(&img, RED), [0, 0, 8, 7, 6, 5, 4, 3, 2, 1, 0, 0]);
    assert_eq!(img.get(4, 4), Ok(RED));
    assert_eq!(zbuf.get(4, 4), Ok(Real(28.5)));
    assert_eq!(zbuf.get(9, 2), Ok(Real(30.5)));
    assert_eq!(zbuf.get(8, 3), Ok(Real(32.5)));
    assert_eq!(img.get(2, 1), Ok([0, 0, 0, 0]));
    assert_eq!(zbuf.get(2, 1), Ok(Real(FAR)));
}

#[test]
fn shader_driven_triangle_keeps_the_greater_depth() {
    let (gl, mut img, mut zbuf) = frame(12);
    gl.triangle(first(), &mut flat(RED), &mut img, &mut zbuf).unwrap();
    // a triangle that covers the frame at depth 20.5, behind the first
    let mut blue = flat(BLUE);
    gl.triangle(second(), &mut blue, &mut img, &mut zbuf).unwrap();
    assert_eq!(blue.calls, 90);
    assert_eq!(colored(&img, BLUE), [6, 12, 6, 6, 6, 7, 7, 8, 9, 8, 8, 7]);
    // it shows where the first is below depth 20.5, near its corner of depth 10
    assert_eq!(colored(&img, RED), [0, 0, 6, 6, 6, 5, 4, 3, 2, 1, 0, 0]);
    assert_eq!(img.get(2, 2), Ok(BLUE));
    assert_eq!(zbuf.get(2, 2), Ok(Real(20.5)));
    assert_eq!(img.get(1, 1), Ok(BLUE));
    assert_eq!(zbuf.get(1, 1), Ok(Real(20.5)));
    assert_eq!(img.get(4, 4), Ok(RED));
    assert_eq!(zbuf.get(4, 4), Ok(Real(28.5)));
    assert_eq!(img.get(11, 11), Ok([0, 0, 0, 0]));
    // the same depths once more: a fragment of the stored depth passes, the later wins
    let mut cyan = flat(CYAN);
    gl.triangle(second(), &mut cyan, &mut img, &mut zbuf).unwrap();
    assert_eq!(cyan.calls, 90);
    assert_eq!(colored(&img, BLUE), [0; 12]);
    assert_eq!(colored(&img, CYAN), [6, 12, 6, 6, 6, 7, 7, 8, 9, 8, 8, 7]);
    assert_eq!(colored(&img, RED), [0, 0, 6, 6, 6, 5, 4, 3, 2, 1, 0, 0]);
}

#[test]
fn shader_driven_triangle_in_reverse_order_gives_the_same_frame() {
    let (gl, mut img, mut zbuf) = frame(12);
    let mut blue = flat(BLUE);
    gl.triangle(second(), &mut blue, &mut img, &mut zbuf).unwrap();
    assert_eq!(blue.calls, 123);
    let mut red = flat(RED);
    gl.triangle(first(), &mut red, &mut img, &mut zbuf).unwrap();
    assert_eq!(red.calls, 33);
    assert_eq!(colored(&img, RED), [0, 0, 6, 6, 6, 5, 4, 3, 2, 1, 0, 0]);
    assert_eq!(colored(&img, BLUE), [6, 12, 6, 6, 6, 7, 7, 8, 9, 8, 8, 7]);
    assert_eq!(zbuf.get(4, 4), Ok(Real(28.5)));
    assert_eq!(zbuf.get(1, 1), Ok(Real(20.5)));
}

#[test]
fn degenerate_triangle_leaves_the_buffers_unchanged() {
    let (gl, mut img, mut zbuf) = frame(12);
    let line = [
        reals([1.0, 1.0, 10.0, 1.0]),
        reals([5.0, 5.0, 30.0, 1.0]),
        reals([9.0, 9.0, 50.0, 1.0]),
    ];
    let mut shader = flat(RED);
    assert_eq!(gl.triangle(line, &mut shader, &mut img, &mut zbuf), Ok(()));
    let turned = [first()[0], first()[2], first()[1]];
    assert_eq!(gl.triangle(turned, &mut shader, &mut img, &mut zbuf), Ok(()));
    assert_eq!(shader.calls, 0);
    for y in 0..12 {
        for x in 0..12 {
            assert_eq!(img.get(x, y), Ok([0, 0, 0, 0]));
            assert_eq!(zbuf.get(x, y), Ok(Real(FAR)));
        }
    }
}

#[test]
fn discarded_fragments_change_nothing() {
    let (gl, mut img, mut zbuf) = frame(12);
    let mut shader = Flat {
        color: None,
        fails: false,
        calls: 0,
    };
    assert_eq!(gl.triangle(first(), &mut shader, &mut img, &mut zbuf), Ok(()));
    assert_eq!(shader.calls, 36);
    for y in 0..12 {
        for x in 0..12 {
            assert_eq!(img.get(x, y), Ok([0, 0, 0, 0]));
            assert_eq!(zbuf.get(x, y), Ok(Real(FAR)));
        }
    }
}

#[test]
fn an_error_of_the_shader_ends_the_call() {
    let (gl, mut img, mut zbuf) = frame(12);
    let mut shader = Flat {
        color: Some(RED),
        fails: true,
        calls: 0,
    };
    assert_eq!(
        gl.triangle(first(), &mut shader, &mut img, &mut zbuf),
        Err(RenderError::SampleOutOfRange)
    );
    assert_eq!(shader.calls, 1);
}

#[test]
fn canvas_and_depth_buffer_must_have_one_size() {
    let gl: GL<Real> = GL::new(reals([0.0, 0.0, 1.0]), 12, 12);
    let mut img = Canvas::new(12, 12).unwrap();
    let mut zbuf = DepthBuffer::new(12, 11, Real(FAR)).unwrap();
    let mut shader = flat(RED);
    assert_eq!(
        gl.triangle(first(), &mut shader, &mut img, &mut zbuf),
        Err(RenderError::DimensionMismatch)
    );
    assert_eq!(shader.calls, 0);
}

#[test]
fn visibility_needs_weights_that_are_not_negative_and_a_depth_not_below() {
    let inside = reals([0.2, 0.3, 0.5]);
    assert!(fragment_visible(&inside, Real(5.0), Real(4.0)));
    assert!(fragment_visible(&inside, Real(5.0), Real(5.0)));
    assert!(!fragment_visible(&inside, Real(5.0), Real(5.5)));
    assert!(!fragment_visible(&reals([-0.1, 0.6, 0.5]), Real(5.0), Real(4.0)));
    assert!(!fragment_visible(&reals([0.6, -0.1, 0.5]), Real(5.0), Real(4.0)));
    assert!(!fragment_visible(&reals([0.6, 0.5, -0.1]), Real(5.0), Real(4.0)));
    let whole: Vec3<i32> = Vec_::from([0, 0, 1]);
    assert!(fragment_visible(&whole, 3, 3));
    assert!(!fragment_visible(&whole, 2, 3));
}

#[test]
fn storing_a_fragment_writes_both_buffers_or_none() {
    let mut img = Canvas::new(4, 4).unwrap();
    let mut zbuf = DepthBuffer::new(4, 4, 0i32).unwrap();
    store_fragment(&mut img, &mut zbuf, 1, 2, 9, Some(RED));
    assert_eq!(img.get(1, 2), Ok(RED));
    assert_eq!(zbuf.get(1, 2), Ok(9));
    store_fragment(&mut img, &mut zbuf, 1, 2, 12, None);
    assert_eq!(img.get(1, 2), Ok(RED));
    assert_eq!(zbuf.get(1, 2), Ok(9));
    assert_eq!(zbuf.get(2, 1), Ok(0));
}

#[test]
fn transforms_of_the_state() {
    let mut gl: GL<Real> = GL::new(reals([1.0, 2.0, 3.0]), 800, 600);
    assert_eq!((gl.width, gl.height), (800, 600));
    assert_eq!(gl.model_view, tinyrender::matrix::Mat::identity(4));
    gl.projection(Real(-0.25));
    assert_eq!(gl.projection.data[3][2], Real(-0.25));
    assert_eq!(gl.projection.data[3][3], Real(1.0));
    gl.viewport(100, 75, 600, 450);
    assert_eq!(gl.viewport.data[0][0], Real(300.0));
    assert_eq!(gl.viewport.data[1][3], Real(300.0));
    assert_eq!(gl.viewport.data[2][2], Real(63.75));
    assert_eq!(
        gl.lookat(reals([0.0, 0.0, 1.0]), reals([0.0, 0.0, 0.0]), reals([0.0, 1.0, 0.0])),
        Ok(())
    );
    assert_eq!(gl.model_view, tinyrender::matrix::Mat::identity(4));
    assert_eq!(
        gl.lookat(reals([0.0, 0.0, 0.0]), reals([0.0, 0.0, 0.0]), reals([0.0, 1.0, 0.0])),
        Err(RenderError::ZeroNorm)
    );
}

#[test]
fn a_triangle_that_is_drawn_nowhere_asks_no_shader_and_succeeds() {
    let (gl, mut img, mut zbuf) = frame(12);
    let mut failing = Flat {
        color: Some(RED),
        fails: true,
        calls: 0,
    };
    // three points on one line
    let line = [
        reals([1.0, 1.0, 10.0, 1.0]),
        reals([5.0, 5.0, 30.0, 1.0]),
        reals([9.0, 9.0, 50.0, 1.0]),
    ];
    assert_eq!(gl.triangle(line, &mut failing, &mut img, &mut zbuf), Ok(()));
    // a triangle behind what the buffer holds
    for y in 0..12 {
        for x in 0..12 {
            zbuf.set(x, y, Real(200.0)).unwrap();
        }
    }
    assert_eq!(gl.triangle(first(), &mut failing, &mut img, &mut zbuf), Ok(()));
    assert_eq!(failing.calls, 0);
    for y in 0..12 {
        for x in 0..12 {
            assert_eq!(img.get(x, y), Ok([0, 0, 0, 0]));
            assert_eq!(zbuf.get(x, y), Ok(Real(200.0)));
        }
    }
}
