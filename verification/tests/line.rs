use tinyrender::fixed::Fixed;
use tinyrender::framebuffer::{Canvas, Color};
use tinyrender::util::NumLike;

/// A double-precision scalar: every operation is defined, and rounds.
#[derive(Clone, Copy, Debug, PartialEq)]
struct Real(f64);

impl NumLike for Real {
    fn zero() -> Self {
        Real(0.0)
    }

    fn one() -> Self {
        Real(1.0)
    }

    fn from_i32(v: i32) -> Self {
        Real(v as f64)
    }

    fn to_i32(self) -> i32 {
        self.0 as i32
    }

    fn plus(self, rhs: Self) -> Self {
        Real(self.0 + rhs.0)
    }

    fn minus(self, rhs: Self) -> Self {
        Real(self.0 - rhs.0)
    }

    fn times(self, rhs: Self) -> Self {
        Real(self.0 * rhs.0)
    }

    fn over(self, rhs: Self) -> Self {
        Real(self.0 / rhs.0)
    }

    fn sqrt(self) -> Self {
        Real(self.0.sqrt())
    }

    fn equals(self, rhs: Self) -> bool {
        self.0 == rhs.0
    }

    fn less(self, rhs: Self) -> bool {
        self.0 < rhs.0
    }
}

const BLACK: Color = [0, 0, 0, 255];

fn drawn(img: &Canvas) -> Vec<(u32, u32)> {
    let mut pixels = Vec::new();
    for y in 0..img.height() {
        for x in 0..img.width() {
            if img.get(x, y) == Ok(BLACK) {
                pixels.push((x, y));
            } else {
                assert_eq!(img.get(x, y), Ok([0, 0, 0, 0]));
            }
        }
    }
    pixels.sort();
    pixels
}

fn draw(x0: i32, y0: i32, x1: i32, y1: i32) -> Vec<(u32, u32)> {
    let mut img = Canvas::new(12, 12).unwrap();
    tinyrender::line::line::<Real>(x0, y0, x1, y1, &mut img, BLACK);
    drawn(&img)
}

#[test]
fn a_flat_line_steps_up_where_the_error_passes_one_half() {
    let want = [(1, 1), (2, 1), (3, 2), (4, 2), (5, 2), (6, 3), (7, 3), (8, 4)];
    assert_eq!(draw(1, 1, 9, 4), want);
    assert_eq!(draw(9, 4, 1, 1), want);
}

#[test]
fn a_steep_line_runs_along_y() {
    let mut want = vec![
        (5, 0),
        (5, 1),
        (4, 2),
        (4, 3),
        (4, 4),
        (4, 5),
        (3, 6),
        (3, 7),
        (3, 8),
        (2, 9),
    ];
    want.sort();
    assert_eq!(draw(2, 10, 5, 0), want);
}

#[test]
fn a_line_leaves_out_its_last_pixel_and_what_is_outside() {
    assert_eq!(draw(-3, 5, 4, 14), [(0, 9), (1, 10), (2, 11)]);
    assert_eq!(draw(3, 3, 3, 3), []);
    assert_eq!(draw(3, 3, 3, 8), [(3, 3), (3, 4), (3, 5), (3, 6), (3, 7)]);
    assert_eq!(draw(0, 7, 11, 7).len(), 11);
    assert_eq!(draw(i32::MIN, i32::MIN, i32::MIN, i32::MIN), []);
    assert_eq!(draw(-5, -5, -1, -2), []);
}

#[test]
fn the_sample_line_is_a_diagonal() {
    let img = tinyrender::line::sample_line::<Real>();
    assert_eq!((img.width(), img.height()), (801, 801));
    let pixels = drawn(&img);
    assert_eq!(pixels.len(), 400);
    for (i, p) in pixels.iter().enumerate() {
        assert_eq!(*p, (i as u32, i as u32));
    }
}

#[test]
fn a_line_on_fixed_point_numbers() {
    // the slope 3 / 8 and its multiples have no more than 16 binary places
    let mut img = Canvas::new(12, 12).unwrap();
    tinyrender::line::line::<Fixed>(1, 1, 9, 4, &mut img, BLACK);
    let want = [(1, 1), (2, 1), (3, 2), (4, 2), (5, 2), (6, 3), (7, 3), (8, 4)];
    assert_eq!(drawn(&img), want);
    // a line of one point has the slope 0 / 0, which is 0, and no steps
    let mut img = Canvas::new(12, 12).unwrap();
    tinyrender::line::line::<Fixed>(3, 3, 3, 3, &mut img, BLACK);
    assert_eq!(drawn(&img), []);
}
