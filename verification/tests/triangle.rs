use tinyrender::framebuffer::{Canvas, Color};
use tinyrender::geometry::{Vec2i, Vec_};
use tinyrender::triangle::{barycentric, triangle, Weights};

const RED: Color = [255, 0, 0, 255];

fn at(x: i32, y: i32) -> Vec2i {
    Vec_::from([x, y])
}

fn sample() -> [Vec2i; 3] {
    [at(10, 10), at(100, 30), at(190, 160)]
}

/// Twice the signed area of the triangle `a`, `b`, `c`.
fn area2(a: (i64, i64), b: (i64, i64), c: (i64, i64)) -> i64 {
    (b.0 - a.0) * (c.1 - a.1) - (c.0 - a.0) * (b.1 - a.1)
}

/// Whether `p` lies in the triangle `t`, edges included, by the signs of three areas.
fn inside(t: &[Vec2i; 3], p: (i64, i64)) -> bool {
    let v: Vec<(i64, i64)> = t.iter().map(|c| (c.data[0] as i64, c.data[1] as i64)).collect();
    let (d0, d1, d2) = (
        area2(v[0], v[1], p),
        area2(v[1], v[2], p),
        area2(v[2], v[0], p),
    );
    (d0 >= 0 && d1 >= 0 && d2 >= 0) || (d0 <= 0 && d1 <= 0 && d2 <= 0)
}

#[test]
fn sample_triangle_is_red_inside_and_nowhere_else() {
    let mut img = Canvas::new(200, 200).unwrap();
    triangle(sample(), &mut img, RED);
    assert_eq!(img.get(0, 0), Ok([0, 0, 0, 0]));
    assert_eq!(img.get(199, 199), Ok([0, 0, 0, 0]));
    let mut red = 0;
    for y in 0..200u32 {
        for x in 0..200u32 {
            let is_red = img.get(x, y) == Ok(RED);
            assert_eq!(is_red, inside(&sample(), (x as i64, y as i64)));
            if is_red {
                red += 1;
            } else {
                assert_eq!(img.get(x, y), Ok([0, 0, 0, 0]));
            }
        }
    }
    assert_eq!(red, 4976);
    assert_eq!(img.get(100, 60), Ok(RED));
    assert_eq!(img.get(10, 10), Ok(RED));
    assert_eq!(img.get(190, 160), Ok(RED));
}

#[test]
fn weights_at_the_corners_are_one_and_zero() {
    let t = sample();
    let den = barycentric(&t, at(50, 50)).den;
    assert_eq!(den, -9900);
    assert_eq!(barycentric(&t, at(10, 10)), Weights { num: [den, 0, 0], den });
    assert_eq!(barycentric(&t, at(100, 30)), Weights { num: [0, den, 0], den });
    assert_eq!(barycentric(&t, at(190, 160)), Weights { num: [0, 0, den], den });
}

#[test]
fn weights_sum_to_one_and_are_negative_outside() {
    let t = sample();
    for (x, y) in [(50, 50), (100, 60), (0, 0), (199, 199), (-30, 500), (100, 30)] {
        let w = barycentric(&t, at(x, y));
        assert_eq!(w.num[0] + w.num[1] + w.num[2], w.den);
        assert_eq!(w.any_negative(), !inside(&t, (x as i64, y as i64)));
    }
    let w = barycentric(&t, at(100, 60));
    assert_eq!(w, Weights { num: [-2700, -4500, -2700], den: -9900 });
    assert!(!w.any_negative());
    let out = barycentric(&t, at(0, 0));
    assert_eq!(out, Weights { num: [-10300, -300, 700], den: -9900 });
    assert!(out.any_negative());
}

#[test]
fn weights_of_the_widest_coordinates_do_not_overflow() {
    let t = [at(i32::MIN, i32::MIN), at(i32::MAX, i32::MIN), at(i32::MIN, i32::MAX)];
    let side = u32::MAX as i128;
    let w = barycentric(&t, at(i32::MAX, i32::MAX));
    assert_eq!(w, Weights { num: [side * side, -side * side, -side * side], den: -side * side });
    assert!(w.any_negative());
    let corner = barycentric(&t, at(i32::MIN, i32::MIN));
    assert_eq!(corner, Weights { num: [-side * side, 0, 0], den: -side * side });
    assert!(!corner.any_negative());
}

#[test]
fn points_on_one_line_have_the_outside_weights_and_fill_nothing() {
    let line = [at(1, 1), at(4, 4), at(9, 9)];
    assert_eq!(barycentric(&line, at(4, 4)), Weights { num: [-1, 1, 1], den: 1 });
    let same = [at(3, 3), at(3, 3), at(3, 3)];
    assert_eq!(barycentric(&same, at(3, 3)), Weights { num: [-1, 1, 1], den: 1 });
    let mut img = Canvas::from_pixel(12, 12, [9, 9, 9, 9]).unwrap();
    triangle(line, &mut img, RED);
    triangle(same, &mut img, RED);
    triangle([at(2, 5), at(7, 5), at(11, 5)], &mut img, RED);
    for y in 0..12 {
        for x in 0..12 {
            assert_eq!(img.get(x, y), Ok([9, 9, 9, 9]));
        }
    }
}

#[test]
fn triangle_is_cut_at_the_edges_of_the_canvas() {
    let t = [at(-5, 3), at(14, -4), at(6, 12)];
    let mut img = Canvas::new(10, 8).unwrap();
    triangle(t, &mut img, RED);
    let mut red = 0;
    for y in 0..8u32 {
        for x in 0..10u32 {
            let want = if inside(&t, (x as i64, y as i64)) { RED } else { [0, 0, 0, 0] };
            assert_eq!(img.get(x, y), Ok(want));
            red += (want == RED) as usize;
        }
    }
    assert_eq!(red, 74);
    assert_eq!(img.get(5, 4), Ok(RED));
    assert_eq!(img.get(0, 0), Ok([0, 0, 0, 0]));
    assert_eq!(img.get(9, 7), Ok([0, 0, 0, 0]));
    let mut none = Canvas::new(0, 0).unwrap();
    triangle(t, &mut none, RED);
    let far = [at(50, 50), at(60, 50), at(50, 60)];
    let mut img = Canvas::new(10, 8).unwrap();
    triangle(far, &mut img, RED);
    assert_eq!(img.get(9, 7), Ok([0, 0, 0, 0]));
}

#[test]
fn either_sense_of_rotation_fills_the_same_pixels() {
    let t = sample();
    let turned = [t[0], t[2], t[1]];
    let mut a = Canvas::new(200, 200).unwrap();
    let mut b = Canvas::new(200, 200).unwrap();
    triangle(t, &mut a, RED);
    triangle(turned, &mut b, RED);
    for y in 0..200 {
        for x in 0..200 {
            assert_eq!(a.get(x, y), b.get(x, y));
        }
    }
}
