//! Drawing straight lines.
use crate::error::RenderError;
use crate::framebuffer::{Canvas, Color};
use crate::geometry::Vec3;
use crate::model::Model;
use crate::util::{
    opposite, opposite_spec, ratio, ratio_spec, to_screen, usable, NumLike, RgbaImageExt,
};
use vstd::prelude::*;

verus! {

/// A line as it is drawn: along its longer axis from `from` to before `to`, one
/// pixel for each step; `steep` where that axis is y. `start` is the coordinate on
/// the other axis at `from`, and `rising` whether that coordinate grows.
pub struct Run {
    pub steep: bool,
    pub from: int,
    pub to: int,
    pub start: int,
    pub rising: bool,
}

/// How a line from `(x0, y0)` to `(x1, y1)` is drawn: along y where it is higher
/// than wide, and from the end with the smaller coordinate along that axis.
pub open spec fn run_spec(x0: int, y0: int, x1: int, y1: int) -> Run {
    let wide = if x0 < x1 {
        x1 - x0
    } else {
        x0 - x1
    };
    let high = if y0 < y1 {
        y1 - y0
    } else {
        y0 - y1
    };
    let steep = wide < high;
    let (a0, b0, a1, b1) = if steep {
        (y0, x0, y1, x1)
    } else {
        (x0, y0, x1, y1)
    };
    if a0 > a1 {
        Run { steep, from: a1, to: a0, start: b1, rising: b0 > b1 }
    } else {
        Run { steep, from: a0, to: a1, start: b0, rising: b1 > b0 }
    }
}

/// The slope of a line from `(x0, y0)` to `(x1, y1)` along its longer axis, without
/// its sign: the quotient of the two differences, formed in `T`.
pub open spec fn slope_spec<T: NumLike>(x0: i32, y0: i32, x1: i32, y1: i32) -> T {
    let steep = run_spec(x0 as int, y0 as int, x1 as int, y1 as int).steep;
    let (da, db) = if steep {
        (
            T::from_i32_spec(y1).minus_spec(T::from_i32_spec(y0)),
            T::from_i32_spec(x1).minus_spec(T::from_i32_spec(x0)),
        )
    } else {
        (
            T::from_i32_spec(x1).minus_spec(T::from_i32_spec(x0)),
            T::from_i32_spec(y1).minus_spec(T::from_i32_spec(y0)),
        )
    };
    let q = db.over_spec(da);
    if q.less_spec(T::zero_spec()) {
        opposite_spec(q)
    } else {
        q
    }
}

/// Where the pen stands after `n` steps of a run: the coordinate across the run, and
/// the error that has built up. A step adds the slope to the error; an error above
/// one half moves the pen by one across the run and takes one off the error.
pub open spec fn pen_spec<T: NumLike>(run: Run, slope: T, n: int) -> (int, T)
    decreases n,
{
    if n <= 0 {
        (run.start, T::zero_spec())
    } else {
        let (across, error) = pen_spec(run, slope, n - 1);
        let grown = error.plus_spec(slope);
        if ratio_spec::<T>(1, 2).less_spec(grown) {
            (
                if run.rising {
                    across + 1
                } else {
                    across - 1
                },
                grown.minus_spec(T::one_spec()),
            )
        } else {
            (across, grown)
        }
    }
}

/// The pixel that step `n` of a run draws, counted from zero.
pub open spec fn pixel_of_step<T: NumLike>(run: Run, slope: T, n: int) -> (int, int) {
    let along = run.from + n;
    let across = pen_spec(run, slope, n).0;
    if run.steep {
        (across, along)
    } else {
        (along, across)
    }
}

/// Whether the line from `(x0, y0)` to `(x1, y1)` draws the pixel `(x, y)`: one of
/// its steps does.
pub open spec fn line_draws<T: NumLike>(x0: i32, y0: i32, x1: i32, y1: i32, x: int, y: int) -> bool {
    let run = run_spec(x0 as int, y0 as int, x1 as int, y1 as int);
    exists|n: int|
        0 <= n < run.to - run.from && #[trigger] pixel_of_step(
            run,
            slope_spec::<T>(x0, y0, x1, y1),
            n,
        ) == (x, y)
}

/// Draws the line from `(x0, y0)` to `(x1, y1)` in the color `color`, without its
/// last pixel. What lies outside the canvas is left out.
pub fn line<T: NumLike>(x0: i32, y0: i32, x1: i32, y1: i32, img: &mut Canvas, color: Color)
    requires
        usable::<T>(),
    ensures
        final(img).spec_width() == old(img).spec_width(),
        final(img).spec_height() == old(img).spec_height(),
        T::obeys_num_spec() ==> forall|x: int, y: int|
            old(img).contains(x, y) ==> (#[trigger] final(img).color_at(x, y)) == (if line_draws::<T>(
                x0,
                y0,
                x1,
                y1,
                x,
                y,
            ) {
                color
            } else {
                old(img).color_at(x, y)
            }),
{
    let width = img.width();
    let height = img.height();
    let wide: i64 = if x0 < x1 {
        x1 as i64 - x0 as i64
    } else {
        x0 as i64 - x1 as i64
    };
    let high: i64 = if y0 < y1 {
        y1 as i64 - y0 as i64
    } else {
        y0 as i64 - y1 as i64
    };
    let steep = wide < high;
    let (a0, b0, a1, b1) = if steep {
        (y0, x0, y1, x1)
    } else {
        (x0, y0, x1, y1)
    };
    let (from, to, start, rising) = if a0 > a1 {
        (a1, a0, b1, b0 > b1)
    } else {
        (a0, a1, b0, b1 > b0)
    };
    let ghost run = run_spec(x0 as int, y0 as int, x1 as int, y1 as int);
    assert(run == (Run {
        steep,
        from: from as int,
        to: to as int,
        start: start as int,
        rising,
    }));
    let quotient = T::from_i32(b1).minus(T::from_i32(b0)).over(
        T::from_i32(a1).minus(T::from_i32(a0)),
    );
    let slope = if quotient.less(T::zero()) {
        opposite(quotient)
    } else {
        quotient
    };
    assert(T::obeys_num_spec() ==> slope == slope_spec::<T>(x0, y0, x1, y1));
    let half = ratio::<T>(1, 2);
    let mut error = T::zero();
    let mut across: i64 = start as i64;
    let mut along: i64 = from as i64;
    while along < to as i64
        invariant
            from <= along,
            along <= to || along == from,
            start - (along - from) <= across <= start + (along - from),
            run == (Run { steep, from: from as int, to: to as int, start: start as int, rising }),
            usable::<T>(),
            T::obeys_num_spec() ==> half == ratio_spec::<T>(1, 2),
            T::obeys_num_spec() ==> (across as int, error) == pen_spec(run, slope, along - from),
            img.spec_width() == old(img).spec_width(),
            img.spec_height() == old(img).spec_height(),
            width == img.spec_width(),
            height == img.spec_height(),
            T::obeys_num_spec() ==> forall|x: int, y: int|
                old(img).contains(x, y) ==> (#[trigger] img.color_at(x, y)) == (if drawn_before(
                    run,
                    slope,
                    along - from,
                    x,
                    y,
                ) {
                    color
                } else {
                    old(img).color_at(x, y)
                }),
        decreases to - along,
    {
        let (px, py) = if steep {
            (across, along)
        } else {
            (along, across)
        };
        assert(T::obeys_num_spec() ==> (px as int, py as int) == pixel_of_step(
            run,
            slope,
            along - from,
        ));
        let ghost before = *img;
        if 0 <= px && px < width as i64 && 0 <= py && py < height as i64 {
            let _ = img.put(px as u32, py as u32, color);
        }
        let ghost n = along - from;
        error = error.plus(slope);
        if half.less(error) {
            across = if rising {
                across + 1
            } else {
                across - 1
            };
            error = error.minus(T::one());
        }
        along += 1;
        proof {
            if T::obeys_num_spec() {
                assert(along - from == n + 1);
                assert forall|x: int, y: int| old(img).contains(x, y) implies drawn_before(
                    run,
                    slope,
                    along - from,
                    x,
                    y,
                ) == (drawn_before(run, slope, n, x, y) || (x == px && y == py)) by {
                    if drawn_before(run, slope, n, x, y) {
                        let k = choose|k: int|
                            0 <= k < n && #[trigger] pixel_of_step(run, slope, k) == (x, y);
                        assert(0 <= k < n + 1 && pixel_of_step(run, slope, k) == (x, y));
                    }
                    if x == px && y == py {
                        assert(0 <= n < n + 1 && pixel_of_step(run, slope, n) == (x, y));
                    }
                    if drawn_before(run, slope, n + 1, x, y) {
                        let k = choose|k: int|
                            0 <= k < n + 1 && #[trigger] pixel_of_step(run, slope, k) == (x, y);
                        if k < n {
                            assert(0 <= k < n && pixel_of_step(run, slope, k) == (x, y));
                        }
                    }
                }
                assert forall|x: int, y: int| old(img).contains(x, y) implies (
                #[trigger] img.color_at(x, y)) == (if drawn_before(run, slope, along - from, x, y) {
                    color
                } else {
                    old(img).color_at(x, y)
                }) by {
                    assert(drawn_before(run, slope, along - from, x, y) == (drawn_before(
                        run,
                        slope,
                        n,
                        x,
                        y,
                    ) || (x == px && y == py)));
                    assert(img.color_at(x, y) == (if x == px && y == py {
                        color
                    } else {
                        before.color_at(x, y)
                    }));
                    assert(before.color_at(x, y) == (if drawn_before(run, slope, n, x, y) {
                        color
                    } else {
                        old(img).color_at(x, y)
                    }));
                }
            }
        }
    }
    proof {
        if T::obeys_num_spec() {
            assert forall|x: int, y: int| old(img).contains(x, y) implies line_draws::<T>(
                x0,
                y0,
                x1,
                y1,
                x,
                y,
            ) == drawn_before(run, slope, to - from, x, y) by {
                if to - from <= 0 {
                    assert(!drawn_before(run, slope, along - from, x, y));
                }
            }
        }
    }
}

/// Whether one of the first `n` steps of a run draws the pixel `(x, y)`.
pub open spec fn drawn_before<T: NumLike>(run: Run, slope: T, n: int, x: int, y: int) -> bool {
    exists|k: int| 0 <= k < n && #[trigger] pixel_of_step(run, slope, k) == (x, y)
}

/// The width and the height of the pictures of lines, in pixels.
pub const SIZE: u32 = 801;

/// Whether the edge between the positions `v0` and `v1` of a mesh, seen along z,
/// draws the pixel `(x, y)`, where the line keeps its error in the scalar `E`.
pub open spec fn edge_draws<T: NumLike, E: NumLike>(v0: Seq<T>, v1: Seq<T>, x: int, y: int) -> bool {
    line_draws::<E>(
        crate::util::to_screen_spec(v0[0], SIZE).to_i32_spec(),
        crate::util::to_screen_spec(v0[1], SIZE).to_i32_spec(),
        crate::util::to_screen_spec(v1[0], SIZE).to_i32_spec(),
        crate::util::to_screen_spec(v1[1], SIZE).to_i32_spec(),
        x,
        y,
    )
}

/// Whether one of the three edges of the face `iface` of the mesh draws the pixel
/// `(x, y)`.
pub open spec fn face_draws<T: NumLike, E: NumLike>(model: Model<T>, iface: int, x: int, y: int) -> bool {
    let c0 = model.verts@[model.corner(iface as usize, 0)[0] as int]@;
    let c1 = model.verts@[model.corner(iface as usize, 1)[0] as int]@;
    let c2 = model.verts@[model.corner(iface as usize, 2)[0] as int]@;
    edge_draws::<T, E>(c0, c1, x, y) || edge_draws::<T, E>(c1, c2, x, y) || edge_draws::<T, E>(
        c2,
        c0,
        x,
        y,
    )
}

/// Whether one of the first `n` faces of the mesh draws the pixel `(x, y)`.
pub open spec fn wire_draws<T: NumLike, E: NumLike>(model: Model<T>, n: int, x: int, y: int) -> bool {
    exists|f: int| 0 <= f < n && #[trigger] face_draws::<T, E>(model, f, x, y)
}

/// Draws the edge between the positions `v0` and `v1` of a mesh, seen along z, in
/// opaque black.
pub fn edge<T: NumLike, E: NumLike>(v0: &Vec3<T>, v1: &Vec3<T>, img: &mut Canvas)
    requires
        usable::<T>(),
        usable::<E>(),
    ensures
        final(img).spec_width() == old(img).spec_width(),
        final(img).spec_height() == old(img).spec_height(),
        T::obeys_num_spec() && E::obeys_num_spec() ==> forall|x: int, y: int|
            old(img).contains(x, y) ==> (#[trigger] final(img).color_at(x, y)) == (if edge_draws::<T, E>(
                v0@,
                v1@,
                x,
                y,
            ) {
                [0u8, 0u8, 0u8, 255u8]
            } else {
                old(img).color_at(x, y)
            }),
{
    let x0 = to_screen(v0.data[0], SIZE).to_i32();
    let y0 = to_screen(v0.data[1], SIZE).to_i32();
    let x1 = to_screen(v1.data[0], SIZE).to_i32();
    let y1 = to_screen(v1.data[1], SIZE).to_i32();
    line::<E>(x0, y0, x1, y1, img, [0, 0, 0, 255]);
}

/// Renders the edges of the faces of the mesh, seen along z, with lines that keep
/// their error in the scalar `E`, in black on
/// transparent black, with the first row of the canvas at the top of the picture: a
/// pixel is black where an edge of a face draws the pixel that is as far from the
/// bottom.
pub fn wireframe<T: NumLike, E: NumLike>(model: &Model<T>) -> (r: Result<Canvas, RenderError>)
    requires
        model.wf(),
        usable::<T>(),
        usable::<E>(),
    ensures
        r matches Ok(img) && img.spec_width() == SIZE && img.spec_height() == SIZE,
        T::obeys_num_spec() && E::obeys_num_spec() ==> forall|x: int, y: int|
            r->Ok_0.contains(x, y) ==> (#[trigger] r->Ok_0.color_at(x, y)) == (if wire_draws::<T, E>(
                *model,
                model.faces@.len() as int,
                x,
                SIZE - 1 - y,
            ) {
                [0u8, 0u8, 0u8, 255u8]
            } else {
                [0u8, 0u8, 0u8, 0u8]
            }),
{
    let mut img = match Canvas::new(SIZE, SIZE) {
        Some(img) => img,
        None => vstd::pervasive::unreached(),
    };
    let nfaces = model.nfaces();
    let mut i: usize = 0;
    while i < nfaces
        invariant
            i <= nfaces,
            nfaces == model.faces@.len(),
            model.wf(),
            usable::<T>(),
            usable::<E>(),
        usable::<E>(),
            img.spec_width() == SIZE && img.spec_height() == SIZE,
            T::obeys_num_spec() && E::obeys_num_spec() ==> forall|x: int, y: int|
                img.contains(x, y) ==> (#[trigger] img.color_at(x, y)) == (if wire_draws::<T, E>(
                    *model,
                    i as int,
                    x,
                    y,
                ) {
                    [0u8, 0u8, 0u8, 255u8]
                } else {
                    [0u8, 0u8, 0u8, 0u8]
                }),
        decreases nfaces - i,
    {
        let world = match model.corners(i) {
            Ok(world) => world,
            Err(_) => vstd::pervasive::unreached(),
        };
        let ghost before = img;
        edge::<T, E>(&world[0], &world[1], &mut img);
        let ghost first = img;
        edge::<T, E>(&world[1], &world[2], &mut img);
        let ghost second = img;
        edge::<T, E>(&world[2], &world[0], &mut img);
        proof {
            if T::obeys_num_spec() && E::obeys_num_spec() {
                assert forall|x: int, y: int| img.contains(x, y) implies (#[trigger] img.color_at(
                    x,
                    y,
                )) == (if wire_draws::<T, E>(*model, i + 1, x, y) {
                    [0u8, 0u8, 0u8, 255u8]
                } else {
                    [0u8, 0u8, 0u8, 0u8]
                }) by {
                    assert(before.contains(x, y) && first.contains(x, y) && second.contains(x, y));
                    assert(face_draws::<T, E>(*model, i as int, x, y) == (edge_draws::<T, E>(
                        world@[0]@,
                        world@[1]@,
                        x,
                        y,
                    ) || edge_draws::<T, E>(world@[1]@, world@[2]@, x, y) || edge_draws::<T, E>(
                        world@[2]@,
                        world@[0]@,
                        x,
                        y,
                    )));
                    assert(first.color_at(x, y) == (if edge_draws::<T, E>(world@[0]@, world@[1]@, x, y) {
                        [0u8, 0u8, 0u8, 255u8]
                    } else {
                        before.color_at(x, y)
                    }));
                    assert(second.color_at(x, y) == (if edge_draws::<T, E>(world@[1]@, world@[2]@, x, y) {
                        [0u8, 0u8, 0u8, 255u8]
                    } else {
                        first.color_at(x, y)
                    }));
                    if wire_draws::<T, E>(*model, i as int, x, y) {
                        let f = choose|f: int| 0 <= f < i && #[trigger] face_draws::<T, E>(*model, f, x, y);
                        assert(0 <= f < i + 1 && face_draws::<T, E>(*model, f, x, y));
                    }
                    if face_draws::<T, E>(*model, i as int, x, y) {
                        assert(0 <= i < i + 1 && face_draws::<T, E>(*model, i as int, x, y));
                    }
                    if wire_draws::<T, E>(*model, i + 1, x, y) {
                        let f = choose|f: int|
                            0 <= f < i + 1 && #[trigger] face_draws::<T, E>(*model, f, x, y);
                        if f < i {
                            assert(0 <= f < i && face_draws::<T, E>(*model, f, x, y));
                        }
                    }
                }
            }
        }
        i += 1;
    }
    let ghost drawn = img;
    img.flip_vertical();
    proof {
        if T::obeys_num_spec() && E::obeys_num_spec() {
            assert forall|x: int, y: int| img.contains(x, y) implies (#[trigger] img.color_at(x, y))
                == (if wire_draws::<T, E>(*model, model.faces@.len() as int, x, SIZE - 1 - y) {
                [0u8, 0u8, 0u8, 255u8]
            } else {
                [0u8, 0u8, 0u8, 0u8]
            }) by {
                assert(drawn.contains(x, SIZE - 1 - y));
                assert(img.color_at(x, y) == drawn.color_at(x, SIZE - 1 - y));
            }
        }
    }
    Ok(img)
}

/// A canvas with the line from (0, 0) to (400, 400) in black on transparent black.
pub fn sample_line<T: NumLike>() -> (r: Canvas)
    requires
        usable::<T>(),
    ensures
        r.spec_width() == SIZE,
        r.spec_height() == SIZE,
        T::obeys_num_spec() ==> forall|x: int, y: int|
            r.contains(x, y) ==> (#[trigger] r.color_at(x, y)) == (if line_draws::<T>(
                0,
                0,
                400,
                400,
                x,
                y,
            ) {
                [0u8, 0u8, 0u8, 255u8]
            } else {
                [0u8, 0u8, 0u8, 0u8]
            }),
{
    let mut img = match Canvas::new(SIZE, SIZE) {
        Some(img) => img,
        None => vstd::pervasive::unreached(),
    };
    line::<T>(0, 0, 400, 400, &mut img, [0, 0, 0, 255]);
    img
}

} // verus!
