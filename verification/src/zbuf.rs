//! Filling a triangle given by screen points with depths with one color, against a
//! depth buffer.
use crate::error::RenderError;
use crate::framebuffer::{Canvas, Color, DepthBuffer};
use crate::geometry::{cross, cross_spec, lemma_total_vectors, points_view, Vec3, Vec_};
use crate::gl::{is_outside_spec, outside_spec};
use crate::model::Model;
use crate::shaders::{blank_frame, far_spec, vec3, vec3_spec, HEIGHT, WIDTH};
use crate::triangle::{face_corners_spec, face_level, face_level_spec};
use crate::util::{
    maxf, minf, opposite, opposite_spec, to_screen, to_screen_spec, usable, NumLike, RgbaImageExt,
};
use vstd::prelude::*;

verus! {

/// The cross product from which the weights of the point `p` in the triangle `pts`
/// are read: that of the x offsets and the y offsets of the corners and the point.
pub open spec fn offsets_cross_spec<T: NumLike>(pts: Seq<Seq<T>>, p: Seq<T>) -> Seq<T> {
    cross_spec(
        seq![
            pts[2][0].minus_spec(pts[0][0]),
            pts[1][0].minus_spec(pts[0][0]),
            pts[0][0].minus_spec(p[0]),
        ],
        seq![
            pts[2][1].minus_spec(pts[0][1]),
            pts[1][1].minus_spec(pts[0][1]),
            pts[0][1].minus_spec(p[1]),
        ],
    )
}

/// Whether the absolute value of `a` is below one.
pub open spec fn within_one_spec<T: NumLike>(a: T) -> bool {
    if a.less_spec(T::zero_spec()) {
        opposite_spec(a).less_spec(T::one_spec())
    } else {
        a.less_spec(T::one_spec())
    }
}

/// The barycentric weights of the point `p` in the triangle `pts` on the screen. A
/// triangle of which the doubled area is within one of zero is degenerate, and the
/// weights are those that stand for "outside".
pub open spec fn barycentric_spec<T: NumLike>(pts: Seq<Seq<T>>, p: Seq<T>) -> Seq<T> {
    let u = offsets_cross_spec(pts, p);
    if within_one_spec(u[2]) {
        outside_spec::<T>()
    } else {
        seq![
            T::one_spec().minus_spec(u[0].plus_spec(u[1]).over_spec(u[2])),
            u[1].over_spec(u[2]),
            u[0].over_spec(u[2]),
        ]
    }
}

/// The barycentric weights of the point `p` in the triangle `pts` on the screen.
pub fn barycentric<T: NumLike>(pts: &[Vec3<T>; 3], p: Vec3<T>) -> (r: Vec3<T>)
    requires
        usable::<T>(),
    ensures
        T::obeys_num_spec() ==> r@ == barycentric_spec(points_view(*pts), p@),
{
    let a = Vec_ {
        data: [
            pts[2].data[0].minus(pts[0].data[0]),
            pts[1].data[0].minus(pts[0].data[0]),
            pts[0].data[0].minus(p.data[0]),
        ],
    };
    let b = Vec_ {
        data: [
            pts[2].data[1].minus(pts[0].data[1]),
            pts[1].data[1].minus(pts[0].data[1]),
            pts[0].data[1].minus(p.data[1]),
        ],
    };
    proof {
        if T::obeys_num_spec() {
            lemma_total_vectors(a@, b@, 3);
        }
    }
    let u = cross(&a, &b);
    assert(T::obeys_num_spec() ==> u@ == offsets_cross_spec(points_view(*pts), p@)) by {
        if T::obeys_num_spec() {
            let s = points_view(*pts);
            assert(a@ =~= seq![
                s[2][0].minus_spec(s[0][0]),
                s[1][0].minus_spec(s[0][0]),
                s[0][0].minus_spec(p@[0]),
            ]);
            assert(b@ =~= seq![
                s[2][1].minus_spec(s[0][1]),
                s[1][1].minus_spec(s[0][1]),
                s[0][1].minus_spec(p@[1]),
            ]);
        }
    }
    let area = u.data[2];
    let small = if area.less(T::zero()) {
        opposite(area).less(T::one())
    } else {
        area.less(T::one())
    };
    let r = if small {
        Vec_ { data: [T::from_i32(-1), T::from_i32(1), T::from_i32(1)] }
    } else {
        Vec_ {
            data: [
                T::one().minus(u.data[0].plus(u.data[1]).over(area)),
                u.data[1].over(area),
                u.data[0].over(area),
            ],
        }
    };
    assert(T::obeys_num_spec() ==> r@ =~= barycentric_spec(points_view(*pts), p@));
    r
}

/// The lower end of the bounding box along one axis of a frame of `size` pixels:
/// the least of the three coordinates and of the last pixel's, and not below zero;
/// each comparison keeps the bound within the frame.
pub open spec fn box_low_spec<T: NumLike>(a: T, b: T, c: T, size: int) -> T {
    let zero = T::zero_spec();
    let last = T::from_i32_spec(size as i32).minus_spec(T::one_spec());
    let l0 = raise_spec(zero, lower_spec(last, a));
    let l1 = raise_spec(zero, lower_spec(l0, b));
    raise_spec(zero, lower_spec(l1, c))
}

/// The upper end of the bounding box along one axis of a frame of `size` pixels:
/// the greatest of the three coordinates and of zero, and not above the last
/// pixel's.
pub open spec fn box_high_spec<T: NumLike>(a: T, b: T, c: T, size: int) -> T {
    let zero = T::zero_spec();
    let last = T::from_i32_spec(size as i32).minus_spec(T::one_spec());
    let h0 = lower_spec(last, raise_spec(zero, a));
    let h1 = lower_spec(last, raise_spec(h0, b));
    lower_spec(last, raise_spec(h1, c))
}

/// The smaller of `a` and `b`; `b` where neither is below the other.
pub open spec fn lower_spec<T: NumLike>(a: T, b: T) -> T {
    if a.less_spec(b) {
        a
    } else {
        b
    }
}

/// The larger of `a` and `b`; `b` where neither is below the other.
pub open spec fn raise_spec<T: NumLike>(a: T, b: T) -> T {
    if b.less_spec(a) {
        a
    } else {
        b
    }
}

/// Whether the pixel `(x, y)` lies in the bounding box of the triangle `pts`, within
/// a frame of the given size.
pub open spec fn in_box_spec<T: NumLike>(pts: Seq<Seq<T>>, width: int, height: int, x: int, y: int) -> bool {
    &&& box_low_spec(pts[0][0], pts[1][0], pts[2][0], width).to_i32_spec() <= x
        <= box_high_spec(pts[0][0], pts[1][0], pts[2][0], width).to_i32_spec()
    &&& box_low_spec(pts[0][1], pts[1][1], pts[2][1], height).to_i32_spec() <= y
        <= box_high_spec(pts[0][1], pts[1][1], pts[2][1], height).to_i32_spec()
}

/// The pixel `(x, y)` as a point on the screen, with depth zero.
pub open spec fn pixel_spec<T: NumLike>(x: int, y: int) -> Seq<T> {
    seq![T::from_i32_spec(x as i32), T::from_i32_spec(y as i32), T::zero_spec()]
}

/// The depth of the triangle `pts` at the pixel `(x, y)`: the depths of the corners,
/// weighted.
pub open spec fn depth_spec<T: NumLike>(pts: Seq<Seq<T>>, x: int, y: int) -> T {
    let bc = barycentric_spec(pts, pixel_spec::<T>(x, y));
    pts[0][2].times_spec(bc[0]).plus_spec(pts[1][2].times_spec(bc[1])).plus_spec(
        pts[2][2].times_spec(bc[2]),
    )
}

/// Whether the pixel `(x, y)` is not outside the triangle `pts` and the depth
/// `stored` is below the depth of the triangle there.
pub open spec fn pixel_passes<T: NumLike>(pts: Seq<Seq<T>>, x: int, y: int, stored: T) -> bool {
    !is_outside_spec(barycentric_spec(pts, pixel_spec::<T>(x, y))) && stored.less_spec(
        depth_spec(pts, x, y),
    )
}

/// Whether the triangle `pts` is drawn at the pixel `(x, y)`, where the depth
/// `stored` is in the buffer: the pixel lies in the bounding box and not outside the
/// triangle, and the stored depth is below the depth of the triangle there. On equal
/// depths what was drawn first stays.
pub open spec fn draws_at<T: NumLike>(
    pts: Seq<Seq<T>>,
    width: int,
    height: int,
    x: int,
    y: int,
    stored: T,
) -> bool {
    in_box_spec(pts, width, height, x, y) && pixel_passes(pts, x, y, stored)
}

/// The lower end of the bounding box along one axis.
fn box_low<T: NumLike>(a: T, b: T, c: T, size: u32) -> (r: i32)
    requires
        size <= i32::MAX,
        usable::<T>(),
    ensures
        T::obeys_num_spec() ==> r == box_low_spec(a, b, c, size as int).to_i32_spec(),
{
    let zero = T::zero();
    let last = T::from_i32(size as i32).minus(T::one());
    let l0 = maxf(zero, minf(last, a));
    let l1 = maxf(zero, minf(l0, b));
    maxf(zero, minf(l1, c)).to_i32()
}

/// The upper end of the bounding box along one axis.
fn box_high<T: NumLike>(a: T, b: T, c: T, size: u32) -> (r: i32)
    requires
        size <= i32::MAX,
        usable::<T>(),
    ensures
        T::obeys_num_spec() ==> r == box_high_spec(a, b, c, size as int).to_i32_spec(),
{
    let zero = T::zero();
    let last = T::from_i32(size as i32).minus(T::one());
    let h0 = minf(last, maxf(zero, a));
    let h1 = minf(last, maxf(h0, b));
    minf(last, maxf(h1, c)).to_i32()
}

/// Fills the triangle `pts` with `color`, against the depth buffer: each pixel of
/// its bounding box that is not outside the triangle and holds a depth below that
/// of the triangle gets the color, and the buffer the depth. The canvas and the
/// depth buffer must have the same size, and no side above what 32-bit coordinates
/// reach.
pub fn triangle<T: NumLike>(
    pts: [Vec3<T>; 3],
    zbuf: &mut DepthBuffer<T>,
    img: &mut Canvas,
    color: Color,
) -> (r: Result<(), RenderError>)
    requires
        old(zbuf).wf(),
        usable::<T>(),
    ensures
        final(zbuf).wf(),
        final(img).spec_width() == old(img).spec_width(),
        final(img).spec_height() == old(img).spec_height(),
        final(zbuf).spec_width() == old(zbuf).spec_width(),
        final(zbuf).spec_height() == old(zbuf).spec_height(),
        r matches Err(e) ==> e == RenderError::DimensionMismatch && final(img).pixels() == old(
            img,
        ).pixels() && final(zbuf).same_depths(old(zbuf)),
        r is Ok <==> old(img).spec_width() == old(zbuf).spec_width() && old(img).spec_height()
            == old(zbuf).spec_height() && old(img).spec_width() <= i32::MAX && old(
            img,
        ).spec_height() <= i32::MAX,
        T::obeys_num_spec() && r is Ok ==> forall|x: int, y: int|
            old(img).contains(x, y) ==> (#[trigger] final(zbuf).depth_at(x, y)) == (if draws_at(
                points_view(pts),
                old(img).spec_width(),
                old(img).spec_height(),
                x,
                y,
                old(zbuf).depth_at(x, y),
            ) {
                depth_spec(points_view(pts), x, y)
            } else {
                old(zbuf).depth_at(x, y)
            }),
        T::obeys_num_spec() && r is Ok ==> forall|x: int, y: int|
            old(img).contains(x, y) ==> (#[trigger] final(img).color_at(x, y)) == (if draws_at(
                points_view(pts),
                old(img).spec_width(),
                old(img).spec_height(),
                x,
                y,
                old(zbuf).depth_at(x, y),
            ) {
                color
            } else {
                old(img).color_at(x, y)
            }),
{
    let width = img.width();
    let height = img.height();
    if width != zbuf.width() || height != zbuf.height() || width > i32::MAX as u32 || height
        > i32::MAX as u32 {
        return Err(RenderError::DimensionMismatch);
    }
    let ghost s = points_view(pts);
    let x_lo = box_low(pts[0].data[0], pts[1].data[0], pts[2].data[0], width);
    let x_hi = box_high(pts[0].data[0], pts[1].data[0], pts[2].data[0], width);
    let y_lo = box_low(pts[0].data[1], pts[1].data[1], pts[2].data[1], height);
    let y_hi = box_high(pts[0].data[1], pts[1].data[1], pts[2].data[1], height);
    let mut x: i64 = x_lo as i64;
    while x <= x_hi as i64
        invariant
            x_lo <= x,
            x <= x_hi + 1 || x == x_lo,
            s == points_view(pts),
            usable::<T>(),
            zbuf.wf(),
            width == old(img).spec_width(),
            height == old(img).spec_height(),
            img.spec_width() == width,
            img.spec_height() == height,
            zbuf.spec_width() == width,
            zbuf.spec_height() == height,
            old(zbuf).spec_width() == width,
            old(zbuf).spec_height() == height,
            T::obeys_num_spec() ==> forall|a: int, b: int|
                old(img).contains(a, b) ==> (#[trigger] zbuf.depth_at(a, b)) == (if a < x
                    && visits(x_lo as int, y_lo as int, y_hi as int, a, b) && pixel_passes(
                    s,
                    a,
                    b,
                    old(zbuf).depth_at(a, b),
                ) {
                    depth_spec(s, a, b)
                } else {
                    old(zbuf).depth_at(a, b)
                }),
            T::obeys_num_spec() ==> forall|a: int, b: int|
                old(img).contains(a, b) ==> (#[trigger] img.color_at(a, b)) == (if a < x && visits(
                    x_lo as int,
                    y_lo as int,
                    y_hi as int,
                    a,
                    b,
                ) && pixel_passes(s, a, b, old(zbuf).depth_at(a, b)) {
                    color
                } else {
                    old(img).color_at(a, b)
                }),
        decreases x_hi + 1 - x,
    {
        let mut y: i64 = y_lo as i64;
        while y <= y_hi as i64
            invariant
                x_lo <= x <= x_hi,
                y_lo <= y,
                y <= y_hi + 1 || y == y_lo,
                s == points_view(pts),
                usable::<T>(),
                zbuf.wf(),
                width == old(img).spec_width(),
                height == old(img).spec_height(),
                img.spec_width() == width,
                img.spec_height() == height,
                zbuf.spec_width() == width,
                zbuf.spec_height() == height,
                old(zbuf).spec_width() == width,
                old(zbuf).spec_height() == height,
                T::obeys_num_spec() ==> forall|a: int, b: int|
                    old(img).contains(a, b) ==> (#[trigger] zbuf.depth_at(a, b)) == (if (a < x || (a
                        == x && b < y)) && visits(x_lo as int, y_lo as int, y_hi as int, a, b)
                        && pixel_passes(s, a, b, old(zbuf).depth_at(a, b)) {
                        depth_spec(s, a, b)
                    } else {
                        old(zbuf).depth_at(a, b)
                    }),
                T::obeys_num_spec() ==> forall|a: int, b: int|
                    old(img).contains(a, b) ==> (#[trigger] img.color_at(a, b)) == (if (a < x || (a
                        == x && b < y)) && visits(x_lo as int, y_lo as int, y_hi as int, a, b)
                        && pixel_passes(s, a, b, old(zbuf).depth_at(a, b)) {
                        color
                    } else {
                        old(img).color_at(a, b)
                    }),
            decreases y_hi + 1 - y,
        {
            let p = Vec_ { data: [T::from_i32(x as i32), T::from_i32(y as i32), T::zero()] };
            assert(T::obeys_num_spec() ==> p@ =~= pixel_spec::<T>(x as int, y as int));
            let bc = barycentric(&pts, p);
            let zero = T::zero();
            let outside = bc.data[0].less(zero) || bc.data[1].less(zero) || bc.data[2].less(zero);
            let z = pts[0].data[2].times(bc.data[0]).plus(pts[1].data[2].times(bc.data[1])).plus(
                pts[2].data[2].times(bc.data[2]),
            );
            assert(T::obeys_num_spec() ==> z == depth_spec(s, x as int, y as int));
            if !outside && x >= 0 && y >= 0 {
                match zbuf.get(x as u32, y as u32) {
                    Ok(stored) => {
                        assert(T::obeys_num_spec() ==> stored == old(zbuf).depth_at(
                            x as int,
                            y as int,
                        ));
                        if stored.less(z) {
                            let _ = zbuf.set(x as u32, y as u32, z);
                            let _ = img.put(x as u32, y as u32, color);
                        }
                    },
                    Err(_) => {},
                }
            }
            y += 1;
        }
        x += 1;
    }
    proof {
        if T::obeys_num_spec() {
            assert forall|a: int, b: int| old(img).contains(a, b) implies draws_at(
                s,
                width as int,
                height as int,
                a,
                b,
                old(zbuf).depth_at(a, b),
            ) == (visits(x_lo as int, y_lo as int, y_hi as int, a, b) && a <= x_hi && pixel_passes(
                s,
                a,
                b,
                old(zbuf).depth_at(a, b),
            )) by {}
        }
    }
    Ok(())
}

/// Whether the loops over the bounding box reach the pixel `(a, b)`, given enough
/// columns: it lies in a column from `x_lo` on and in a row from `y_lo` to `y_hi`.
pub open spec fn visits(x_lo: int, y_lo: int, y_hi: int, a: int, b: int) -> bool {
    x_lo <= a && y_lo <= b <= y_hi
}

/// The place on the screen of the position `v` of the mesh, seen along z, at depth
/// zero.
pub open spec fn on_screen_spec<T: NumLike>(v: Seq<T>) -> Seq<T> {
    seq![to_screen_spec(v[0], WIDTH), to_screen_spec(v[1], HEIGHT), T::zero_spec()]
}

/// The color and the depth of the pixel `(x, y)` once the first `n` faces of the mesh
/// are drawn against the depth buffer, seen along z in the light `light`. A face that
/// the light reaches is drawn in the gray level of its light where it is drawn at
/// all; before any face the pixel is transparent black, at the far depth.
pub open spec fn drawn_pixel_spec<T: NumLike>(model: Model<T>, light: Seq<T>, n: int, x: int, y: int) -> (
    Color,
    T,
)
    decreases n,
{
    if n <= 0 {
        ([0u8, 0u8, 0u8, 0u8], far_spec::<T>())
    } else {
        let before = drawn_pixel_spec(model, light, n - 1, x, y);
        let corners = face_corners_spec(model, (n - 1) as usize);
        let level = face_level_spec(corners, light);
        let pts = Seq::new(3, |k: int| on_screen_spec(corners[k]));
        if level is Some && draws_at(pts, WIDTH as int, HEIGHT as int, x, y, before.1) {
            ([level->0, level->0, level->0, 255u8], depth_spec(pts, x, y))
        } else {
            before
        }
    }
}

/// The place on the screen of the position `v` of the mesh, seen along z, at depth
/// zero.
fn on_screen<T: NumLike>(v: &Vec3<T>) -> (r: Vec3<T>)
    requires
        usable::<T>(),
    ensures
        T::obeys_num_spec() ==> r@ == on_screen_spec(v@),
{
    let r = Vec_ { data: [to_screen(v.data[0], WIDTH), to_screen(v.data[1], HEIGHT), T::zero()] };
    assert(T::obeys_num_spec() ==> r@ =~= on_screen_spec(v@));
    r
}

/// Renders the mesh, seen along z in a light along z, against a depth buffer: each
/// face that the light reaches in the gray level of its light, with the first row of
/// the canvas at the top of the picture.
pub fn z_buf<T: NumLike>(model: &Model<T>) -> (r: Result<Canvas, RenderError>)
    requires
        model.wf(),
        usable::<T>(),
    ensures
        r matches Ok(img) && img.spec_width() == WIDTH && img.spec_height() == HEIGHT,
        T::obeys_num_spec() ==> forall|x: int, y: int|
            r->Ok_0.contains(x, y) ==> (#[trigger] r->Ok_0.color_at(x, y)) == drawn_pixel_spec(
                *model,
                vec3_spec::<T>(0, 0, -1i32),
                model.faces@.len() as int,
                x,
                HEIGHT - 1 - y,
            ).0,
{
    let (_, mut zbuf) = blank_frame::<T>();
    let mut img = match Canvas::new(WIDTH, HEIGHT) {
        Some(img) => img,
        None => vstd::pervasive::unreached(),
    };
    let light = vec3::<T>(0, 0, -1);
    let nfaces = model.nfaces();
    let mut i: usize = 0;
    while i < nfaces
        invariant
            i <= nfaces,
            nfaces == model.faces@.len(),
            model.wf(),
            zbuf.wf(),
            usable::<T>(),
            T::obeys_num_spec() ==> light@ == vec3_spec::<T>(0, 0, -1i32),
            img.spec_width() == WIDTH && img.spec_height() == HEIGHT,
            zbuf.spec_width() == WIDTH && zbuf.spec_height() == HEIGHT,
            T::obeys_num_spec() ==> forall|x: int, y: int|
                img.contains(x, y) ==> (#[trigger] img.color_at(x, y)) == drawn_pixel_spec(
                    *model,
                    light@,
                    i as int,
                    x,
                    y,
                ).0,
            T::obeys_num_spec() ==> forall|x: int, y: int|
                img.contains(x, y) ==> (#[trigger] zbuf.depth_at(x, y)) == drawn_pixel_spec(
                    *model,
                    light@,
                    i as int,
                    x,
                    y,
                ).1,
        decreases nfaces - i,
    {
        let world = match model.corners(i) {
            Ok(world) => world,
            Err(_) => vstd::pervasive::unreached(),
        };
        assert(points_view(world) =~~= face_corners_spec(*model, i));
        match face_level(&world, &light) {
            Some(level) => {
                let screen = [on_screen(&world[0]), on_screen(&world[1]), on_screen(&world[2])];
                assert(T::obeys_num_spec() ==> points_view(screen) =~~= Seq::new(
                    3,
                    |k: int| on_screen_spec(face_corners_spec(*model, i)[k]),
                ));
                let _ = triangle(screen, &mut zbuf, &mut img, [level, level, level, 255]);
            },
            None => {},
        }
        i += 1;
    }
    let ghost drawn = img;
    img.flip_vertical();
    proof {
        if T::obeys_num_spec() {
            assert forall|x: int, y: int| img.contains(x, y) implies (#[trigger] img.color_at(x, y))
                == drawn_pixel_spec(
                *model,
                vec3_spec::<T>(0, 0, -1i32),
                model.faces@.len() as int,
                x,
                HEIGHT - 1 - y,
            ).0 by {
                assert(drawn.contains(x, HEIGHT - 1 - y));
                assert(img.color_at(x, y) == drawn.color_at(x, HEIGHT - 1 - y));
            }
        }
    }
    Ok(img)
}

} // verus!
