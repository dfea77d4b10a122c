//! The frame buffer: an RGBA image of the `image` crate, seen as a map from pixel
//! coordinates to colors.
use crate::error::RenderError;
use crate::util::NumLike;
use image::RgbaImage;
use vstd::prelude::*;

verus! {

/// The color of one pixel: red, green, blue and alpha.
pub type Color = [u8; 4];

/// An image of RGBA pixels, eight bits to the channel. It holds an `image::RgbaImage`,
/// of which the verifier sees the width, the height and the colors.
#[verifier::external_body]
pub struct Canvas {
    image: RgbaImage,
}

/// The number of pixel columns of a canvas.
pub uninterp spec fn width_of(canvas: Canvas) -> int;

/// The number of pixel rows of a canvas.
pub uninterp spec fn height_of(canvas: Canvas) -> int;

/// The colors a canvas holds, by column `x` and row `y`.
pub uninterp spec fn pixels_of(canvas: Canvas) -> Map<(int, int), Color>;

/// The color a canvas holds in column `x` of row `y`.
pub open spec fn color_of(canvas: Canvas, x: int, y: int) -> Color {
    pixels_of(canvas)[(x, y)]
}

/// Whether `(x, y)` names a pixel of an image of the given size.
pub open spec fn in_bounds(width: int, height: int, x: int, y: int) -> bool {
    0 <= x < width && 0 <= y < height
}

/// `ImageBuffer::from_pixel`: an image of the given size whose pixels all have the color
/// `c`. The call panics where the four bytes per pixel do not fit a vector, so those
/// sizes are excluded.
#[verifier::external_body]
fn image_from_pixel(width: u32, height: u32, c: Color) -> (canvas: Canvas)
    requires
        4 * width * height <= isize::MAX,
    ensures
        width_of(canvas) == width,
        height_of(canvas) == height,
        forall|x: int, y: int|
            in_bounds(width as int, height as int, x, y) ==> #[trigger] color_of(canvas, x, y)
                == c,
{
    Canvas { image: RgbaImage::from_pixel(width, height, image::Rgba(c)) }
}

/// `ImageBuffer::width`: the width the image was made with.
#[verifier::external_body]
fn image_width(canvas: &Canvas) -> (w: u32)
    ensures
        w == width_of(*canvas),
{
    canvas.image.width()
}

/// `ImageBuffer::height`: the height the image was made with.
#[verifier::external_body]
fn image_height(canvas: &Canvas) -> (h: u32)
    ensures
        h == height_of(*canvas),
{
    canvas.image.height()
}

/// `ImageBuffer::get_pixel`: the four channels stored for the pixel in column `x` of
/// row `y`. The call panics outside the image, so those coordinates are excluded.
#[verifier::external_body]
fn image_get_pixel(canvas: &Canvas, x: u32, y: u32) -> (c: Color)
    requires
        in_bounds(width_of(*canvas), height_of(*canvas), x as int, y as int),
    ensures
        c == color_of(*canvas, x as int, y as int),
{
    canvas.image.get_pixel(x, y).0
}

/// `ImageBuffer::put_pixel`: stores the four channels for the pixel in column `x` of
/// row `y` and leaves every other pixel and the size of the image as they were. The
/// call panics outside the image, so those coordinates are excluded.
#[verifier::external_body]
fn image_put_pixel(canvas: &mut Canvas, x: u32, y: u32, c: Color)
    requires
        in_bounds(width_of(*old(canvas)), height_of(*old(canvas)), x as int, y as int),
    ensures
        width_of(*final(canvas)) == width_of(*old(canvas)),
        height_of(*final(canvas)) == height_of(*old(canvas)),
        pixels_of(*final(canvas)) == pixels_of(*old(canvas)).insert((x as int, y as int), c),
{
    canvas.image.put_pixel(x, y, image::Rgba(c));
}

/// Whether `after` is `before` mirrored left to right.
pub open spec fn is_flipped_horizontal(before: Canvas, after: Canvas) -> bool {
    &&& after.spec_width() == before.spec_width()
    &&& after.spec_height() == before.spec_height()
    &&& forall|x: int, y: int|
        before.contains(x, y) ==> (#[trigger] after.color_at(x, y)) == before.color_at(
            before.spec_width() - 1 - x,
            y,
        )
}

/// Whether `after` is `before` mirrored top to bottom.
pub open spec fn is_flipped_vertical(before: Canvas, after: Canvas) -> bool {
    &&& after.spec_width() == before.spec_width()
    &&& after.spec_height() == before.spec_height()
    &&& forall|x: int, y: int|
        before.contains(x, y) ==> (#[trigger] after.color_at(x, y)) == before.color_at(
            x,
            before.spec_height() - 1 - y,
        )
}

impl Canvas {
    /// The number of pixel columns.
    pub open spec fn spec_width(&self) -> int {
        width_of(*self)
    }

    /// The number of pixel rows.
    pub open spec fn spec_height(&self) -> int {
        height_of(*self)
    }

    /// The color of each pixel, by column and row.
    pub open spec fn pixels(&self) -> Map<(int, int), Color> {
        pixels_of(*self)
    }

    /// The color of the pixel in column `x` of row `y`.
    pub open spec fn color_at(&self, x: int, y: int) -> Color {
        color_of(*self, x, y)
    }

    /// Whether `(x, y)` names a pixel of this canvas.
    pub open spec fn contains(&self, x: int, y: int) -> bool {
        in_bounds(self.spec_width(), self.spec_height(), x, y)
    }

    /// A canvas of the given size whose pixels all have the color `c`, where the
    /// bytes of such an image can be held in memory.
    pub fn from_pixel(width: u32, height: u32, c: Color) -> (r: Option<Canvas>)
        ensures
            r is Some <==> 4 * width * height <= isize::MAX,
            r matches Some(canvas) ==> canvas.spec_width() == width && canvas.spec_height()
                == height && forall|x: int, y: int|
                canvas.contains(x, y) ==> #[trigger] canvas.color_at(x, y) == c,
    {
        assert(0 <= 4 * width * height <= 4 * 0xFFFF_FFFF * 0xFFFF_FFFF) by (nonlinear_arith)
            requires
                0 <= width <= 0xFFFF_FFFF,
                0 <= height <= 0xFFFF_FFFF,
        ;
        let bytes: u128 = 4u128 * (width as u128) * (height as u128);
        if bytes <= isize::MAX as u128 {
            Some(image_from_pixel(width, height, c))
        } else {
            None
        }
    }

    /// A canvas of the given size whose pixels are all transparent black, where the
    /// bytes of such an image can be held in memory.
    pub fn new(width: u32, height: u32) -> (r: Option<Canvas>)
        ensures
            r is Some <==> 4 * width * height <= isize::MAX,
            r matches Some(canvas) ==> canvas.spec_width() == width && canvas.spec_height()
                == height && forall|x: int, y: int|
                canvas.contains(x, y) ==> #[trigger] canvas.color_at(x, y) == [0u8, 0u8, 0u8, 0u8],
    {
        Self::from_pixel(width, height, [0, 0, 0, 0])
    }

    /// The number of pixel columns.
    pub fn width(&self) -> (w: u32)
        ensures
            w == self.spec_width(),
    {
        image_width(self)
    }

    /// The number of pixel rows.
    pub fn height(&self) -> (h: u32)
        ensures
            h == self.spec_height(),
    {
        image_height(self)
    }

    /// The color of the pixel in column `x` of row `y`, if there is such a pixel.
    pub fn get(&self, x: u32, y: u32) -> (r: Result<Color, RenderError>)
        ensures
            self.contains(x as int, y as int) ==> r == Ok::<Color, RenderError>(
                self.color_at(x as int, y as int),
            ),
            !self.contains(x as int, y as int) ==> r == Err::<Color, RenderError>(
                RenderError::SampleOutOfRange,
            ),
    {
        if x < image_width(self) && y < image_height(self) {
            Ok(image_get_pixel(self, x, y))
        } else {
            Err(RenderError::SampleOutOfRange)
        }
    }

    /// Gives the pixel in column `x` of row `y` the color `c`, if there is such a
    /// pixel. Nothing else changes.
    pub fn put(&mut self, x: u32, y: u32, c: Color) -> (r: Result<(), RenderError>)
        ensures
            final(self).spec_width() == old(self).spec_width(),
            final(self).spec_height() == old(self).spec_height(),
            old(self).contains(x as int, y as int) ==> r is Ok && final(self).pixels() == old(self).pixels().insert((x as int, y as int), c),
            !old(self).contains(x as int, y as int) ==> r == Err::<(), RenderError>(
                RenderError::SampleOutOfRange,
            ) && final(self).pixels() == old(self).pixels(),
            forall|a: int, b: int|
                (#[trigger] final(self).color_at(a, b)) == (if r is Ok && a == x && b == y {
                    c
                } else {
                    old(self).color_at(a, b)
                }),
    {
        if x < image_width(self) && y < image_height(self) {
            image_put_pixel(self, x, y, c);
            Ok(())
        } else {
            Err(RenderError::SampleOutOfRange)
        }
    }

    /// Exchanges the colors of two pixels of the canvas, if there are such pixels.
    /// Nothing else changes.
    pub fn swap(&mut self, x0: u32, y0: u32, x1: u32, y1: u32) -> (r: Result<(), RenderError>)
        ensures
            final(self).spec_width() == old(self).spec_width(),
            final(self).spec_height() == old(self).spec_height(),
            r is Ok <==> old(self).contains(x0 as int, y0 as int) && old(self).contains(
                x1 as int,
                y1 as int,
            ),
            r matches Err(e) ==> e == RenderError::SampleOutOfRange && final(self).pixels() == old(self).pixels(),
            r is Ok ==> final(self).pixels() == old(self).pixels().insert(
                (x0 as int, y0 as int),
                old(self).color_at(x1 as int, y1 as int),
            ).insert((x1 as int, y1 as int), old(self).color_at(x0 as int, y0 as int)),
            forall|a: int, b: int|
                (#[trigger] final(self).color_at(a, b)) == (if r is Ok && a == x1 && b == y1 {
                    old(self).color_at(x0 as int, y0 as int)
                } else if r is Ok && a == x0 && b == y0 {
                    old(self).color_at(x1 as int, y1 as int)
                } else {
                    old(self).color_at(a, b)
                }),
    {
        let width = image_width(self);
        let height = image_height(self);
        if x0 >= width || y0 >= height || x1 >= width || y1 >= height {
            return Err(RenderError::SampleOutOfRange);
        }
        let first = image_get_pixel(self, x0, y0);
        let second = image_get_pixel(self, x1, y1);
        image_put_pixel(self, x0, y0, second);
        image_put_pixel(self, x1, y1, first);
        Ok(())
    }
}

/// The depth buffer: one scalar for each pixel of a frame of a given size.
pub struct DepthBuffer<T: NumLike> {
    width: u32,
    height: u32,
    data: Vec<T>,
}

/// Two different pixels of a frame have different places in its row-major storage, and
/// each place lies within the storage.
proof fn lemma_row_major(width: int, height: int, x: int, y: int, a: int, b: int)
    requires
        in_bounds(width, height, x, y),
        in_bounds(width, height, a, b),
    ensures
        0 <= y * width + x < width * height,
        (x != a || y != b) ==> y * width + x != b * width + a,
{
    assert(y * width + x < width * height) by (nonlinear_arith)
        requires
            0 <= x < width,
            0 <= y < height,
    {
        assert((y + 1) * width <= height * width);
        assert((y + 1) * width == y * width + width);
    }
    assert(0 <= y * width) by (nonlinear_arith)
        requires
            0 <= y,
            0 <= width,
    ;
    assert((y + 1) * width == y * width + width) by (nonlinear_arith);
    assert((b + 1) * width == b * width + width) by (nonlinear_arith);
    if y < b {
        assert((y + 1) * width <= b * width) by (nonlinear_arith)
            requires
                y + 1 <= b,
                0 <= width,
        ;
    }
    if b < y {
        assert((b + 1) * width <= y * width) by (nonlinear_arith)
            requires
                b + 1 <= y,
                0 <= width,
        ;
    }
}

impl<T: NumLike> DepthBuffer<T> {
    /// Whether the storage holds one depth for each pixel.
    pub closed spec fn wf(&self) -> bool {
        self.data@.len() == self.width * self.height
    }

    /// The number of pixel columns.
    pub closed spec fn spec_width(&self) -> int {
        self.width as int
    }

    /// The number of pixel rows.
    pub closed spec fn spec_height(&self) -> int {
        self.height as int
    }

    /// The depth stored for the pixel in column `x` of row `y`.
    pub closed spec fn depth_at(&self, x: int, y: int) -> T {
        self.data@[y * self.width + x]
    }

    /// Whether `(x, y)` names a pixel of this buffer.
    pub open spec fn contains(&self, x: int, y: int) -> bool {
        in_bounds(self.spec_width(), self.spec_height(), x, y)
    }

    /// The depths that the buffer holds, by column and row.
    pub open spec fn depths(&self) -> Map<(int, int), T> {
        Map::new(
            |k: (int, int)| self.contains(k.0, k.1),
            |k: (int, int)| self.depth_at(k.0, k.1),
        )
    }

    /// Whether `other` has the same size and the same depths.
    pub open spec fn same_depths(&self, other: &Self) -> bool {
        &&& self.spec_width() == other.spec_width()
        &&& self.spec_height() == other.spec_height()
        &&& forall|x: int, y: int|
            self.contains(x, y) ==> #[trigger] self.depth_at(x, y) == other.depth_at(x, y)
    }

    /// A buffer of the given size that holds the depth `far` for every pixel, where
    /// the number of pixels can be counted.
    pub fn new(width: u32, height: u32, far: T) -> (r: Option<Self>)
        ensures
            r is Some <==> width * height <= usize::MAX,
            r matches Some(buf) ==> buf.wf() && buf.spec_width() == width && buf.spec_height()
                == height && forall|x: int, y: int|
                buf.contains(x, y) ==> #[trigger] buf.depth_at(x, y) == far,
    {
        assert(0 <= width * height <= 0xFFFF_FFFF * 0xFFFF_FFFF) by (nonlinear_arith)
            requires
                0 <= width <= 0xFFFF_FFFF,
                0 <= height <= 0xFFFF_FFFF,
        ;
        let size: u64 = (width as u64) * (height as u64);
        if size > usize::MAX as u64 {
            return None;
        }
        let mut data: Vec<T> = Vec::new();
        let mut i: u64 = 0;
        while i < size
            invariant
                i <= size,
                data@.len() == i,
                forall|k: int| 0 <= k < i ==> data@[k] == far,
            decreases size - i,
        {
            data.push(far);
            i += 1;
        }
        let buf = DepthBuffer { width, height, data };
        assert forall|x: int, y: int| buf.contains(x, y) implies #[trigger] buf.depth_at(x, y)
            == far by {
            lemma_row_major(width as int, height as int, x, y, x, y);
        }
        Some(buf)
    }

    /// The number of pixel columns.
    pub fn width(&self) -> (w: u32)
        ensures
            w == self.spec_width(),
    {
        self.width
    }

    /// The number of pixel rows.
    pub fn height(&self) -> (h: u32)
        ensures
            h == self.spec_height(),
    {
        self.height
    }

    /// The depth stored for the pixel in column `x` of row `y`, if there is such a
    /// pixel.
    pub fn get(&self, x: u32, y: u32) -> (r: Result<T, RenderError>)
        requires
            self.wf(),
        ensures
            self.contains(x as int, y as int) ==> r == Ok::<T, RenderError>(
                self.depth_at(x as int, y as int),
            ),
            !self.contains(x as int, y as int) ==> r == Err::<T, RenderError>(
                RenderError::SampleOutOfRange,
            ),
    {
        if x < self.width && y < self.height {
            proof {
                lemma_row_major(
                    self.width as int,
                    self.height as int,
                    x as int,
                    y as int,
                    x as int,
                    y as int,
                );
                assert(0 <= y * self.width <= y * self.width + x) by (nonlinear_arith)
                    requires
                        0 <= y,
                        0 <= self.width,
                        0 <= x,
                ;
            }
            let size = self.data.len();
            assert(y * self.width + x < size);
            let row: usize = y as usize * self.width as usize;
            Ok(self.data[row + x as usize])
        } else {
            Err(RenderError::SampleOutOfRange)
        }
    }

    /// Stores the depth `depth` for the pixel in column `x` of row `y`, if there is
    /// such a pixel. Nothing else changes.
    pub fn set(&mut self, x: u32, y: u32, depth: T) -> (r: Result<(), RenderError>)
        requires
            old(self).wf(),
        ensures
            final(self).wf(),
            final(self).spec_width() == old(self).spec_width(),
            final(self).spec_height() == old(self).spec_height(),
            r is Ok <==> old(self).contains(x as int, y as int),
            r matches Err(e) ==> e == RenderError::SampleOutOfRange,
            forall|a: int, b: int|
                old(self).contains(a, b) ==> #[trigger] final(self).depth_at(a, b) == (if r is Ok
                    && a == x && b == y {
                    depth
                } else {
                    old(self).depth_at(a, b)
                }),
    {
        if x < self.width && y < self.height {
            proof {
                lemma_row_major(
                    self.width as int,
                    self.height as int,
                    x as int,
                    y as int,
                    x as int,
                    y as int,
                );
                assert(0 <= y * self.width <= y * self.width + x) by (nonlinear_arith)
                    requires
                        0 <= y,
                        0 <= self.width,
                        0 <= x,
                ;
            }
            let size = self.data.len();
            assert(y * self.width + x < size);
            let row: usize = y as usize * self.width as usize;
            self.data[row + x as usize] = depth;
            assert forall|a: int, b: int| old(self).contains(a, b) implies #[trigger] self.depth_at(
                a,
                b,
            ) == (if a == x && b == y {
                depth
            } else {
                old(self).depth_at(a, b)
            }) by {
                lemma_row_major(self.width as int, self.height as int, a, b, x as int, y as int);
            }
            Ok(())
        } else {
            Err(RenderError::SampleOutOfRange)
        }
    }
}

/// What a canvas and a depth buffer of one size hold, as one value: the color and the
/// depth of each pixel.
pub struct Frame<T> {
    pub colors: Map<(int, int), Color>,
    pub depths: Map<(int, int), T>,
}

/// What `img` and `zbuf` hold.
pub open spec fn snapshot<T: NumLike>(img: Canvas, zbuf: DepthBuffer<T>) -> Frame<T> {
    Frame {
        colors: Map::new(|k: (int, int)| img.contains(k.0, k.1), |k: (int, int)| img.color_at(k.0, k.1)),
        depths: Map::new(
            |k: (int, int)| zbuf.contains(k.0, k.1),
            |k: (int, int)| zbuf.depth_at(k.0, k.1),
        ),
    }
}

/// Whether `img` and `zbuf` hold, for each of their pixels, the color and the depth
/// that `frame` gives.
pub open spec fn agrees<T: NumLike>(img: Canvas, zbuf: DepthBuffer<T>, frame: Frame<T>) -> bool {
    forall|x: int, y: int|
        img.contains(x, y) ==> #[trigger] img.color_at(x, y) == frame.colors[(x, y)]
            && zbuf.depth_at(x, y) == frame.depths[(x, y)]
}

/// A canvas and a depth buffer of one size agree with their own snapshot.
pub proof fn lemma_agrees_with_snapshot<T: NumLike>(img: Canvas, zbuf: DepthBuffer<T>)
    requires
        img.spec_width() == zbuf.spec_width(),
        img.spec_height() == zbuf.spec_height(),
    ensures
        agrees(img, zbuf, snapshot(img, zbuf)),
{
    assert forall|x: int, y: int| img.contains(x, y) implies #[trigger] img.color_at(x, y)
        == snapshot(img, zbuf).colors[(x, y)] && zbuf.depth_at(x, y) == snapshot(
        img,
        zbuf,
    ).depths[(x, y)] by {
        assert(zbuf.contains(x, y));
    }
}

} // verus!
