use tinyrender::error::RenderError;
use tinyrender::framebuffer::Canvas;
use tinyrender::util::{isqrt, maxf, minf, quotient, splitext, NumLike, RgbaImageExt};

#[test]
fn test_splitext() {
    let filename = "example.png";
    let (name, ext) = splitext(filename);
    assert_eq!(name, "example");
    assert_eq!(ext, ".png");

    let filename = "example.tar.gz";
    let (name, ext) = splitext(filename);
    assert_eq!(name, "example.tar");
    assert_eq!(ext, ".gz");

    let filename = "example";
    let (name, ext) = splitext(filename);
    assert_eq!(name, "example");
    assert_eq!(ext, "");

    let filename = ".hidden";
    let (name, ext) = splitext(filename);
    assert_eq!(name, "");
    assert_eq!(ext, ".hidden");

    let filename = "example.PNG";
    let (name, ext) = splitext(filename);
    assert_eq!(name, "example");
    assert_eq!(ext, ".png");
}

#[test]
fn splitext_counts_characters_not_bytes() {
    let (name, ext) = splitext("größe.JPÉG");
    assert_eq!(name, "größe");
    assert_eq!(ext, ".jpég");
    let (name, ext) = splitext("");
    assert_eq!(name, "");
    assert_eq!(ext, "");
    let (name, ext) = splitext("trailing.");
    assert_eq!(name, "trailing");
    assert_eq!(ext, ".");
    let (name, ext) = splitext("Obj/African_Head.OBJ");
    assert_eq!(name, "Obj/African_Head");
    assert_eq!(ext, ".obj");
}

#[test]
fn integer_square_roots() {
    assert_eq!(isqrt(0), 0);
    assert_eq!(isqrt(1), 1);
    assert_eq!(isqrt(8), 2);
    assert_eq!(isqrt(9), 3);
    assert_eq!(isqrt(99), 9);
    assert_eq!(isqrt(i64::MAX), 3037000499);
    assert_eq!(NumLike::sqrt(i32::MAX), 46340);
    assert_eq!(NumLike::sqrt(144i64), 12);
}

#[test]
fn integer_division_rounds_toward_zero() {
    assert_eq!(quotient(7, 2), 3);
    assert_eq!(quotient(-7, 2), -3);
    assert_eq!(quotient(7, -2), -3);
    assert_eq!(quotient(-7, -2), 3);
    assert_eq!(quotient(0, -5), 0);
    assert_eq!(quotient(i64::MIN, 1), i64::MIN);
    assert_eq!(quotient(i64::MIN, 2), i64::MIN / 2);
    assert_eq!(quotient(i64::MAX, -1), -i64::MAX);
    assert_eq!(NumLike::over(-9i32, 4), -2);
    assert_eq!(NumLike::over(i32::MIN, 1), i32::MIN);
}

#[test]
fn integer_scalars() {
    assert_eq!(<i32 as NumLike>::zero(), 0);
    assert_eq!(<i64 as NumLike>::one(), 1);
    assert_eq!(<i64 as NumLike>::from_i32(-5), -5i64);
    assert_eq!(NumLike::to_i32(77i64), 77);
    assert_eq!(NumLike::plus(2i32, 3), 5);
    assert_eq!(NumLike::minus(2i64, 3), -1);
    assert_eq!(NumLike::times(-4i32, 3), -12);
    assert!(NumLike::equals(3i32, 3));
    assert!(!NumLike::equals(3i64, 4));
    assert!(NumLike::less(3i32, 4));
    assert!(!NumLike::less(4i64, 4));
}

#[test]
fn larger_and_smaller() {
    assert_eq!(maxf(3, 9), 9);
    assert_eq!(maxf(9, 3), 9);
    assert_eq!(minf(3i64, 9), 3);
    assert_eq!(minf(9i64, 3), 3);
    assert_eq!(maxf(-1, -1), -1);
}

fn numbered(width: u32, height: u32) -> Canvas {
    let mut canvas = Canvas::new(width, height).unwrap();
    for y in 0..height {
        for x in 0..width {
            canvas.put(x, y, [x as u8, y as u8, 7, 255]).unwrap();
        }
    }
    canvas
}

#[test]
fn flip_vertical_mirrors_rows_of_an_odd_height() {
    let mut canvas = numbered(4, 5);
    canvas.flip_vertical();
    assert_eq!(canvas.width(), 4);
    assert_eq!(canvas.height(), 5);
    for y in 0..5u32 {
        for x in 0..4u32 {
            assert_eq!(canvas.get(x, y), Ok([x as u8, (4 - y) as u8, 7, 255]));
        }
    }
}

#[test]
fn flip_horizontal_mirrors_columns_of_an_odd_width() {
    let mut canvas = numbered(5, 2);
    canvas.flip_horizontal();
    for y in 0..2u32 {
        for x in 0..5u32 {
            assert_eq!(canvas.get(x, y), Ok([(4 - x) as u8, y as u8, 7, 255]));
        }
    }
    canvas.flip_horizontal();
    for y in 0..2u32 {
        for x in 0..5u32 {
            assert_eq!(canvas.get(x, y), Ok([x as u8, y as u8, 7, 255]));
        }
    }
}

#[test]
fn canvas_reads_and_writes_inside_only() {
    let mut canvas = Canvas::from_pixel(3, 2, [1, 2, 3, 4]).unwrap();
    assert_eq!(canvas.get(2, 1), Ok([1, 2, 3, 4]));
    assert_eq!(canvas.get(3, 1), Err(RenderError::SampleOutOfRange));
    assert_eq!(canvas.get(0, 2), Err(RenderError::SampleOutOfRange));
    assert_eq!(canvas.put(3, 0, [9, 9, 9, 9]), Err(RenderError::SampleOutOfRange));
    assert_eq!(canvas.put(1, 1, [9, 8, 7, 6]), Ok(()));
    assert_eq!(canvas.get(1, 1), Ok([9, 8, 7, 6]));
    assert_eq!(canvas.get(0, 1), Ok([1, 2, 3, 4]));
    assert_eq!(canvas.swap(1, 1, 0, 0), Ok(()));
    assert_eq!(canvas.swap(1, 1, 3, 0), Err(RenderError::SampleOutOfRange));
    assert_eq!(canvas.get(0, 0), Ok([9, 8, 7, 6]));
    assert_eq!(canvas.get(1, 1), Ok([1, 2, 3, 4]));
    let blank = Canvas::new(2, 2).unwrap();
    assert_eq!(blank.get(1, 1), Ok([0, 0, 0, 0]));
    assert!(Canvas::new(u32::MAX, u32::MAX).is_none());
    let empty = Canvas::new(0, 7).unwrap();
    assert_eq!((empty.width(), empty.height()), (0, 7));
}
