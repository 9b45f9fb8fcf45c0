//! The board in virtual reality: drawing the highlight on a page image, the
//! picture that is shown to test the connection, and when the board is shown.

use vstd::prelude::*;

use crate::text::same;

verus! {

/// A colour: red, green, blue and alpha.
#[derive(Debug, Clone, Copy, PartialEq, Eq, Structural)]
pub struct Rgba {
    pub r: u8,
    pub g: u8,
    pub b: u8,
    pub a: u8,
}

/// An image of pixels, row by row from the top.
#[derive(Debug)]
pub struct Frame {
    pub width: u32,
    pub height: u32,
    pub pixels: Vec<Rgba>,
}

/// The image has as many pixels as its size says.
pub open spec fn frame_ok(f: Frame) -> bool {
    f.pixels@.len() == f.width * f.height
}

/// Where the pixel at a column and row is.
pub open spec fn offset(width: u32, x: int, y: int) -> int {
    y * width + x
}

/// The pixel at a column and row.
pub open spec fn pixel(f: Frame, x: int, y: int) -> Rgba {
    f.pixels@[offset(f.width, x, y)]
}

/// The colour of the border.
pub open spec fn border_color() -> Rgba {
    Rgba { r: 0xff, g: 0xcc, b: 0x33, a: 0xff }
}

/// The colour of the filling, most of which is transparent.
pub open spec fn fill_color() -> Rgba {
    Rgba { r: 0xff, g: 0xcc, b: 0x33, a: 0x22 }
}

/// One channel of a colour over another.
pub open spec fn over_channel(dst: u8, src: u8, alpha: u8) -> u8 {
    ((src * alpha + dst * (255 - alpha)) / 255) as u8
}

/// A colour over another. The result is opaque.
pub open spec fn over(dst: Rgba, src: Rgba) -> Rgba {
    Rgba {
        r: over_channel(dst.r, src.r, src.a),
        g: over_channel(dst.g, src.g, src.a),
        b: over_channel(dst.b, src.b, src.a),
        a: 0xff,
    }
}

fn blend_channel(dst: u8, src: u8, alpha: u8) -> (r: u8)
    ensures
        r == over_channel(dst, src, alpha),
{
    let sa: u32 = alpha as u32;
    let inv: u32 = 255 - sa;
    assert(src * alpha + dst * (255 - alpha) <= 255 * 255 && src * alpha >= 0 && dst * (255
        - alpha) >= 0) by (nonlinear_arith)
        requires
            0 <= src <= 255,
            0 <= dst <= 255,
            0 <= alpha <= 255,
    ;
    assert(src as u32 * sa == src * alpha) by (nonlinear_arith)
        requires
            sa == alpha,
    ;
    assert(dst as u32 * inv == dst * (255 - alpha)) by (nonlinear_arith)
        requires
            inv == 255 - alpha,
    ;
    ((src as u32 * sa + dst as u32 * inv) / 255) as u8
}

/// Lays a colour over another.
pub fn blend(dst: Rgba, src: Rgba) -> (r: Rgba)
    ensures
        r == over(dst, src),
{
    Rgba {
        r: blend_channel(dst.r, src.r, src.a),
        g: blend_channel(dst.g, src.g, src.a),
        b: blend_channel(dst.b, src.b, src.a),
        a: 0xff,
    }
}

/// The smaller of two numbers.
pub open spec fn least(a: int, b: int) -> int {
    if a <= b {
        a
    } else {
        b
    }
}

/// The rectangle is not empty and begins within the image.
pub open spec fn touches(f: Frame, x: u32, y: u32, w: u32, h: u32) -> bool {
    x < f.width && y < f.height && w > 0 && h > 0
}

/// The pixel is in the rectangle.
pub open spec fn in_rect(x: u32, y: u32, w: u32, h: u32, px: int, py: int) -> bool {
    x <= px < x + w && y <= py < y + h
}

/// The pixel is within two pixels of an edge of the rectangle, where the
/// rectangle ends at the edge of the image.
pub open spec fn in_border(f: Frame, x: u32, y: u32, w: u32, h: u32, px: int, py: int) -> bool {
    let x_end = least(x + w, f.width as int);
    let y_end = least(y + h, f.height as int);
    py < y + 2 || py >= y_end - 2 || px < x + 2 || px >= x_end - 2
}

/// The colour of a pixel after the highlight was drawn.
pub open spec fn highlighted(
    f: Frame,
    x: u32,
    y: u32,
    w: u32,
    h: u32,
    px: int,
    py: int,
) -> Rgba {
    if !touches(f, x, y, w, h) || !in_rect(x, y, w, h, px, py) {
        pixel(f, px, py)
    } else if in_border(f, x, y, w, h, px, py) {
        border_color()
    } else {
        over(pixel(f, px, py), fill_color())
    }
}

proof fn lemma_offset(width: u32, height: u32, x: int, y: int)
    requires
        0 <= x < width,
        0 <= y < height,
    ensures
        0 <= offset(width, x, y) < width * height,
{
    assert(0 <= y * width + x < width * height) by (nonlinear_arith)
        requires
            0 <= x < width,
            0 <= y < height,
    ;
}

proof fn lemma_offset_is_one_to_one(width: u32, x: int, y: int, u: int, v: int)
    requires
        0 <= x < width,
        0 <= u < width,
        offset(width, x, y) == offset(width, u, v),
    ensures
        x == u && y == v,
{
    assert(x == u && y == v) by (nonlinear_arith)
        requires
            0 <= x < width,
            0 <= u < width,
            y * width + x == v * width + u,
    ;
}

/// Draws a highlight on the image: a border of two pixels around a rectangle,
/// and a tint within, as far as it lies in the image.
pub fn draw_highlight(frame: &mut Frame, x: u32, y: u32, w: u32, h: u32)
    requires
        frame_ok(*old(frame)),
    ensures
        frame_ok(*final(frame)),
        final(frame).width == old(frame).width,
        final(frame).height == old(frame).height,
        forall|px: int, py: int|
            0 <= px < old(frame).width && 0 <= py < old(frame).height ==> #[trigger] pixel(
                *final(frame),
                px,
                py,
            ) == highlighted(*old(frame), x, y, w, h, px, py),
{
    let width: u32 = frame.width;
    let height: u32 = frame.height;
    if x >= width || y >= height || w == 0 || h == 0 {
        return ;
    }
    let x_end: u32 = if w < width - x {
        x + w
    } else {
        width
    };
    let y_end: u32 = if h < height - y {
        y + h
    } else {
        height
    };
    let ghost start = *old(frame);
    let fill = Rgba { r: 0xff, g: 0xcc, b: 0x33, a: 0x22 };
    let border = Rgba { r: 0xff, g: 0xcc, b: 0x33, a: 0xff };
    let mut py: u32 = y;
    while py < y_end
        invariant
            frame_ok(*frame),
            frame_ok(start),
            start == *old(frame),
            frame.width == width && frame.height == height,
            start.width == width && start.height == height,
            touches(start, x, y, w, h),
            x_end == least(x + w, width as int),
            y_end == least(y + h, height as int),
            y <= py <= y_end,
            fill == fill_color(),
            border == border_color(),
            forall|u: int, v: int|
                0 <= u < width && 0 <= v < height ==> #[trigger] pixel(*frame, u, v) == (if v
                    < py {
                    highlighted(start, x, y, w, h, u, v)
                } else {
                    pixel(start, u, v)
                }),
        decreases y_end - py,
    {
        let mut px: u32 = x;
        while px < x_end
            invariant
                frame_ok(*frame),
                frame_ok(start),
                frame.width == width && frame.height == height,
                start.width == width && start.height == height,
                touches(start, x, y, w, h),
                x_end == least(x + w, width as int),
                y_end == least(y + h, height as int),
                y <= py < y_end,
                x <= px <= x_end,
                fill == fill_color(),
                border == border_color(),
                forall|u: int, v: int|
                    0 <= u < width && 0 <= v < height ==> #[trigger] pixel(*frame, u, v) == (if v
                        < py || (v == py && u < px) {
                        highlighted(start, x, y, w, h, u, v)
                    } else {
                        pixel(start, u, v)
                    }),
            decreases x_end - px,
        {
            proof {
                lemma_offset(width, height, px as int, py as int);
            }
            let len: usize = frame.pixels.len();
            assert(0 <= py * width && py * width + px < len) by (nonlinear_arith)
                requires
                    0 <= py,
                    0 <= width,
                    offset(width, px as int, py as int) < len,
                    offset(width, px as int, py as int) == py * width + px,
            ;
            let at: usize = py as usize * width as usize + px as usize;
            assert(at == offset(width, px as int, py as int));
            assert(pixel(*frame, px as int, py as int) == pixel(start, px as int, py as int));
            let on_border = py - y < 2 || y_end - py <= 2 || px - x < 2 || x_end - px <= 2;
            let ghost before = *frame;
            let color = if on_border {
                border
            } else {
                blend(frame.pixels[at], fill)
            };
            frame.pixels.set(at, color);
            assert(color == highlighted(start, x, y, w, h, px as int, py as int));
            assert forall|u: int, v: int| 0 <= u < width && 0 <= v < height implies #[trigger] pixel(
                *frame,
                u,
                v,
            ) == (if v < py || (v == py && u < px + 1) {
                highlighted(start, x, y, w, h, u, v)
            } else {
                pixel(start, u, v)
            }) by {
                lemma_offset(width, height, u, v);
                assert(pixel(before, u, v) == (if v < py || (v == py && u < px) {
                    highlighted(start, x, y, w, h, u, v)
                } else {
                    pixel(start, u, v)
                }));
                if offset(width, u, v) == at {
                    lemma_offset_is_one_to_one(width, u, v, px as int, py as int);
                }
            }
            px += 1;
        }
        py += 1;
    }
}

/// The image with the highlight drawn on it, where there is one.
pub fn render_kneeboard_frame(mut frame: Frame, bbox: Option<[u32; 4]>) -> (r: Frame)
    requires
        frame_ok(frame),
    ensures
        frame_ok(r),
        r.width == frame.width && r.height == frame.height,
        bbox is None ==> r == frame,
        bbox matches Some(b) ==> forall|px: int, py: int|
            0 <= px < r.width && 0 <= py < r.height ==> #[trigger] pixel(r, px, py) == highlighted(
                frame,
                b[0],
                b[1],
                b[2],
                b[3],
                px,
                py,
            ),
{
    if let Some(b) = bbox {
        draw_highlight(&mut frame, b[0], b[1], b[2], b[3]);
    }
    frame
}

/// Drawing leaves everything outside of the rectangle as it was.
pub proof fn law_outside_is_untouched(
    f: Frame,
    x: u32,
    y: u32,
    w: u32,
    h: u32,
    px: int,
    py: int,
)
    requires
        !in_rect(x, y, w, h, px, py),
    ensures
        highlighted(f, x, y, w, h, px, py) == pixel(f, px, py),
{
}

// ---------------------------------------------------------------------------
// The test picture
// ---------------------------------------------------------------------------

/// The width and height of the test picture.
pub const TEST_TEXTURE_SIZE: usize = 256;

/// The colour of a pixel of the test picture: a red frame, a black cross, and
/// yellow elsewhere.
pub open spec fn pattern_color(x: int, y: int) -> Seq<u8> {
    if x < 4 || x >= 252 || y < 4 || y >= 252 {
        seq![0xffu8, 0x33u8, 0x33u8, 0xffu8]
    } else if 124 <= x < 132 || 124 <= y < 132 {
        seq![0x00u8, 0x00u8, 0x00u8, 0xffu8]
    } else {
        seq![0xffu8, 0xccu8, 0x33u8, 0xffu8]
    }
}

/// The test picture: four bytes for each pixel, row by row.
pub fn build_test_pattern() -> (r: Vec<u8>)
    ensures
        r@.len() == 256 * 256 * 4,
        forall|x: int, y: int, c: int|
            0 <= x < 256 && 0 <= y < 256 && 0 <= c < 4 ==> #[trigger] r@[4 * (256 * y + x) + c]
                == #[trigger] pattern_color(x, y)[c],
{
    let mut r: Vec<u8> = Vec::new();
    let mut n: usize = 0;
    while n < 65536
        invariant
            n <= 65536,
            r@.len() == 4 * n,
            forall|k: int, c: int|
                0 <= k < n && 0 <= c < 4 ==> #[trigger] r@[4 * k + c] == #[trigger] pattern_color(
                    k % 256,
                    k / 256,
                )[c],
        decreases 65536 - n,
    {
        let x: usize = n % 256;
        let y: usize = n / 256;
        let (red, green, blue): (u8, u8, u8) = if x < 4 || x >= 252 || y < 4 || y >= 252 {
            (0xff, 0x33, 0x33)
        } else if (124 <= x && x < 132) || (124 <= y && y < 132) {
            (0x00, 0x00, 0x00)
        } else {
            (0xff, 0xcc, 0x33)
        };
        let ghost before = r@;
        r.push(red);
        r.push(green);
        r.push(blue);
        r.push(0xff);
        assert forall|k: int, c: int| 0 <= k < n + 1 && 0 <= c < 4 implies #[trigger] r@[4 * k + c]
            == #[trigger] pattern_color(k % 256, k / 256)[c] by {
            if k < n {
                assert(r@[4 * k + c] == before[4 * k + c]);
            } else {
                assert(k == n);
                assert(pattern_color(x as int, y as int) == seq![red, green, blue, 0xffu8]);
            }
        }
        n += 1;
    }
    assert forall|x: int, y: int, c: int| 0 <= x < 256 && 0 <= y < 256 && 0 <= c < 4 implies #[trigger] r@[
    4 * (256 * y + x) + c] == #[trigger] pattern_color(x, y)[c] by {
        let k = 256 * y + x;
        assert(k % 256 == x && k / 256 == y);
        assert(r@[4 * k + c] == pattern_color(k % 256, k / 256)[c]);
    }
    r
}

// ---------------------------------------------------------------------------
// When the board is shown
// ---------------------------------------------------------------------------

/// The board is shown in virtual reality.
pub open spec fn is_shown(mode: Seq<char>, runtime_installed: bool, hmd_present: bool) -> bool {
    mode == "vr"@ || (mode != "desktop"@ && runtime_installed && hmd_present)
}

/// Whether the board is shown in virtual reality: as the user set it, or, where
/// that is left open, where a runtime is installed and a headset is on.
pub fn should_be_active(mode: &str, runtime_installed: bool, hmd_present: bool) -> (r: bool)
    ensures
        r == is_shown(mode@, runtime_installed, hmd_present),
        r == (if mode@ == "vr"@ {
            true
        } else if mode@ == "desktop"@ {
            false
        } else {
            runtime_installed && hmd_present
        }),
{
    proof {
        law_the_user_decides_where_the_board_is(mode@, runtime_installed, hmd_present);
    }
    if same(mode, "vr") {
        true
    } else if same(mode, "desktop") {
        false
    } else {
        runtime_installed && hmd_present
    }
}

/// Laying a colour over another: where it is opaque it covers it, where it is
/// clear it leaves it, and else the result lies between the two.
pub proof fn law_colours_are_mixed(dst: u8, src: u8, alpha: u8)
    ensures
        over_channel(dst, src, 255) == src,
        over_channel(dst, src, 0) == dst,
        dst <= src ==> dst <= over_channel(dst, src, alpha) <= src,
        src <= dst ==> src <= over_channel(dst, src, alpha) <= dst,
{
    assert((src * 255 + dst * 0) / 255 == src && (src * 0 + dst * 255) / 255 == dst);
    let sum = src * alpha + dst * (255 - alpha);
    assert(0 <= alpha <= 255);
    if dst <= src {
        assert(dst * 255 <= sum <= src * 255) by (nonlinear_arith)
            requires
                sum == src * alpha + dst * (255 - alpha),
                dst <= src,
                0 <= alpha <= 255,
        ;
    } else {
        assert(src * 255 <= sum <= dst * 255) by (nonlinear_arith)
            requires
                sum == src * alpha + dst * (255 - alpha),
                src <= dst,
                0 <= alpha <= 255,
        ;
    }
}

/// The highlight: yellow within two pixels of an edge of its rectangle, as far as
/// the rectangle lies in the image, and a tint of yellow within.
pub proof fn law_the_highlight_has_a_border(
    f: Frame,
    x: u32,
    y: u32,
    w: u32,
    h: u32,
    px: int,
    py: int,
)
    requires
        x <= px < f.width,
        y <= py < f.height,
        px < x + w,
        py < y + h,
    ensures
        ({
            let yellow = Rgba { r: 0xff, g: 0xcc, b: 0x33, a: 0xff };
            let tint = Rgba { r: 0xff, g: 0xcc, b: 0x33, a: 0x22 };
            let drawn = highlighted(f, x, y, w, h, px, py);
            let near = px - x < 2 || py - y < 2 || (x + w <= f.width && x + w - px <= 2) || (x + w
                > f.width && f.width - px <= 2) || (y + h <= f.height && y + h - py <= 2) || (y + h
                > f.height && f.height - py <= 2);
            &&& near ==> drawn == yellow
            &&& !near ==> drawn == over(f.pixels@[py * f.width + px], tint)
        }),
{
}

/// The test picture is the same from all four sides: a red edge, four pixels wide,
/// a black cross in the middle, eight pixels wide, and yellow between them.
pub proof fn law_the_test_picture_is_even(x: int, y: int)
    requires
        0 <= x < 256,
        0 <= y < 256,
    ensures
        pattern_color(x, y) == pattern_color(y, x),
        pattern_color(x, y) == pattern_color(255 - x, y),
        x < 4 ==> pattern_color(x, y) == seq![0xffu8, 0x33u8, 0x33u8, 0xffu8],
        4 <= x < 124 && 4 <= y < 124 ==> pattern_color(x, y) == seq![
            0xffu8,
            0xccu8,
            0x33u8,
            0xffu8,
        ],
        124 <= x < 128 && 4 <= y < 252 ==> pattern_color(x, y) == seq![
            0x00u8,
            0x00u8,
            0x00u8,
            0xffu8,
        ],
{
}

/// What the user set decides whether the board is shown; left open, it takes both a
/// runtime and a headset.
pub proof fn law_the_user_decides_where_the_board_is(
    mode: Seq<char>,
    runtime_installed: bool,
    hmd_present: bool,
)
    ensures
        is_shown("vr"@, runtime_installed, hmd_present),
        !is_shown("desktop"@, runtime_installed, hmd_present),
        is_shown(mode, runtime_installed, hmd_present) && mode != "vr"@ ==> runtime_installed
            && hmd_present,
        mode != "desktop"@ ==> is_shown(mode, true, true),
{
    reveal_strlit("vr");
    reveal_strlit("desktop");
    assert("vr"@[0] == 'v' && "desktop"@[0] == 'd');
}

/// An opaque colour covers what is under it and a clear one leaves it; the result
/// is opaque.
pub proof fn law_opaque_colours_cover(dst: Rgba, src: Rgba)
    ensures
        over(dst, src).a == 0xff,
        src.a == 0xff ==> over(dst, src) == src,
        src.a == 0 ==> over(dst, src) == (Rgba { a: 0xff, ..dst }),
{
    law_colours_are_mixed(dst.r, src.r, src.a);
    law_colours_are_mixed(dst.g, src.g, src.a);
    law_colours_are_mixed(dst.b, src.b, src.a);
}

} // verus!
