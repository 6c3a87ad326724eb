//! Color averages over captured frames: the pixel layouts of raw frames, averages over
//! regions, bands and sampling grids, and the detection of black bars.
//!
//! A frame is `width * height` pixels, row after row, each `bytes_per_pixel` bytes with the
//! red, green and blue bytes at the layout's offsets. Sums are kept in `u128`, which no frame
//! that fits in memory can overflow.
use vstd::prelude::*;
use crate::error::CoreError;
use crate::text::{chars_of, eq_str, nat_decimal, push_chars, push_str_chars, u64_decimal};

verus! {

broadcast use vstd::string::group_string_axioms;

/// An average color.
#[derive(Debug, Clone, Copy, PartialEq, Eq, Structural)]
pub struct RgbAverage {
    pub red: u8,
    pub green: u8,
    pub blue: u8,
}

/// Where the color bytes of a pixel are.
#[derive(Debug, Clone, Copy, PartialEq, Eq, Structural)]
pub struct PixelLayout {
    pub bytes_per_pixel: usize,
    pub red_offset: usize,
    pub green_offset: usize,
    pub blue_offset: usize,
}

/// Every color byte lies inside its pixel.
pub open spec fn layout_ok(l: PixelLayout) -> bool {
    &&& l.bytes_per_pixel > 0
    &&& l.red_offset < l.bytes_per_pixel
    &&& l.green_offset < l.bytes_per_pixel
    &&& l.blue_offset < l.bytes_per_pixel
}

/// The layout of a GStreamer raw video format name, if it is one of the supported ones.
pub open spec fn format_layout(format: Seq<char>) -> Option<PixelLayout> {
    if format == "RGB"@ {
        Some(PixelLayout { bytes_per_pixel: 3, red_offset: 0, green_offset: 1, blue_offset: 2 })
    } else if format == "BGR"@ {
        Some(PixelLayout { bytes_per_pixel: 3, red_offset: 2, green_offset: 1, blue_offset: 0 })
    } else if format == "RGBx"@ || format == "RGBA"@ {
        Some(PixelLayout { bytes_per_pixel: 4, red_offset: 0, green_offset: 1, blue_offset: 2 })
    } else if format == "BGRx"@ || format == "BGRA"@ {
        Some(PixelLayout { bytes_per_pixel: 4, red_offset: 2, green_offset: 1, blue_offset: 0 })
    } else if format == "xRGB"@ || format == "ARGB"@ {
        Some(PixelLayout { bytes_per_pixel: 4, red_offset: 1, green_offset: 2, blue_offset: 3 })
    } else if format == "xBGR"@ || format == "ABGR"@ {
        Some(PixelLayout { bytes_per_pixel: 4, red_offset: 3, green_offset: 2, blue_offset: 1 })
    } else {
        None
    }
}

/// The format name `format` names a pixel of `l`: one character per byte, with `R`, `G` and
/// `B` at the red, green and blue offsets.
pub open spec fn layout_spells(format: Seq<char>, l: PixelLayout) -> bool {
    &&& l.bytes_per_pixel == format.len()
    &&& format[l.red_offset as int] == 'R'
    &&& format[l.green_offset as int] == 'G'
    &&& format[l.blue_offset as int] == 'B'
}

/// Each supported raw video format is read as its name spells it: the pixel has one byte per
/// letter and the red, green and blue bytes are where `R`, `G` and `B` stand in the name.
/// The packed RGB and BGR formats and the four-byte ones with a padding or alpha byte
/// (`x` or `A`) on either side are all supported.
pub proof fn law_layout_follows_format_name(format: Seq<char>)
    ensures
        format_layout(format) matches Some(l) ==> layout_spells(format, l),
        (format == "RGB"@ || format == "BGR"@ || format == "RGBx"@ || format == "RGBA"@
            || format == "BGRx"@ || format == "BGRA"@ || format == "xRGB"@ || format == "ARGB"@
            || format == "xBGR"@ || format == "ABGR"@) ==> format_layout(format) is Some,
{
    reveal_strlit("RGB");
    reveal_strlit("BGR");
    reveal_strlit("RGBx");
    reveal_strlit("RGBA");
    reveal_strlit("BGRx");
    reveal_strlit("BGRA");
    reveal_strlit("xRGB");
    reveal_strlit("ARGB");
    reveal_strlit("xBGR");
    reveal_strlit("ABGR");
}

impl PixelLayout {
    /// Packed RGB, three bytes per pixel.
    pub fn rgb() -> (r: PixelLayout)
        ensures
            r == (PixelLayout { bytes_per_pixel: 3, red_offset: 0, green_offset: 1, blue_offset: 2 }),
    {
        PixelLayout { bytes_per_pixel: 3, red_offset: 0, green_offset: 1, blue_offset: 2 }
    }

    /// The layout of a raw video format; other formats are refused.
    pub fn from_format(format: &str) -> (r: Result<PixelLayout, CoreError>)
        ensures
            match format_layout(format@) {
                Some(l) => r == Ok::<PixelLayout, CoreError>(l) && layout_ok(l),
                None => r matches Err(CoreError::GStreamer(m)) && m@
                    == "unsupported sample format: "@ + format@,
            },
            r matches Ok(l) ==> layout_spells(format@, l),
    {
        proof {
            law_layout_follows_format_name(format@);
        }
        let f = chars_of(format);
        if eq_str(&f, "RGB") {
            Ok(PixelLayout::rgb())
        } else if eq_str(&f, "BGR") {
            Ok(PixelLayout { bytes_per_pixel: 3, red_offset: 2, green_offset: 1, blue_offset: 0 })
        } else if eq_str(&f, "RGBx") || eq_str(&f, "RGBA") {
            Ok(PixelLayout { bytes_per_pixel: 4, red_offset: 0, green_offset: 1, blue_offset: 2 })
        } else if eq_str(&f, "BGRx") || eq_str(&f, "BGRA") {
            Ok(PixelLayout { bytes_per_pixel: 4, red_offset: 2, green_offset: 1, blue_offset: 0 })
        } else if eq_str(&f, "xRGB") || eq_str(&f, "ARGB") {
            Ok(PixelLayout { bytes_per_pixel: 4, red_offset: 1, green_offset: 2, blue_offset: 3 })
        } else if eq_str(&f, "xBGR") || eq_str(&f, "ABGR") {
            Ok(PixelLayout { bytes_per_pixel: 4, red_offset: 3, green_offset: 2, blue_offset: 1 })
        } else {
            let mut m = String::new();
            push_str_chars(&mut m, "unsupported sample format: ");
            push_str_chars(&mut m, format);
            Err(CoreError::GStreamer(m))
        }
    }
}

/// The byte at offset `off` of pixel `(x, y)`.
pub open spec fn byte_at(b: Seq<u8>, w: int, l: PixelLayout, x: int, y: int, off: int) -> int {
    b[(y * w + x) * l.bytes_per_pixel + off] as int
}

/// The bytes at offset `off` of the pixels `x0..x1` of row `y`, added up.
pub open spec fn row_sum(b: Seq<u8>, w: int, l: PixelLayout, off: int, y: int, x0: int, x1: int) -> int
    decreases x1 - x0,
{
    if x1 <= x0 {
        0
    } else {
        row_sum(b, w, l, off, y, x0, x1 - 1) + byte_at(b, w, l, x1 - 1, y, off)
    }
}

/// The bytes at offset `off` of the pixels `x0..x1` of rows `y0..y1`, added up.
pub open spec fn area_sum(b: Seq<u8>, w: int, l: PixelLayout, off: int, y0: int, y1: int, x0: int, x1: int) -> int
    decreases y1 - y0,
{
    if y1 <= y0 {
        0
    } else {
        area_sum(b, w, l, off, y0, y1 - 1, x0, x1) + row_sum(b, w, l, off, y1 - 1, x0, x1)
    }
}

/// The frame holds at least `width * height` pixels.
pub open spec fn frame_fits(len: int, w: int, h: int, l: PixelLayout) -> bool {
    w * h * l.bytes_per_pixel <= len
}

/// The average of a sum over `n` values, as a byte.
pub open spec fn mean(sum: int, n: int) -> u8 {
    (sum / n) as u8
}

/// A pixel of the frame lies inside the frame's bytes.
pub proof fn lemma_pixel_in_frame(w: int, h: int, bpp: int, x: int, y: int, off: int)
    requires
        0 <= x < w,
        0 <= y < h,
        0 <= off < bpp,
    ensures
        0 <= (y * w + x) * bpp + off < w * h * bpp,
        0 <= y * w <= y * w + x <= (y * w + x) * bpp,
{
    assert(y * w + x <= (h - 1) * w + (w - 1)) by (nonlinear_arith)
        requires
            0 <= x < w,
            0 <= y < h,
    ;
    assert((h - 1) * w + (w - 1) == w * h - 1) by (nonlinear_arith);
    assert(0 <= y * w + x) by (nonlinear_arith)
        requires
            0 <= x,
            0 <= y,
            0 <= w,
    ;
    assert((y * w + x) * bpp + off < w * h * bpp) by (nonlinear_arith)
        requires
            0 <= y * w + x <= w * h - 1,
            0 <= off < bpp,
    ;
    assert(y * w + x <= (y * w + x) * bpp) by (nonlinear_arith)
        requires
            0 <= y * w + x,
            1 <= bpp,
    ;
    assert(0 <= y * w) by (nonlinear_arith)
        requires
            0 <= y,
            0 <= w,
    ;
}

/// Row sums of bytes lie between 0 and 255 per pixel.
pub proof fn lemma_row_sum_bounds(b: Seq<u8>, w: int, l: PixelLayout, off: int, y: int, x0: int, x1: int)
    requires
        x0 <= x1,
    ensures
        0 <= row_sum(b, w, l, off, y, x0, x1) <= 255 * (x1 - x0),
    decreases x1 - x0,
{
    if x1 > x0 {
        lemma_row_sum_bounds(b, w, l, off, y, x0, x1 - 1);
    }
}

/// Area sums of bytes lie between 0 and 255 per pixel.
pub proof fn lemma_area_sum_bounds(b: Seq<u8>, w: int, l: PixelLayout, off: int, y0: int, y1: int, x0: int, x1: int)
    requires
        y0 <= y1,
        x0 <= x1,
    ensures
        0 <= area_sum(b, w, l, off, y0, y1, x0, x1) <= 255 * ((y1 - y0) * (x1 - x0)),
    decreases y1 - y0,
{
    if y1 > y0 {
        lemma_area_sum_bounds(b, w, l, off, y0, y1 - 1, x0, x1);
        lemma_row_sum_bounds(b, w, l, off, y1 - 1, x0, x1);
        assert(255 * ((y1 - 1 - y0) * (x1 - x0)) + 255 * (x1 - x0) == 255 * ((y1 - y0) * (x1
            - x0))) by (nonlinear_arith);
    }
}

/// The mean of values that are bytes is a byte.
pub proof fn lemma_mean_is_byte(sum: int, n: int)
    requires
        n > 0,
        0 <= sum <= 255 * n,
    ensures
        0 <= sum / n <= 255,
{
    assert(sum / n <= 255) by (nonlinear_arith)
        requires
            n > 0,
            0 <= sum <= 255 * n,
    ;
    assert(sum / n >= 0) by (nonlinear_arith)
        requires
            n > 0,
            0 <= sum,
    ;
}

/// The sums of the red, green and blue bytes over pixels `x0..x1` of rows `y0..y1`.
fn sum_area(bytes: &[u8], width: usize, height: usize, layout: PixelLayout, y0: usize, y1: usize, x0: usize, x1: usize) -> (r: (u128, u128, u128))
    requires
        layout_ok(layout),
        frame_fits(bytes@.len() as int, width as int, height as int, layout),
        y0 <= y1 <= height,
        x0 <= x1 <= width,
    ensures
        r.0 == area_sum(bytes@, width as int, layout, layout.red_offset as int, y0 as int, y1 as int, x0 as int, x1 as int),
        r.1 == area_sum(bytes@, width as int, layout, layout.green_offset as int, y0 as int, y1 as int, x0 as int, x1 as int),
        r.2 == area_sum(bytes@, width as int, layout, layout.blue_offset as int, y0 as int, y1 as int, x0 as int, x1 as int),
{
    let ghost b = bytes@;
    let ghost w = width as int;
    let mut red: u128 = 0;
    let mut green: u128 = 0;
    let mut blue: u128 = 0;
    let mut y = y0;
    let len = bytes.len();
    proof {
        assert(w * (height as int) <= w * (height as int) * layout.bytes_per_pixel) by (nonlinear_arith)
            requires
                layout.bytes_per_pixel >= 1,
                w >= 0,
                height >= 0,
        ;
    }
    while y < y1
        invariant
            y0 <= y <= y1 <= height,
            x0 <= x1 <= width,
            layout_ok(layout),
            frame_fits(bytes@.len() as int, width as int, height as int, layout),
            b == bytes@,
            w == width,
            len == bytes@.len(),
            width * height <= bytes@.len(),
            red == area_sum(b, w, layout, layout.red_offset as int, y0 as int, y as int, x0 as int, x1 as int),
            green == area_sum(b, w, layout, layout.green_offset as int, y0 as int, y as int, x0 as int, x1 as int),
            blue == area_sum(b, w, layout, layout.blue_offset as int, y0 as int, y as int, x0 as int, x1 as int),
        decreases y1 - y,
    {
        proof {
            lemma_area_sum_bounds(b, w, layout, layout.red_offset as int, y0 as int, y as int, x0 as int, x1 as int);
            lemma_area_sum_bounds(b, w, layout, layout.green_offset as int, y0 as int, y as int, x0 as int, x1 as int);
            lemma_area_sum_bounds(b, w, layout, layout.blue_offset as int, y0 as int, y as int, x0 as int, x1 as int);
            assert((y - y0) * (x1 - x0) <= width * height) by (nonlinear_arith)
                requires
                    0 <= y - y0 <= height,
                    0 <= x1 - x0 <= width,
            ;
        }
        let mut rr: u128 = 0;
        let mut gg: u128 = 0;
        let mut bb: u128 = 0;
        let mut x = x0;
        while x < x1
            invariant
                y0 <= y < y1 <= height,
                x0 <= x <= x1 <= width,
                layout_ok(layout),
                frame_fits(bytes@.len() as int, width as int, height as int, layout),
                b == bytes@,
                w == width,
                len == bytes@.len(),
                rr == row_sum(b, w, layout, layout.red_offset as int, y as int, x0 as int, x as int),
                gg == row_sum(b, w, layout, layout.green_offset as int, y as int, x0 as int, x as int),
                bb == row_sum(b, w, layout, layout.blue_offset as int, y as int, x0 as int, x as int),
            decreases x1 - x,
        {
            proof {
                lemma_pixel_in_frame(w, height as int, layout.bytes_per_pixel as int, x as int, y as int, layout.red_offset as int);
                lemma_pixel_in_frame(w, height as int, layout.bytes_per_pixel as int, x as int, y as int, layout.green_offset as int);
                lemma_pixel_in_frame(w, height as int, layout.bytes_per_pixel as int, x as int, y as int, layout.blue_offset as int);
                lemma_row_sum_bounds(b, w, layout, layout.red_offset as int, y as int, x0 as int, x as int);
                lemma_row_sum_bounds(b, w, layout, layout.green_offset as int, y as int, x0 as int, x as int);
                lemma_row_sum_bounds(b, w, layout, layout.blue_offset as int, y as int, x0 as int, x as int);
            }
            let base = (y * width + x) * layout.bytes_per_pixel;
            rr = rr + bytes[base + layout.red_offset] as u128;
            gg = gg + bytes[base + layout.green_offset] as u128;
            bb = bb + bytes[base + layout.blue_offset] as u128;
            x = x + 1;
        }
        proof {
            lemma_row_sum_bounds(b, w, layout, layout.red_offset as int, y as int, x0 as int, x1 as int);
            lemma_row_sum_bounds(b, w, layout, layout.green_offset as int, y as int, x0 as int, x1 as int);
            lemma_row_sum_bounds(b, w, layout, layout.blue_offset as int, y as int, x0 as int, x1 as int);
            assert((y - y0) * (x1 - x0) + (x1 - x0) <= width * height) by (nonlinear_arith)
                requires
                    0 <= y - y0,
                    y - y0 + 1 <= height,
                    0 <= x1 - x0 <= width,
            ;
        }
        red = red + rr;
        green = green + gg;
        blue = blue + bb;
        y = y + 1;
    }
    (red, green, blue)
}

/// The error of a frame that is too small or whose size overflows, if any.
pub open spec fn frame_len_error(len: int, w: int, h: int, l: PixelLayout) -> Option<Seq<char>> {
    if w * h * l.bytes_per_pixel > usize::MAX {
        Some("RGB frame dimensions overflowed"@)
    } else if len < w * h * l.bytes_per_pixel {
        Some("RGB frame too small: got "@ + nat_decimal(len as nat) + " bytes, expected at least "@
            + nat_decimal((w * h * l.bytes_per_pixel) as nat))
    } else {
        None
    }
}

/// `usize` in decimal.
fn decimal(n: usize) -> (r: Vec<char>)
    ensures
        r@ == nat_decimal(n as nat),
{
    u64_decimal(n as u64)
}

/// Checks that the frame holds `width * height` pixels of the layout.
pub fn validate_frame_len(bytes: &[u8], width: usize, height: usize, layout: PixelLayout) -> (r: Result<(), CoreError>)
    requires
        layout_ok(layout),
    ensures
        match frame_len_error(bytes@.len() as int, width as int, height as int, layout) {
            Some(m) => r matches Err(CoreError::GStreamer(e)) && e@ == m,
            None => r is Ok && frame_fits(bytes@.len() as int, width as int, height as int, layout),
        },
{
    let expected = match width.checked_mul(height) {
        Some(p) => p.checked_mul(layout.bytes_per_pixel),
        None => None,
    };
    proof {
        let ghost p = width as int * height as int;
        assert(p <= p * layout.bytes_per_pixel) by (nonlinear_arith)
            requires
                p >= 0,
                layout.bytes_per_pixel >= 1,
        ;
    }
    match expected {
        None => Err(CoreError::GStreamer("RGB frame dimensions overflowed".to_string())),
        Some(n) => {
            if bytes.len() < n {
                let mut m = String::new();
                push_str_chars(&mut m, "RGB frame too small: got ");
                let got = decimal(bytes.len());
                push_chars(&mut m, &got);
                push_str_chars(&mut m, " bytes, expected at least ");
                let want = decimal(n);
                push_chars(&mut m, &want);
                Err(CoreError::GStreamer(m))
            } else {
                Ok(())
            }
        },
    }
}

/// The average color of the pixels `x0..x1` of rows `y0..y1`.
pub open spec fn area_average(b: Seq<u8>, w: int, l: PixelLayout, y0: int, y1: int, x0: int, x1: int) -> RgbAverage {
    let n = (y1 - y0) * (x1 - x0);
    RgbAverage {
        red: mean(area_sum(b, w, l, l.red_offset as int, y0, y1, x0, x1), n),
        green: mean(area_sum(b, w, l, l.green_offset as int, y0, y1, x0, x1), n),
        blue: mean(area_sum(b, w, l, l.blue_offset as int, y0, y1, x0, x1), n),
    }
}

/// The message for a region that is empty or leaves the frame.
pub open spec fn region_message(start_x: int, end_x: int, width: int) -> Seq<char> {
    "invalid RGB region: start_x="@ + nat_decimal(start_x as nat) + ", end_x="@ + nat_decimal(
        end_x as nat,
    ) + ", width="@ + nat_decimal(width as nat)
}

/// The average color of columns `start_x..end_x` over all rows, or the refusal of an
/// empty or too wide range.
pub open spec fn region_average(b: Seq<u8>, w: int, h: int, start_x: int, end_x: int, l: PixelLayout) -> Result<RgbAverage, Seq<char>> {
    if start_x >= end_x || end_x > w {
        Err(region_message(start_x, end_x, w))
    } else {
        Ok(area_average(b, w, l, 0, h, start_x, end_x))
    }
}

/// Every pixel of the area `x0..x1` by `y0..y1` has the color `c`.
pub open spec fn area_uniform(b: Seq<u8>, w: int, l: PixelLayout, y0: int, y1: int, x0: int, x1: int, c: RgbAverage) -> bool {
    forall|x: int, y: int|
        #![trigger byte_at(b, w, l, x, y, l.red_offset as int)]
        y0 <= y < y1 && x0 <= x < x1 ==> {
            &&& byte_at(b, w, l, x, y, l.red_offset as int) == c.red
            &&& byte_at(b, w, l, x, y, l.green_offset as int) == c.green
            &&& byte_at(b, w, l, x, y, l.blue_offset as int) == c.blue
        }
}

/// A row of equal bytes adds up to the byte times the row's length.
proof fn lemma_uniform_row_sum(b: Seq<u8>, w: int, l: PixelLayout, off: int, y: int, x0: int, x1: int, v: int)
    requires
        x0 <= x1,
        forall|x: int| x0 <= x < x1 ==> #[trigger] byte_at(b, w, l, x, y, off) == v,
    ensures
        row_sum(b, w, l, off, y, x0, x1) == v * (x1 - x0),
    decreases x1 - x0,
{
    if x1 > x0 {
        lemma_uniform_row_sum(b, w, l, off, y, x0, x1 - 1, v);
        assert(byte_at(b, w, l, x1 - 1, y, off) == v);
        assert(v * (x1 - 1 - x0) + v == v * (x1 - x0)) by (nonlinear_arith);
    } else {
        assert(v * (x1 - x0) == 0) by (nonlinear_arith)
            requires
                x1 == x0,
        ;
    }
}

/// An area of equal bytes adds up to the byte times the area's size.
proof fn lemma_uniform_area_sum(b: Seq<u8>, w: int, l: PixelLayout, off: int, y0: int, y1: int, x0: int, x1: int, v: int)
    requires
        y0 <= y1,
        x0 <= x1,
        forall|x: int, y: int| y0 <= y < y1 && x0 <= x < x1 ==> #[trigger] byte_at(b, w, l, x, y, off) == v,
    ensures
        area_sum(b, w, l, off, y0, y1, x0, x1) == v * ((y1 - y0) * (x1 - x0)),
    decreases y1 - y0,
{
    if y1 > y0 {
        lemma_uniform_area_sum(b, w, l, off, y0, y1 - 1, x0, x1, v);
        assert forall|x: int| x0 <= x < x1 implies #[trigger] byte_at(b, w, l, x, y1 - 1, off) == v by {}
        lemma_uniform_row_sum(b, w, l, off, y1 - 1, x0, x1, v);
        let k = x1 - x0;
        assert(v * ((y1 - 1 - y0) * k) + v * k == v * ((y1 - y0) * k)) by (nonlinear_arith);
    } else {
        assert(v * ((y1 - y0) * (x1 - x0)) == 0) by (nonlinear_arith)
            requires
                y1 == y0,
        ;
    }
}

/// The mean of `n` equal bytes is that byte.
proof fn lemma_mean_of_equal(v: u8, n: int)
    requires
        n > 0,
    ensures
        mean(v * n, n) == v,
{
    assert((v * n) / n == v) by (nonlinear_arith)
        requires
            n > 0,
    ;
}

/// An area whose pixels all have one color averages to that color, whatever the layout
/// puts where.
pub proof fn law_uniform_area_averages_to_its_color(b: Seq<u8>, w: int, l: PixelLayout, y0: int, y1: int, x0: int, x1: int, c: RgbAverage)
    requires
        y0 < y1,
        x0 < x1,
        area_uniform(b, w, l, y0, y1, x0, x1, c),
    ensures
        area_average(b, w, l, y0, y1, x0, x1) == c,
{
    let n = (y1 - y0) * (x1 - x0);
    assert(n > 0) by (nonlinear_arith)
        requires
            y0 < y1,
            x0 < x1,
            n == (y1 - y0) * (x1 - x0),
    ;
    assert forall|x: int, y: int| y0 <= y < y1 && x0 <= x < x1 implies #[trigger] byte_at(b, w, l, x, y, l.green_offset as int) == c.green by {
        assert(byte_at(b, w, l, x, y, l.red_offset as int) == c.red);
    }
    assert forall|x: int, y: int| y0 <= y < y1 && x0 <= x < x1 implies #[trigger] byte_at(b, w, l, x, y, l.blue_offset as int) == c.blue by {
        assert(byte_at(b, w, l, x, y, l.red_offset as int) == c.red);
    }
    lemma_uniform_area_sum(b, w, l, l.red_offset as int, y0, y1, x0, x1, c.red as int);
    lemma_uniform_area_sum(b, w, l, l.green_offset as int, y0, y1, x0, x1, c.green as int);
    lemma_uniform_area_sum(b, w, l, l.blue_offset as int, y0, y1, x0, x1, c.blue as int);
    lemma_mean_of_equal(c.red, n);
    lemma_mean_of_equal(c.green, n);
    lemma_mean_of_equal(c.blue, n);
}

/// The average of the three channel sums over `n` pixels, each a byte.
fn average_of(red: u128, green: u128, blue: u128, n: u128) -> (r: RgbAverage)
    requires
        n > 0,
        red <= 255 * n,
        green <= 255 * n,
        blue <= 255 * n,
    ensures
        r == (RgbAverage { red: mean(red as int, n as int), green: mean(green as int, n as int), blue: mean(blue as int, n as int) }),
{
    proof {
        lemma_mean_is_byte(red as int, n as int);
        lemma_mean_is_byte(green as int, n as int);
        lemma_mean_is_byte(blue as int, n as int);
    }
    RgbAverage { red: (red / n) as u8, green: (green / n) as u8, blue: (blue / n) as u8 }
}

/// The channel sums of an area are bounded by its pixel count, which fits the frame.
proof fn lemma_area_fits(b: Seq<u8>, w: int, h: int, l: PixelLayout, y0: int, y1: int, x0: int, x1: int)
    requires
        0 <= y0 <= y1 <= h,
        0 <= x0 <= x1 <= w,
        w * h <= usize::MAX,
    ensures
        0 <= (y1 - y0) * (x1 - x0) <= usize::MAX,
        area_sum(b, w, l, l.red_offset as int, y0, y1, x0, x1) <= 255 * ((y1 - y0) * (x1 - x0)),
        area_sum(b, w, l, l.green_offset as int, y0, y1, x0, x1) <= 255 * ((y1 - y0) * (x1 - x0)),
        area_sum(b, w, l, l.blue_offset as int, y0, y1, x0, x1) <= 255 * ((y1 - y0) * (x1 - x0)),
{
    lemma_area_sum_bounds(b, w, l, l.red_offset as int, y0, y1, x0, x1);
    lemma_area_sum_bounds(b, w, l, l.green_offset as int, y0, y1, x0, x1);
    lemma_area_sum_bounds(b, w, l, l.blue_offset as int, y0, y1, x0, x1);
    assert(0 <= (y1 - y0) * (x1 - x0) <= w * h) by (nonlinear_arith)
        requires
            0 <= y1 - y0 <= h,
            0 <= x1 - x0 <= w,
    ;
}

/// A frame that fits has at most `usize::MAX` pixels.
proof fn lemma_frame_pixels(len: int, w: int, h: int, l: PixelLayout)
    requires
        layout_ok(l),
        frame_fits(len, w, h, l),
        len <= usize::MAX,
        w >= 0,
        h >= 0,
    ensures
        w * h <= usize::MAX,
{
    assert(w * h <= w * h * l.bytes_per_pixel) by (nonlinear_arith)
        requires
            w * h >= 0,
            l.bytes_per_pixel >= 1,
    ;
    assert(w * h >= 0) by (nonlinear_arith)
        requires
            w >= 0,
            h >= 0,
    ;
}

/// `start_x={..}, end_x={..}, width={..}` refusal message of a region.
fn region_error(start_x: usize, end_x: usize, width: usize) -> (r: CoreError)
    ensures
        r matches CoreError::GStreamer(m) && m@ == region_message(start_x as int, end_x as int, width as int),
{
    let mut m = String::new();
    push_str_chars(&mut m, "invalid RGB region: start_x=");
    let a = decimal(start_x);
    push_chars(&mut m, &a);
    push_str_chars(&mut m, ", end_x=");
    let b = decimal(end_x);
    push_chars(&mut m, &b);
    push_str_chars(&mut m, ", width=");
    let c = decimal(width);
    push_chars(&mut m, &c);
    CoreError::GStreamer(m)
}

/// The average color of columns `start_x..end_x` over all rows of the frame.
pub fn average_rgb_region(bytes: &[u8], width: usize, height: usize, start_x: usize, end_x: usize, layout: PixelLayout) -> (r: Result<RgbAverage, CoreError>)
    requires
        layout_ok(layout),
        frame_fits(bytes@.len() as int, width as int, height as int, layout),
        height > 0,
    ensures
        match region_average(bytes@, width as int, height as int, start_x as int, end_x as int, layout) {
            Ok(a) => r == Ok::<RgbAverage, CoreError>(a),
            Err(m) => r matches Err(CoreError::GStreamer(e)) && e@ == m,
        },
{
    if start_x >= end_x || end_x > width {
        return Err(region_error(start_x, end_x, width));
    }
    let len = bytes.len();
    let (red, green, blue) = sum_area(bytes, width, height, layout, 0, height, start_x, end_x);
    proof {
        lemma_frame_pixels(bytes@.len() as int, width as int, height as int, layout);
        lemma_area_fits(bytes@, width as int, height as int, layout, 0, height as int, start_x as int, end_x as int);
        assert(height * (end_x - start_x) >= 1) by (nonlinear_arith)
            requires
                height >= 1,
                end_x - start_x >= 1,
        ;
    }
    let n = (height as u128) * ((end_x - start_x) as u128);
    Ok(average_of(red, green, blue, n))
}

/// The number of whole 3-byte pixels in a packed RGB buffer.
pub open spec fn rgb_pixels(len: int) -> int {
    len / 3
}

/// The average color of a packed RGB buffer, or the refusal of a buffer without a whole pixel.
pub fn average_rgb_bytes(bytes: &[u8]) -> (r: Result<RgbAverage, CoreError>)
    ensures
        rgb_pixels(bytes@.len() as int) == 0 ==> (r matches Err(CoreError::GStreamer(e)) && e@
            == "empty RGB buffer"@),
        rgb_pixels(bytes@.len() as int) > 0 ==> r == Ok::<RgbAverage, CoreError>(
            area_average(
                bytes@,
                rgb_pixels(bytes@.len() as int),
                PixelLayout { bytes_per_pixel: 3, red_offset: 0, green_offset: 1, blue_offset: 2 },
                0,
                1,
                0,
                rgb_pixels(bytes@.len() as int),
            ),
        ),
{
    let pixels = bytes.len() / 3;
    if pixels == 0 {
        return Err(CoreError::GStreamer("empty RGB buffer".to_string()));
    }
    let layout = PixelLayout::rgb();
    let len = bytes.len();
    proof {
        assert(pixels * 1 * 3 <= bytes@.len()) by (nonlinear_arith)
            requires
                pixels == bytes@.len() / 3,
        ;
    }
    let (red, green, blue) = sum_area(bytes, pixels, 1, layout, 0, 1, 0, pixels);
    proof {
        lemma_frame_pixels(bytes@.len() as int, pixels as int, 1, layout);
        lemma_area_fits(bytes@, pixels as int, 1, layout, 0, 1, 0, pixels as int);
    }
    Ok(average_of(red, green, blue, pixels as u128))
}

/// The message for a bands request with a zero size.
pub open spec fn bands_message(w: int, h: int, bands: int) -> Seq<char> {
    "invalid RGB bands request: "@ + nat_decimal(w as nat) + "x"@ + nat_decimal(h as nat)
        + ", bands="@ + nat_decimal(bands as nat)
}

/// Column range of band `k` of `n` across `size` columns.
pub open spec fn band_start(k: int, size: int, n: int) -> int {
    k * size / n
}

/// The results of bands `0..k`, stopping at the first refusal.
pub open spec fn band_averages(b: Seq<u8>, w: int, h: int, n: int, l: PixelLayout, k: int) -> Result<Seq<RgbAverage>, Seq<char>>
    decreases k,
{
    if k <= 0 {
        Ok(Seq::empty())
    } else {
        match band_averages(b, w, h, n, l, k - 1) {
            Err(e) => Err(e),
            Ok(prev) => match region_average(b, w, h, band_start(k - 1, w, n), band_start(k, w, n), l) {
                Ok(a) => Ok(prev.push(a)),
                Err(e) => Err(e),
            },
        }
    }
}

/// The average colors of `bands` equal vertical bands of the frame, left to right.
pub open spec fn horizontal_bands(b: Seq<u8>, w: int, h: int, bands: int, l: PixelLayout) -> Result<Seq<RgbAverage>, Seq<char>> {
    if w == 0 || h == 0 || bands == 0 {
        Err(bands_message(w, h, bands))
    } else {
        match frame_len_error(b.len() as int, w, h, l) {
            Some(m) => Err(m),
            None => band_averages(b, w, h, bands, l, bands),
        }
    }
}

/// The bands tile the frame's columns left to right: the first starts at column 0, each
/// starts where the one before ends, and the last ends at the frame's right edge.
pub proof fn law_bands_tile_the_width(w: nat, n: nat)
    requires
        n > 0,
    ensures
        band_start(0, w as int, n as int) == 0,
        band_start(n as int, w as int, n as int) == w,
        forall|k: int| 0 <= k < n ==> 0 <= #[trigger] band_start(k, w as int, n as int) <= band_start(k + 1, w as int, n as int) <= w,
{
    assert(0 * (w as int) / (n as int) == 0) by (nonlinear_arith)
        requires
            n > 0,
    ;
    assert((n as int) * (w as int) / (n as int) == w) by (nonlinear_arith)
        requires
            n > 0,
    ;
    assert forall|k: int| 0 <= k < n implies 0 <= #[trigger] band_start(k, w as int, n as int) <= band_start(k + 1, w as int, n as int) <= w by {
        lemma_band_bounds(k, w as int, n as int);
    }
}

/// Band boundaries stay inside the frame and in order.
proof fn lemma_band_bounds(k: int, size: int, n: int)
    requires
        0 <= k < n,
        size >= 0,
    ensures
        0 <= band_start(k, size, n) <= band_start(k + 1, size, n) <= size,
{
    assert(0 <= k * size / n) by (nonlinear_arith)
        requires
            0 <= k,
            0 <= size,
            0 < n,
    ;
    assert(k * size / n <= (k + 1) * size / n) by (nonlinear_arith)
        requires
            0 <= k,
            0 <= size,
            0 < n,
    ;
    assert((k + 1) * size <= size * n) by (nonlinear_arith)
        requires
            0 <= k + 1 <= n,
            0 <= size,
    ;
    vstd::arithmetic::div_mod::lemma_div_is_ordered((k + 1) * size, size * n, n);
    vstd::arithmetic::div_mod::lemma_div_by_multiple(size, n);
}

/// The average colors of `bands` equal vertical bands, left to right.
pub fn average_rgb_horizontal_bands(bytes: &[u8], width: usize, height: usize, bands: usize, layout: PixelLayout) -> (r: Result<Vec<RgbAverage>, CoreError>)
    requires
        layout_ok(layout),
    ensures
        match horizontal_bands(bytes@, width as int, height as int, bands as int, layout) {
            Ok(v) => r matches Ok(x) && x@ == v,
            Err(m) => r matches Err(CoreError::GStreamer(e)) && e@ == m,
        },
{
    if width == 0 || height == 0 || bands == 0 {
        let mut m = String::new();
        push_str_chars(&mut m, "invalid RGB bands request: ");
        let a = decimal(width);
        push_chars(&mut m, &a);
        push_str_chars(&mut m, "x");
        let b = decimal(height);
        push_chars(&mut m, &b);
        push_str_chars(&mut m, ", bands=");
        let c = decimal(bands);
        push_chars(&mut m, &c);
        return Err(CoreError::GStreamer(m));
    }
    validate_frame_len(bytes, width, height, layout)?;
    let mut averages: Vec<RgbAverage> = Vec::new();
    let mut k: usize = 0;
    while k < bands
        invariant
            0 <= k <= bands,
            width > 0,
            height > 0,
            layout_ok(layout),
            frame_fits(bytes@.len() as int, width as int, height as int, layout),
            frame_len_error(bytes@.len() as int, width as int, height as int, layout) is None,
            band_averages(bytes@, width as int, height as int, bands as int, layout, k as int)
                == Ok::<Seq<RgbAverage>, Seq<char>>(averages@),
        decreases bands - k,
    {
        proof {
            lemma_band_bounds(k as int, width as int, bands as int);
            assert((k + 1) * width <= bands * width) by (nonlinear_arith)
                requires
                    k + 1 <= bands,
                    width >= 0,
            ;
            assert(k * width <= (k + 1) * width <= 0xffff_ffff_ffff_ffff_ffff_ffff_ffff_ffff) by (nonlinear_arith)
                requires
                    k + 1 <= 0xffff_ffff_ffff_ffff,
                    width <= 0xffff_ffff_ffff_ffff,
                    k >= 0,
                    width >= 0,
            ;
        }
        let start_x = ((k as u128) * (width as u128) / (bands as u128)) as usize;
        let end_x = (((k + 1) as u128) * (width as u128) / (bands as u128)) as usize;
        match average_rgb_region(bytes, width, height, start_x, end_x, layout) {
            Ok(a) => {
                averages.push(a);
            },
            Err(e) => {
                proof {
                    lemma_band_error_persists(bytes@, width as int, height as int, bands as int, layout, k as int + 1);
                }
                return Err(e);
            },
        }
        k = k + 1;
    }
    Ok(averages)
}

/// Once a band is refused, all bands are.
proof fn lemma_band_error_persists(b: Seq<u8>, w: int, h: int, n: int, l: PixelLayout, k: int)
    requires
        0 <= k <= n,
        band_averages(b, w, h, n, l, k) is Err,
    ensures
        band_averages(b, w, h, n, l, n) == band_averages(b, w, h, n, l, k),
    decreases n - k,
{
    if k < n {
        lemma_band_error_persists(b, w, h, n, l, k + 1);
    }
}

/// Sample `i` of `samples` along `size` pixels.
pub open spec fn scale_index(i: int, size: int, samples: int) -> int {
    i * size / samples
}

/// A sample index lands on a pixel.
pub proof fn lemma_scale_index_bounds(i: int, size: int, samples: int)
    requires
        0 <= i < samples,
        size > 0,
    ensures
        0 <= scale_index(i, size, samples) < size,
{
    assert(i * size <= samples * size - size) by (nonlinear_arith)
        requires
            0 <= i < samples,
            size > 0,
    ;
    assert(0 <= i * size) by (nonlinear_arith)
        requires
            0 <= i,
            size > 0,
    ;
    assert((i * size) / samples < size) by (nonlinear_arith)
        requires
            0 <= i * size <= samples * size - size,
            samples > 0,
            size > 0,
    ;
    assert(0 <= (i * size) / samples) by (nonlinear_arith)
        requires
            0 <= i * size,
            samples > 0,
    ;
}

/// The bytes at offset `off` of samples `sx0..sx1` of sample row `sy`, added up.
pub open spec fn sampled_row_sum(b: Seq<u8>, w: int, h: int, l: PixelLayout, off: int, sw: int, sh: int, sy: int, sx0: int, sx1: int) -> int
    decreases sx1 - sx0,
{
    if sx1 <= sx0 {
        0
    } else {
        sampled_row_sum(b, w, h, l, off, sw, sh, sy, sx0, sx1 - 1) + byte_at(
            b,
            w,
            l,
            scale_index(sx1 - 1, w, sw),
            scale_index(sy, h, sh),
            off,
        )
    }
}

/// The bytes at offset `off` of samples `sx0..sx1` of sample rows `sy0..sy1`, added up.
pub open spec fn sampled_area_sum(b: Seq<u8>, w: int, h: int, l: PixelLayout, off: int, sw: int, sh: int, sy0: int, sy1: int, sx0: int, sx1: int) -> int
    decreases sy1 - sy0,
{
    if sy1 <= sy0 {
        0
    } else {
        sampled_area_sum(b, w, h, l, off, sw, sh, sy0, sy1 - 1, sx0, sx1) + sampled_row_sum(
            b,
            w,
            h,
            l,
            off,
            sw,
            sh,
            sy1 - 1,
            sx0,
            sx1,
        )
    }
}

proof fn lemma_sampled_row_sum_bounds(b: Seq<u8>, w: int, h: int, l: PixelLayout, off: int, sw: int, sh: int, sy: int, sx0: int, sx1: int)
    requires
        sx0 <= sx1,
    ensures
        0 <= sampled_row_sum(b, w, h, l, off, sw, sh, sy, sx0, sx1) <= 255 * (sx1 - sx0),
    decreases sx1 - sx0,
{
    if sx1 > sx0 {
        lemma_sampled_row_sum_bounds(b, w, h, l, off, sw, sh, sy, sx0, sx1 - 1);
    }
}

proof fn lemma_sampled_area_sum_bounds(b: Seq<u8>, w: int, h: int, l: PixelLayout, off: int, sw: int, sh: int, sy0: int, sy1: int, sx0: int, sx1: int)
    requires
        sy0 <= sy1,
        sx0 <= sx1,
    ensures
        0 <= sampled_area_sum(b, w, h, l, off, sw, sh, sy0, sy1, sx0, sx1) <= 255 * ((sy1 - sy0) * (sx1 - sx0)),
    decreases sy1 - sy0,
{
    if sy1 > sy0 {
        lemma_sampled_area_sum_bounds(b, w, h, l, off, sw, sh, sy0, sy1 - 1, sx0, sx1);
        lemma_sampled_row_sum_bounds(b, w, h, l, off, sw, sh, sy1 - 1, sx0, sx1);
        assert(255 * ((sy1 - 1 - sy0) * (sx1 - sx0)) + 255 * (sx1 - sx0) == 255 * ((sy1 - sy0) * (
        sx1 - sx0))) by (nonlinear_arith);
    }
}

/// `scale_index` on machine integers.
fn scale(i: usize, size: usize, samples: usize) -> (r: usize)
    requires
        i < samples,
        size > 0,
    ensures
        r == scale_index(i as int, size as int, samples as int),
        r < size,
{
    proof {
        lemma_scale_index_bounds(i as int, size as int, samples as int);
        assert(i * size <= 0xffff_ffff_ffff_ffff_ffff_ffff_ffff_ffff) by (nonlinear_arith)
            requires
                i <= 0xffff_ffff_ffff_ffff,
                size <= 0xffff_ffff_ffff_ffff,
                i >= 0,
                size >= 0,
        ;
    }
    ((i as u128) * (size as u128) / (samples as u128)) as usize
}

/// The channel sums over samples `sx0..sx1` of sample rows `sy0..sy1`.
fn sum_sampled_area(bytes: &[u8], width: usize, height: usize, layout: PixelLayout, sw: usize, sh: usize, sy0: usize, sy1: usize, sx0: usize, sx1: usize) -> (r: (u128, u128, u128))
    requires
        layout_ok(layout),
        frame_fits(bytes@.len() as int, width as int, height as int, layout),
        width > 0,
        height > 0,
        sy0 <= sy1 <= sh,
        sx0 <= sx1 <= sw,
        (sy1 - sy0) * (sx1 - sx0) <= 0x3_ffff_ffff_ffff_ffff,
    ensures
        r.0 == sampled_area_sum(bytes@, width as int, height as int, layout, layout.red_offset as int, sw as int, sh as int, sy0 as int, sy1 as int, sx0 as int, sx1 as int),
        r.1 == sampled_area_sum(bytes@, width as int, height as int, layout, layout.green_offset as int, sw as int, sh as int, sy0 as int, sy1 as int, sx0 as int, sx1 as int),
        r.2 == sampled_area_sum(bytes@, width as int, height as int, layout, layout.blue_offset as int, sw as int, sh as int, sy0 as int, sy1 as int, sx0 as int, sx1 as int),
{
    let ghost b = bytes@;
    let ghost w = width as int;
    let ghost h = height as int;
    let len = bytes.len();
    let mut red: u128 = 0;
    let mut green: u128 = 0;
    let mut blue: u128 = 0;
    let mut sy = sy0;
    while sy < sy1
        invariant
            sy0 <= sy <= sy1 <= sh,
            sx0 <= sx1 <= sw,
            width > 0,
            height > 0,
            layout_ok(layout),
            frame_fits(bytes@.len() as int, width as int, height as int, layout),
            (sy1 - sy0) * (sx1 - sx0) <= 0x3_ffff_ffff_ffff_ffff,
            b == bytes@,
            w == width,
            h == height,
            len == bytes@.len(),
            red == sampled_area_sum(b, w, h, layout, layout.red_offset as int, sw as int, sh as int, sy0 as int, sy as int, sx0 as int, sx1 as int),
            green == sampled_area_sum(b, w, h, layout, layout.green_offset as int, sw as int, sh as int, sy0 as int, sy as int, sx0 as int, sx1 as int),
            blue == sampled_area_sum(b, w, h, layout, layout.blue_offset as int, sw as int, sh as int, sy0 as int, sy as int, sx0 as int, sx1 as int),
        decreases sy1 - sy,
    {
        let y = scale(sy, height, sh);
        let mut rr: u128 = 0;
        let mut gg: u128 = 0;
        let mut bb: u128 = 0;
        let mut sx = sx0;
        while sx < sx1
            invariant
                sy0 <= sy < sy1 <= sh,
                sx0 <= sx <= sx1 <= sw,
                width > 0,
                height > 0,
                y < height,
                y == scale_index(sy as int, h, sh as int),
                layout_ok(layout),
                frame_fits(bytes@.len() as int, width as int, height as int, layout),
                b == bytes@,
                w == width,
                h == height,
                len == bytes@.len(),
                rr == sampled_row_sum(b, w, h, layout, layout.red_offset as int, sw as int, sh as int, sy as int, sx0 as int, sx as int),
                gg == sampled_row_sum(b, w, h, layout, layout.green_offset as int, sw as int, sh as int, sy as int, sx0 as int, sx as int),
                bb == sampled_row_sum(b, w, h, layout, layout.blue_offset as int, sw as int, sh as int, sy as int, sx0 as int, sx as int),
            decreases sx1 - sx,
        {
            let x = scale(sx, width, sw);
            proof {
                lemma_pixel_in_frame(w, h, layout.bytes_per_pixel as int, x as int, y as int, layout.red_offset as int);
                lemma_pixel_in_frame(w, h, layout.bytes_per_pixel as int, x as int, y as int, layout.green_offset as int);
                lemma_pixel_in_frame(w, h, layout.bytes_per_pixel as int, x as int, y as int, layout.blue_offset as int);
                lemma_sampled_row_sum_bounds(b, w, h, layout, layout.red_offset as int, sw as int, sh as int, sy as int, sx0 as int, sx as int);
                lemma_sampled_row_sum_bounds(b, w, h, layout, layout.green_offset as int, sw as int, sh as int, sy as int, sx0 as int, sx as int);
                lemma_sampled_row_sum_bounds(b, w, h, layout, layout.blue_offset as int, sw as int, sh as int, sy as int, sx0 as int, sx as int);
                assert(sx - sx0 <= 0xffff_ffff_ffff_ffff);
            }
            let base = (y * width + x) * layout.bytes_per_pixel;
            rr = rr + bytes[base + layout.red_offset] as u128;
            gg = gg + bytes[base + layout.green_offset] as u128;
            bb = bb + bytes[base + layout.blue_offset] as u128;
            sx = sx + 1;
        }
        proof {
            lemma_sampled_row_sum_bounds(b, w, h, layout, layout.red_offset as int, sw as int, sh as int, sy as int, sx0 as int, sx1 as int);
            lemma_sampled_row_sum_bounds(b, w, h, layout, layout.green_offset as int, sw as int, sh as int, sy as int, sx0 as int, sx1 as int);
            lemma_sampled_row_sum_bounds(b, w, h, layout, layout.blue_offset as int, sw as int, sh as int, sy as int, sx0 as int, sx1 as int);
            lemma_sampled_area_sum_bounds(b, w, h, layout, layout.red_offset as int, sw as int, sh as int, sy0 as int, sy as int, sx0 as int, sx1 as int);
            lemma_sampled_area_sum_bounds(b, w, h, layout, layout.green_offset as int, sw as int, sh as int, sy0 as int, sy as int, sx0 as int, sx1 as int);
            lemma_sampled_area_sum_bounds(b, w, h, layout, layout.blue_offset as int, sw as int, sh as int, sy0 as int, sy as int, sx0 as int, sx1 as int);
            assert((sy - sy0) * (sx1 - sx0) + (sx1 - sx0) <= (sy1 - sy0) * (sx1 - sx0)) by (nonlinear_arith)
                requires
                    0 <= sy - sy0,
                    sy - sy0 + 1 <= sy1 - sy0,
                    0 <= sx1 - sx0,
            ;
        }
        red = red + rr;
        green = green + gg;
        blue = blue + bb;
        sy = sy + 1;
    }
    (red, green, blue)
}

/// The average color of samples `sx0..sx1` of sample rows `sy0..sy1`.
pub open spec fn sampled_average(b: Seq<u8>, w: int, h: int, l: PixelLayout, sw: int, sh: int, sy0: int, sy1: int, sx0: int, sx1: int) -> RgbAverage {
    let n = (sy1 - sy0) * (sx1 - sx0);
    RgbAverage {
        red: mean(sampled_area_sum(b, w, h, l, l.red_offset as int, sw, sh, sy0, sy1, sx0, sx1), n),
        green: mean(sampled_area_sum(b, w, h, l, l.green_offset as int, sw, sh, sy0, sy1, sx0, sx1), n),
        blue: mean(sampled_area_sum(b, w, h, l, l.blue_offset as int, sw, sh, sy0, sy1, sx0, sx1), n),
    }
}

/// The averages of a sampled area, given its channel sums.
fn sampled_average_of(bytes: &[u8], width: usize, height: usize, layout: PixelLayout, sw: usize, sh: usize, sy0: usize, sy1: usize, sx0: usize, sx1: usize) -> (r: RgbAverage)
    requires
        layout_ok(layout),
        frame_fits(bytes@.len() as int, width as int, height as int, layout),
        width > 0,
        height > 0,
        sy0 < sy1 <= sh,
        sx0 < sx1 <= sw,
        (sy1 - sy0) * (sx1 - sx0) <= 0x3_ffff_ffff_ffff_ffff,
    ensures
        r == sampled_average(bytes@, width as int, height as int, layout, sw as int, sh as int, sy0 as int, sy1 as int, sx0 as int, sx1 as int),
{
    let (red, green, blue) = sum_sampled_area(bytes, width, height, layout, sw, sh, sy0, sy1, sx0, sx1);
    proof {
        let ghost b = bytes@;
        lemma_sampled_area_sum_bounds(b, width as int, height as int, layout, layout.red_offset as int, sw as int, sh as int, sy0 as int, sy1 as int, sx0 as int, sx1 as int);
        lemma_sampled_area_sum_bounds(b, width as int, height as int, layout, layout.green_offset as int, sw as int, sh as int, sy0 as int, sy1 as int, sx0 as int, sx1 as int);
        lemma_sampled_area_sum_bounds(b, width as int, height as int, layout, layout.blue_offset as int, sw as int, sh as int, sy0 as int, sy1 as int, sx0 as int, sx1 as int);
        assert((sy1 - sy0) * (sx1 - sx0) >= 1) by (nonlinear_arith)
            requires
                sy1 - sy0 >= 1,
                sx1 - sx0 >= 1,
        ;
    }
    let n = ((sy1 - sy0) as u128) * ((sx1 - sx0) as u128);
    average_of(red, green, blue, n)
}

/// The message for a sampled band that is empty or leaves the sampling grid.
pub open spec fn sampled_band_message(start: int, end: int, sw: int) -> Seq<char> {
    "invalid sampled RGB band: start_sx="@ + nat_decimal(start as nat) + ", end_sx="@
        + nat_decimal(end as nat) + ", sample_width="@ + nat_decimal(sw as nat)
}

/// The average of sample columns `start..end` over all sample rows, or the refusal of an
/// empty or too wide range.
pub open spec fn sampled_band(b: Seq<u8>, w: int, h: int, start: int, end: int, sw: int, sh: int, l: PixelLayout) -> Result<RgbAverage, Seq<char>> {
    if start >= end || end > sw {
        Err(sampled_band_message(start, end, sw))
    } else {
        Ok(sampled_average(b, w, h, l, sw, sh, 0, sh, start, end))
    }
}

/// The average of sample columns `start_sx..end_sx` over all `sample_height` sample rows.
fn average_rgb_sampled_band(bytes: &[u8], width: usize, height: usize, start_sx: usize, end_sx: usize, sample_width: usize, sample_height: usize, layout: PixelLayout) -> (r: Result<RgbAverage, CoreError>)
    requires
        layout_ok(layout),
        frame_fits(bytes@.len() as int, width as int, height as int, layout),
        width > 0,
        height > 0,
        0 < sample_height <= height,
        width * height <= usize::MAX,
        start_sx < end_sx ==> end_sx - start_sx <= width + 1,
    ensures
        match sampled_band(bytes@, width as int, height as int, start_sx as int, end_sx as int, sample_width as int, sample_height as int, layout) {
            Ok(a) => r == Ok::<RgbAverage, CoreError>(a),
            Err(m) => r matches Err(CoreError::GStreamer(e)) && e@ == m,
        },
{
    if start_sx >= end_sx || end_sx > sample_width {
        let mut m = String::new();
        push_str_chars(&mut m, "invalid sampled RGB band: start_sx=");
        let a = decimal(start_sx);
        push_chars(&mut m, &a);
        push_str_chars(&mut m, ", end_sx=");
        let b = decimal(end_sx);
        push_chars(&mut m, &b);
        push_str_chars(&mut m, ", sample_width=");
        let c = decimal(sample_width);
        push_chars(&mut m, &c);
        return Err(CoreError::GStreamer(m));
    }
    proof {
        assert(sample_height * (end_sx - start_sx) <= height * (width + 1)) by (nonlinear_arith)
            requires
                0 < sample_height <= height,
                0 < end_sx - start_sx <= width + 1,
        ;
        assert(height * (width + 1) == width * height + height) by (nonlinear_arith);
    }
    Ok(sampled_average_of(bytes, width, height, layout, sample_width, sample_height, 0, sample_height, start_sx, end_sx))
}

/// The message for a sampled bands request with a zero size.
pub open spec fn sampled_bands_message(w: int, h: int, bands: int, sw: int, sh: int) -> Seq<char> {
    "invalid sampled RGB bands request: "@ + nat_decimal(w as nat) + "x"@ + nat_decimal(h as nat)
        + ", bands="@ + nat_decimal(bands as nat) + ", sample="@ + nat_decimal(sw as nat) + "x"@
        + nat_decimal(sh as nat)
}

/// The results of sampled bands `0..k`, stopping at the first refusal.
pub open spec fn sampled_band_averages(b: Seq<u8>, w: int, h: int, n: int, l: PixelLayout, sw: int, sh: int, k: int) -> Result<Seq<RgbAverage>, Seq<char>>
    decreases k,
{
    if k <= 0 {
        Ok(Seq::empty())
    } else {
        match sampled_band_averages(b, w, h, n, l, sw, sh, k - 1) {
            Err(e) => Err(e),
            Ok(prev) => match sampled_band(b, w, h, band_start(k - 1, sw, n), band_start(k, sw, n), sw, sh, l) {
                Ok(a) => Ok(prev.push(a)),
                Err(e) => Err(e),
            },
        }
    }
}

/// The sampling grid width of a bands request: at most the frame width, at least one
/// sample per band.
pub open spec fn bands_grid_width(w: int, bands: int, sw: int) -> int {
    let m = if sw <= w { sw } else { w };
    if m >= bands { m } else { bands }
}

/// The average colors of `bands` vertical bands on a `sw` by `sh` sampling grid.
pub open spec fn horizontal_bands_sampled(b: Seq<u8>, w: int, h: int, bands: int, l: PixelLayout, sw: int, sh: int) -> Result<Seq<RgbAverage>, Seq<char>> {
    if w == 0 || h == 0 || bands == 0 || sw == 0 || sh == 0 {
        Err(sampled_bands_message(w, h, bands, sw, sh))
    } else {
        match frame_len_error(b.len() as int, w, h, l) {
            Some(m) => Err(m),
            None => sampled_band_averages(
                b,
                w,
                h,
                bands,
                l,
                bands_grid_width(w, bands, sw),
                if sh <= h { sh } else { h },
                bands,
            ),
        }
    }
}

/// Once a sampled band is refused, all bands are.
proof fn lemma_sampled_band_error_persists(b: Seq<u8>, w: int, h: int, n: int, l: PixelLayout, sw: int, sh: int, k: int)
    requires
        0 <= k <= n,
        sampled_band_averages(b, w, h, n, l, sw, sh, k) is Err,
    ensures
        sampled_band_averages(b, w, h, n, l, sw, sh, n) == sampled_band_averages(b, w, h, n, l, sw, sh, k),
    decreases n - k,
{
    if k < n {
        lemma_sampled_band_error_persists(b, w, h, n, l, sw, sh, k + 1);
    }
}

/// A band of a grid at most as wide as the frame, or with one sample per band, spans at
/// most one column more than the frame.
proof fn lemma_band_width(k: int, s: int, n: int, w: int)
    requires
        0 <= k < n,
        w >= 1,
        1 <= s,
        s <= w || s == n,
    ensures
        band_start(k + 1, s, n) - band_start(k, s, n) <= w + 1,
{
    lemma_band_bounds(k, s, n);
    if s == n {
        vstd::arithmetic::div_mod::lemma_div_by_multiple(k, n);
        vstd::arithmetic::div_mod::lemma_div_by_multiple(k + 1, n);
    }
}

/// The average colors of `bands` vertical bands, sampled on a grid of `sample_width` by
/// `sample_height` points (clamped to the frame, with at least one column per band).
pub fn average_rgb_horizontal_bands_sampled(bytes: &[u8], width: usize, height: usize, bands: usize, layout: PixelLayout, sample_width: usize, sample_height: usize) -> (r: Result<Vec<RgbAverage>, CoreError>)
    requires
        layout_ok(layout),
    ensures
        match horizontal_bands_sampled(bytes@, width as int, height as int, bands as int, layout, sample_width as int, sample_height as int) {
            Ok(v) => r matches Ok(x) && x@ == v,
            Err(m) => r matches Err(CoreError::GStreamer(e)) && e@ == m,
        },
{
    if width == 0 || height == 0 || bands == 0 || sample_width == 0 || sample_height == 0 {
        let mut m = String::new();
        push_str_chars(&mut m, "invalid sampled RGB bands request: ");
        let a = decimal(width);
        push_chars(&mut m, &a);
        push_str_chars(&mut m, "x");
        let b = decimal(height);
        push_chars(&mut m, &b);
        push_str_chars(&mut m, ", bands=");
        let c = decimal(bands);
        push_chars(&mut m, &c);
        push_str_chars(&mut m, ", sample=");
        let d = decimal(sample_width);
        push_chars(&mut m, &d);
        push_str_chars(&mut m, "x");
        let e = decimal(sample_height);
        push_chars(&mut m, &e);
        return Err(CoreError::GStreamer(m));
    }
    validate_frame_len(bytes, width, height, layout)?;
    let len = bytes.len();
    proof {
        lemma_frame_pixels(bytes@.len() as int, width as int, height as int, layout);
    }
    let clamped = if sample_width <= width { sample_width } else { width };
    let sw = if clamped >= bands { clamped } else { bands };
    let sh = if sample_height <= height { sample_height } else { height };
    let mut averages: Vec<RgbAverage> = Vec::new();
    let mut k: usize = 0;
    while k < bands
        invariant
            0 <= k <= bands,
            width > 0,
            height > 0,
            0 < sh <= height,
            sample_width > 0,
            sample_height > 0,
            sh == (if sample_height <= height { sample_height } else { height }),
            sw == bands_grid_width(width as int, bands as int, sample_width as int),
            sw >= 1,
            sw <= width || sw == bands,
            width * height <= usize::MAX,
            layout_ok(layout),
            frame_fits(bytes@.len() as int, width as int, height as int, layout),
            frame_len_error(bytes@.len() as int, width as int, height as int, layout) is None,
            sampled_band_averages(bytes@, width as int, height as int, bands as int, layout, sw as int, sh as int, k as int)
                == Ok::<Seq<RgbAverage>, Seq<char>>(averages@),
        decreases bands - k,
    {
        proof {
            lemma_band_bounds(k as int, sw as int, bands as int);
            lemma_band_width(k as int, sw as int, bands as int, width as int);
            assert(k * sw <= (k + 1) * sw <= 0xffff_ffff_ffff_ffff_ffff_ffff_ffff_ffff) by (nonlinear_arith)
                requires
                    k + 1 <= 0xffff_ffff_ffff_ffff,
                    sw <= 0xffff_ffff_ffff_ffff,
                    k >= 0,
                    sw >= 0,
            ;
        }
        let start_sx = ((k as u128) * (sw as u128) / (bands as u128)) as usize;
        let end_sx = (((k + 1) as u128) * (sw as u128) / (bands as u128)) as usize;
        match average_rgb_sampled_band(bytes, width, height, start_sx, end_sx, sw, sh, layout) {
            Ok(a) => {
                averages.push(a);
            },
            Err(e) => {
                proof {
                    lemma_sampled_band_error_persists(bytes@, width as int, height as int, bands as int, layout, sw as int, sh as int, k as int + 1);
                }
                return Err(e);
            },
        }
        k = k + 1;
    }
    Ok(averages)
}

/// The sample radii around a point: a 24th of the grid width and a 14th of its height,
/// at least one sample each.
pub open spec fn sample_radius(sw: int, sh: int) -> (int, int) {
    (if sw / 24 >= 1 { sw / 24 } else { 1 }, if sh / 14 >= 1 { sh / 14 } else { 1 })
}

/// The sample radii around a point on a `sample_width` by `sample_height` grid.
pub fn point_sample_radius(sample_width: usize, sample_height: usize) -> (r: (usize, usize))
    ensures
        (r.0 as int, r.1 as int) == sample_radius(sample_width as int, sample_height as int),
{
    let rx = sample_width / 24;
    let ry = sample_height / 14;
    (if rx >= 1 { rx } else { 1 }, if ry >= 1 { ry } else { 1 })
}

/// The first and last sample of a window of radius `r` around `c`, inside `0..size`.
pub open spec fn window(c: int, r: int, size: int) -> (int, int) {
    (if c >= r { c - r } else { 0 }, if c + r <= size - 1 { c + r } else { size - 1 })
}

/// The average color of the samples within `radius_x` and `radius_y` of the sample
/// `(center_sx, center_sy)`, on a grid no larger than the frame.
pub open spec fn window_average(b: Seq<u8>, w: int, h: int, l: PixelLayout, sw: int, sh: int, cx: int, cy: int, rx: int, ry: int) -> RgbAverage {
    let (x0, x1) = window(cx, rx, sw);
    let (y0, y1) = window(cy, ry, sh);
    sampled_average(b, w, h, l, sw, sh, y0, y1 + 1, x0, x1 + 1)
}

/// The average color of the samples around one sample of the grid.
pub fn average_rgb_sample_window(bytes: &[u8], width: usize, height: usize, layout: PixelLayout, sample_width: usize, sample_height: usize, center_sx: usize, center_sy: usize, radius_x: usize, radius_y: usize) -> (r: RgbAverage)
    requires
        layout_ok(layout),
        frame_fits(bytes@.len() as int, width as int, height as int, layout),
        0 < sample_width <= width,
        0 < sample_height <= height,
        center_sx < sample_width,
        center_sy < sample_height,
    ensures
        r == window_average(bytes@, width as int, height as int, layout, sample_width as int, sample_height as int, center_sx as int, center_sy as int, radius_x as int, radius_y as int),
{
    let len = bytes.len();
    proof {
        lemma_frame_pixels(bytes@.len() as int, width as int, height as int, layout);
    }
    let start_sx = if center_sx >= radius_x { center_sx - radius_x } else { 0 };
    let end_sx = if radius_x <= sample_width - 1 - center_sx { center_sx + radius_x } else { sample_width - 1 };
    let start_sy = if center_sy >= radius_y { center_sy - radius_y } else { 0 };
    let end_sy = if radius_y <= sample_height - 1 - center_sy { center_sy + radius_y } else { sample_height - 1 };
    proof {
        assert((end_sy + 1 - start_sy) * (end_sx + 1 - start_sx) <= width * height) by (nonlinear_arith)
            requires
                0 < end_sy + 1 - start_sy <= sample_height <= height,
                0 < end_sx + 1 - start_sx <= sample_width <= width,
        ;
    }
    sampled_average_of(bytes, width, height, layout, sample_width, sample_height, start_sy, end_sy + 1, start_sx, end_sx + 1)
}

/// The luma of pixel `(x, y)`: `(54 red + 183 green + 19 blue) / 256`.
pub open spec fn luma_at(b: Seq<u8>, w: int, l: PixelLayout, x: int, y: int) -> int {
    (byte_at(b, w, l, x, y, l.red_offset as int) * 54 + byte_at(b, w, l, x, y, l.green_offset as int)
        * 183 + byte_at(b, w, l, x, y, l.blue_offset as int) * 19) / 256
}

/// The luma weights add up to one: a gray pixel, whose three color bytes are equal, has that
/// byte as its luma; and the luma of any pixel lies between its darkest and its brightest
/// color byte.
pub proof fn law_gray_pixel_luma_is_its_level(b: Seq<u8>, w: int, l: PixelLayout, x: int, y: int)
    ensures
        ({
            let r = byte_at(b, w, l, x, y, l.red_offset as int);
            let g = byte_at(b, w, l, x, y, l.green_offset as int);
            let bl = byte_at(b, w, l, x, y, l.blue_offset as int);
            &&& (r == g && g == bl) ==> luma_at(b, w, l, x, y) == r
            &&& (r <= g && r <= bl) ==> r <= luma_at(b, w, l, x, y)
            &&& (g <= r && g <= bl) ==> g <= luma_at(b, w, l, x, y)
            &&& (bl <= r && bl <= g) ==> bl <= luma_at(b, w, l, x, y)
            &&& (r >= g && r >= bl) ==> luma_at(b, w, l, x, y) <= r
            &&& (g >= r && g >= bl) ==> luma_at(b, w, l, x, y) <= g
            &&& (bl >= r && bl >= g) ==> luma_at(b, w, l, x, y) <= bl
        }),
{
    let r = byte_at(b, w, l, x, y, l.red_offset as int);
    let g = byte_at(b, w, l, x, y, l.green_offset as int);
    let bl = byte_at(b, w, l, x, y, l.blue_offset as int);
    let lo = if r <= g && r <= bl { r } else if g <= bl { g } else { bl };
    let hi = if r >= g && r >= bl { r } else if g >= bl { g } else { bl };
    assert(lo * 256 <= r * 54 + g * 183 + bl * 19 <= hi * 256);
    assert(lo <= (r * 54 + g * 183 + bl * 19) / 256 <= hi) by (nonlinear_arith)
        requires
            lo * 256 <= r * 54 + g * 183 + bl * 19 <= hi * 256,
    ;
}

/// The lumas of the first `k` samples of sample row `sy`, added up.
pub open spec fn row_luma_sum(b: Seq<u8>, w: int, h: int, l: PixelLayout, sw: int, sh: int, sy: int, k: int) -> int
    decreases k,
{
    if k <= 0 {
        0
    } else {
        row_luma_sum(b, w, h, l, sw, sh, sy, k - 1) + luma_at(
            b,
            w,
            l,
            scale_index(k - 1, w, sw),
            scale_index(sy, h, sh),
        )
    }
}

/// The lumas of the first `k` samples of sample column `sx`, added up.
pub open spec fn col_luma_sum(b: Seq<u8>, w: int, h: int, l: PixelLayout, sw: int, sh: int, sx: int, k: int) -> int
    decreases k,
{
    if k <= 0 {
        0
    } else {
        col_luma_sum(b, w, h, l, sw, sh, sx, k - 1) + luma_at(
            b,
            w,
            l,
            scale_index(sx, w, sw),
            scale_index(k - 1, h, sh),
        )
    }
}

/// The mean luma of sample row `sy`.
pub open spec fn row_luma(b: Seq<u8>, w: int, h: int, l: PixelLayout, sw: int, sh: int, sy: int) -> int {
    row_luma_sum(b, w, h, l, sw, sh, sy, sw) / sw
}

/// The mean luma of sample column `sx`.
pub open spec fn col_luma(b: Seq<u8>, w: int, h: int, l: PixelLayout, sw: int, sh: int, sx: int) -> int {
    col_luma_sum(b, w, h, l, sw, sh, sx, sh) / sh
}

/// Dark sample rows from row `k` down, as long as they stay dark.
pub open spec fn dark_rows_down(b: Seq<u8>, w: int, h: int, l: PixelLayout, sw: int, sh: int, t: int, k: int) -> int
    decreases sh - k,
{
    if 0 <= k < sh && row_luma(b, w, h, l, sw, sh, k) <= t {
        1 + dark_rows_down(b, w, h, l, sw, sh, t, k + 1)
    } else {
        0
    }
}

/// Dark sample rows from the `k`-th last row up, as long as they stay dark.
pub open spec fn dark_rows_up(b: Seq<u8>, w: int, h: int, l: PixelLayout, sw: int, sh: int, t: int, k: int) -> int
    decreases sh - k,
{
    if 0 <= k < sh && row_luma(b, w, h, l, sw, sh, sh - 1 - k) <= t {
        1 + dark_rows_up(b, w, h, l, sw, sh, t, k + 1)
    } else {
        0
    }
}

/// Dark sample columns from column `k` rightwards, as long as they stay dark.
pub open spec fn dark_cols_right(b: Seq<u8>, w: int, h: int, l: PixelLayout, sw: int, sh: int, t: int, k: int) -> int
    decreases sw - k,
{
    if 0 <= k < sw && col_luma(b, w, h, l, sw, sh, k) <= t {
        1 + dark_cols_right(b, w, h, l, sw, sh, t, k + 1)
    } else {
        0
    }
}

/// Dark sample columns from the `k`-th last column leftwards, as long as they stay dark.
pub open spec fn dark_cols_left(b: Seq<u8>, w: int, h: int, l: PixelLayout, sw: int, sh: int, t: int, k: int) -> int
    decreases sw - k,
{
    if 0 <= k < sw && col_luma(b, w, h, l, sw, sh, sw - 1 - k) <= t {
        1 + dark_cols_left(b, w, h, l, sw, sh, t, k + 1)
    } else {
        0
    }
}

/// The luma of one pixel.
fn pixel_luma(bytes: &[u8], width: usize, height: usize, layout: PixelLayout, x: usize, y: usize) -> (r: u64)
    requires
        layout_ok(layout),
        frame_fits(bytes@.len() as int, width as int, height as int, layout),
        x < width,
        y < height,
    ensures
        r == luma_at(bytes@, width as int, layout, x as int, y as int),
        r <= 255,
{
    let len = bytes.len();
    proof {
        lemma_pixel_in_frame(width as int, height as int, layout.bytes_per_pixel as int, x as int, y as int, layout.red_offset as int);
        lemma_pixel_in_frame(width as int, height as int, layout.bytes_per_pixel as int, x as int, y as int, layout.green_offset as int);
        lemma_pixel_in_frame(width as int, height as int, layout.bytes_per_pixel as int, x as int, y as int, layout.blue_offset as int);
    }
    let base = (y * width + x) * layout.bytes_per_pixel;
    let red = bytes[base + layout.red_offset] as u64;
    let green = bytes[base + layout.green_offset] as u64;
    let blue = bytes[base + layout.blue_offset] as u64;
    (red * 54 + green * 183 + blue * 19) / 256
}

/// The mean luma of sample row `sy`.
fn sampled_row_luma(bytes: &[u8], width: usize, height: usize, layout: PixelLayout, sample_width: usize, sample_height: usize, sy: usize) -> (r: u8)
    requires
        layout_ok(layout),
        frame_fits(bytes@.len() as int, width as int, height as int, layout),
        0 < sample_width <= width,
        0 < sample_height <= height,
        sy < sample_height,
    ensures
        r == row_luma(bytes@, width as int, height as int, layout, sample_width as int, sample_height as int, sy as int),
{
    let y = scale(sy, height, sample_height);
    let mut total: u128 = 0;
    let mut sx: usize = 0;
    while sx < sample_width
        invariant
            sx <= sample_width <= width,
            0 < sample_height <= height,
            y < height,
            y == scale_index(sy as int, height as int, sample_height as int),
            layout_ok(layout),
            frame_fits(bytes@.len() as int, width as int, height as int, layout),
            total == row_luma_sum(bytes@, width as int, height as int, layout, sample_width as int, sample_height as int, sy as int, sx as int),
            total <= 255 * sx,
        decreases sample_width - sx,
    {
        let x = scale(sx, width, sample_width);
        let v = pixel_luma(bytes, width, height, layout, x, y);
        total = total + v as u128;
        sx = sx + 1;
    }
    proof {
        lemma_mean_is_byte(total as int, sample_width as int);
    }
    (total / (sample_width as u128)) as u8
}

/// The mean luma of sample column `sx`.
fn sampled_col_luma(bytes: &[u8], width: usize, height: usize, layout: PixelLayout, sample_width: usize, sample_height: usize, sx: usize) -> (r: u8)
    requires
        layout_ok(layout),
        frame_fits(bytes@.len() as int, width as int, height as int, layout),
        0 < sample_width <= width,
        0 < sample_height <= height,
        sx < sample_width,
    ensures
        r == col_luma(bytes@, width as int, height as int, layout, sample_width as int, sample_height as int, sx as int),
{
    let x = scale(sx, width, sample_width);
    let mut total: u128 = 0;
    let mut sy: usize = 0;
    while sy < sample_height
        invariant
            sy <= sample_height <= height,
            0 < sample_width <= width,
            x < width,
            x == scale_index(sx as int, width as int, sample_width as int),
            layout_ok(layout),
            frame_fits(bytes@.len() as int, width as int, height as int, layout),
            total == col_luma_sum(bytes@, width as int, height as int, layout, sample_width as int, sample_height as int, sx as int, sy as int),
            total <= 255 * sy,
        decreases sample_height - sy,
    {
        let y = scale(sy, height, sample_height);
        let v = pixel_luma(bytes, width, height, layout, x, y);
        total = total + v as u128;
        sy = sy + 1;
    }
    proof {
        lemma_mean_is_byte(total as int, sample_height as int);
    }
    (total / (sample_height as u128)) as u8
}

/// Leading dark sample rows from the top.
fn count_dark_rows_from_top(bytes: &[u8], width: usize, height: usize, layout: PixelLayout, sample_width: usize, sample_height: usize, threshold: u8) -> (r: usize)
    requires
        layout_ok(layout),
        frame_fits(bytes@.len() as int, width as int, height as int, layout),
        0 < sample_width <= width,
        0 < sample_height <= height,
    ensures
        r == dark_rows_down(bytes@, width as int, height as int, layout, sample_width as int, sample_height as int, threshold as int, 0),
        r <= sample_height,
{
    let mut k: usize = 0;
    while k < sample_height && sampled_row_luma(bytes, width, height, layout, sample_width, sample_height, k) <= threshold
        invariant
            k <= sample_height,
            layout_ok(layout),
            frame_fits(bytes@.len() as int, width as int, height as int, layout),
            0 < sample_width <= width,
            0 < sample_height <= height,
            dark_rows_down(bytes@, width as int, height as int, layout, sample_width as int, sample_height as int, threshold as int, 0)
                == k + dark_rows_down(bytes@, width as int, height as int, layout, sample_width as int, sample_height as int, threshold as int, k as int),
        decreases sample_height - k,
    {
        k = k + 1;
    }
    k
}

/// Leading dark sample rows from the bottom.
fn count_dark_rows_from_bottom(bytes: &[u8], width: usize, height: usize, layout: PixelLayout, sample_width: usize, sample_height: usize, threshold: u8) -> (r: usize)
    requires
        layout_ok(layout),
        frame_fits(bytes@.len() as int, width as int, height as int, layout),
        0 < sample_width <= width,
        0 < sample_height <= height,
    ensures
        r == dark_rows_up(bytes@, width as int, height as int, layout, sample_width as int, sample_height as int, threshold as int, 0),
        r <= sample_height,
{
    let mut k: usize = 0;
    while k < sample_height && sampled_row_luma(bytes, width, height, layout, sample_width, sample_height, sample_height - 1 - k) <= threshold
        invariant
            k <= sample_height,
            layout_ok(layout),
            frame_fits(bytes@.len() as int, width as int, height as int, layout),
            0 < sample_width <= width,
            0 < sample_height <= height,
            dark_rows_up(bytes@, width as int, height as int, layout, sample_width as int, sample_height as int, threshold as int, 0)
                == k + dark_rows_up(bytes@, width as int, height as int, layout, sample_width as int, sample_height as int, threshold as int, k as int),
        decreases sample_height - k,
    {
        k = k + 1;
    }
    k
}

/// Leading dark sample columns from the left.
fn count_dark_cols_from_left(bytes: &[u8], width: usize, height: usize, layout: PixelLayout, sample_width: usize, sample_height: usize, threshold: u8) -> (r: usize)
    requires
        layout_ok(layout),
        frame_fits(bytes@.len() as int, width as int, height as int, layout),
        0 < sample_width <= width,
        0 < sample_height <= height,
    ensures
        r == dark_cols_right(bytes@, width as int, height as int, layout, sample_width as int, sample_height as int, threshold as int, 0),
        r <= sample_width,
{
    let mut k: usize = 0;
    while k < sample_width && sampled_col_luma(bytes, width, height, layout, sample_width, sample_height, k) <= threshold
        invariant
            k <= sample_width,
            layout_ok(layout),
            frame_fits(bytes@.len() as int, width as int, height as int, layout),
            0 < sample_width <= width,
            0 < sample_height <= height,
            dark_cols_right(bytes@, width as int, height as int, layout, sample_width as int, sample_height as int, threshold as int, 0)
                == k + dark_cols_right(bytes@, width as int, height as int, layout, sample_width as int, sample_height as int, threshold as int, k as int),
        decreases sample_width - k,
    {
        k = k + 1;
    }
    k
}

/// Leading dark sample columns from the right.
fn count_dark_cols_from_right(bytes: &[u8], width: usize, height: usize, layout: PixelLayout, sample_width: usize, sample_height: usize, threshold: u8) -> (r: usize)
    requires
        layout_ok(layout),
        frame_fits(bytes@.len() as int, width as int, height as int, layout),
        0 < sample_width <= width,
        0 < sample_height <= height,
    ensures
        r == dark_cols_left(bytes@, width as int, height as int, layout, sample_width as int, sample_height as int, threshold as int, 0),
        r <= sample_width,
{
    let mut k: usize = 0;
    while k < sample_width && sampled_col_luma(bytes, width, height, layout, sample_width, sample_height, sample_width - 1 - k) <= threshold
        invariant
            k <= sample_width,
            layout_ok(layout),
            frame_fits(bytes@.len() as int, width as int, height as int, layout),
            0 < sample_width <= width,
            0 < sample_height <= height,
            dark_cols_left(bytes@, width as int, height as int, layout, sample_width as int, sample_height as int, threshold as int, 0)
                == k + dark_cols_left(bytes@, width as int, height as int, layout, sample_width as int, sample_height as int, threshold as int, k as int),
        decreases sample_width - k,
    {
        k = k + 1;
    }
    k
}

/// Black bars found at the edges of a frame, in samples of a `sample_width` by
/// `sample_height` grid: all zero when there are none or they would cover the frame.
#[derive(Debug, Clone, Copy, PartialEq, Eq, Structural)]
pub struct BlackBars {
    pub left: usize,
    pub right: usize,
    pub top: usize,
    pub bottom: usize,
    pub sample_width: usize,
    pub sample_height: usize,
}

/// The message for a black bar request with a zero size.
pub open spec fn black_bars_message(w: int, h: int, sw: int, sh: int) -> Seq<char> {
    "invalid black bar detection request: "@ + nat_decimal(w as nat) + "x"@ + nat_decimal(h as nat)
        + ", sample="@ + nat_decimal(sw as nat) + "x"@ + nat_decimal(sh as nat)
}

/// The smaller of two sizes.
pub open spec fn min_size(a: int, b: int) -> int {
    if a <= b { a } else { b }
}

/// The black bars of a frame: edge rows and columns whose mean luma is at most `t`, counted
/// from each edge on the sampling grid (clamped to the frame); none when the bars of two
/// opposite edges would meet.
pub open spec fn black_bars(b: Seq<u8>, w: int, h: int, l: PixelLayout, sw0: int, sh0: int, t: int) -> Result<BlackBars, Seq<char>> {
    if w == 0 || h == 0 || sw0 == 0 || sh0 == 0 {
        Err(black_bars_message(w, h, sw0, sh0))
    } else {
        match frame_len_error(b.len() as int, w, h, l) {
            Some(m) => Err(m),
            None => {
                let sw = min_size(sw0, w);
                let sh = min_size(sh0, h);
                let top = dark_rows_down(b, w, h, l, sw, sh, t, 0);
                let bottom = dark_rows_up(b, w, h, l, sw, sh, t, 0);
                let left = dark_cols_right(b, w, h, l, sw, sh, t, 0);
                let right = dark_cols_left(b, w, h, l, sw, sh, t, 0);
                if top + bottom >= sh || left + right >= sw {
                    Ok(BlackBars { left: 0, right: 0, top: 0, bottom: 0, sample_width: sw as usize, sample_height: sh as usize })
                } else {
                    Ok(BlackBars {
                        left: left as usize,
                        right: right as usize,
                        top: top as usize,
                        bottom: bottom as usize,
                        sample_width: sw as usize,
                        sample_height: sh as usize,
                    })
                }
            },
        }
    }
}

/// Every sample row is dark.
pub open spec fn all_rows_dark(b: Seq<u8>, w: int, h: int, l: PixelLayout, sw: int, sh: int, t: int) -> bool {
    forall|i: int| 0 <= i < sh ==> #[trigger] row_luma(b, w, h, l, sw, sh, i) <= t
}

/// Every sample column is dark.
pub open spec fn all_cols_dark(b: Seq<u8>, w: int, h: int, l: PixelLayout, sw: int, sh: int, t: int) -> bool {
    forall|i: int| 0 <= i < sw ==> #[trigger] col_luma(b, w, h, l, sw, sh, i) <= t
}

/// `bars` are the dark runs at the edges of the frame, on its own sampling grid: when every
/// row or every column is dark (the bars would meet), there are none; else `top` rows from
/// the top edge are dark and the next row is not, and likewise from the bottom, left and
/// right edges.
pub open spec fn bars_follow_dark_edges(b: Seq<u8>, w: int, h: int, l: PixelLayout, t: int, bars: BlackBars) -> bool {
    let sw = bars.sample_width as int;
    let sh = bars.sample_height as int;
    if all_rows_dark(b, w, h, l, sw, sh, t) || all_cols_dark(b, w, h, l, sw, sh, t) {
        bars.top == 0 && bars.bottom == 0 && bars.left == 0 && bars.right == 0
    } else {
        &&& bars.top + bars.bottom < sh
        &&& bars.left + bars.right < sw
        &&& forall|i: int| 0 <= i < bars.top ==> #[trigger] row_luma(b, w, h, l, sw, sh, i) <= t
        &&& row_luma(b, w, h, l, sw, sh, bars.top as int) > t
        &&& forall|i: int| sh - bars.bottom <= i < sh ==> #[trigger] row_luma(b, w, h, l, sw, sh, i) <= t
        &&& row_luma(b, w, h, l, sw, sh, sh - 1 - bars.bottom) > t
        &&& forall|i: int| 0 <= i < bars.left ==> #[trigger] col_luma(b, w, h, l, sw, sh, i) <= t
        &&& col_luma(b, w, h, l, sw, sh, bars.left as int) > t
        &&& forall|i: int| sw - bars.right <= i < sw ==> #[trigger] col_luma(b, w, h, l, sw, sh, i) <= t
        &&& col_luma(b, w, h, l, sw, sh, sw - 1 - bars.right) > t
    }
}

/// The dark rows counted down from row `k` are a run of dark rows ended by a bright one or
/// by the last row.
proof fn lemma_dark_rows_down_run(b: Seq<u8>, w: int, h: int, l: PixelLayout, sw: int, sh: int, t: int, k: int)
    requires
        0 <= k <= sh,
    ensures
        0 <= dark_rows_down(b, w, h, l, sw, sh, t, k) <= sh - k,
        forall|i: int| k <= i < k + dark_rows_down(b, w, h, l, sw, sh, t, k)
            ==> #[trigger] row_luma(b, w, h, l, sw, sh, i) <= t,
        k + dark_rows_down(b, w, h, l, sw, sh, t, k) < sh ==> row_luma(
            b, w, h, l, sw, sh, k + dark_rows_down(b, w, h, l, sw, sh, t, k),
        ) > t,
    decreases sh - k,
{
    if k < sh && row_luma(b, w, h, l, sw, sh, k) <= t {
        lemma_dark_rows_down_run(b, w, h, l, sw, sh, t, k + 1);
    }
}

/// The dark rows counted up from the `k`-th last row are a run of dark rows ended by a
/// bright one or by the first row.
proof fn lemma_dark_rows_up_run(b: Seq<u8>, w: int, h: int, l: PixelLayout, sw: int, sh: int, t: int, k: int)
    requires
        0 <= k <= sh,
    ensures
        0 <= dark_rows_up(b, w, h, l, sw, sh, t, k) <= sh - k,
        forall|i: int| sh - k - dark_rows_up(b, w, h, l, sw, sh, t, k) <= i < sh - k
            ==> #[trigger] row_luma(b, w, h, l, sw, sh, i) <= t,
        k + dark_rows_up(b, w, h, l, sw, sh, t, k) < sh ==> row_luma(
            b, w, h, l, sw, sh, sh - 1 - k - dark_rows_up(b, w, h, l, sw, sh, t, k),
        ) > t,
    decreases sh - k,
{
    if k < sh && row_luma(b, w, h, l, sw, sh, sh - 1 - k) <= t {
        lemma_dark_rows_up_run(b, w, h, l, sw, sh, t, k + 1);
    }
}

/// The dark columns counted rightwards from column `k` are a run of dark columns ended by a
/// bright one or by the last column.
proof fn lemma_dark_cols_right_run(b: Seq<u8>, w: int, h: int, l: PixelLayout, sw: int, sh: int, t: int, k: int)
    requires
        0 <= k <= sw,
    ensures
        0 <= dark_cols_right(b, w, h, l, sw, sh, t, k) <= sw - k,
        forall|i: int| k <= i < k + dark_cols_right(b, w, h, l, sw, sh, t, k)
            ==> #[trigger] col_luma(b, w, h, l, sw, sh, i) <= t,
        k + dark_cols_right(b, w, h, l, sw, sh, t, k) < sw ==> col_luma(
            b, w, h, l, sw, sh, k + dark_cols_right(b, w, h, l, sw, sh, t, k),
        ) > t,
    decreases sw - k,
{
    if k < sw && col_luma(b, w, h, l, sw, sh, k) <= t {
        lemma_dark_cols_right_run(b, w, h, l, sw, sh, t, k + 1);
    }
}

/// The dark columns counted leftwards from the `k`-th last column are a run of dark columns
/// ended by a bright one or by the first column.
proof fn lemma_dark_cols_left_run(b: Seq<u8>, w: int, h: int, l: PixelLayout, sw: int, sh: int, t: int, k: int)
    requires
        0 <= k <= sw,
    ensures
        0 <= dark_cols_left(b, w, h, l, sw, sh, t, k) <= sw - k,
        forall|i: int| sw - k - dark_cols_left(b, w, h, l, sw, sh, t, k) <= i < sw - k
            ==> #[trigger] col_luma(b, w, h, l, sw, sh, i) <= t,
        k + dark_cols_left(b, w, h, l, sw, sh, t, k) < sw ==> col_luma(
            b, w, h, l, sw, sh, sw - 1 - k - dark_cols_left(b, w, h, l, sw, sh, t, k),
        ) > t,
    decreases sw - k,
{
    if k < sw && col_luma(b, w, h, l, sw, sh, sw - 1 - k) <= t {
        lemma_dark_cols_left_run(b, w, h, l, sw, sh, t, k + 1);
    }
}

/// The black bars found in a frame are its dark edge runs: the sampling grid is the requested
/// one clamped to the frame; when every sample row or every sample column is dark there are
/// no bars; else each bar is the run of dark rows (or columns) from its edge, and the row (or
/// column) just inside it is brighter than the threshold.
pub proof fn law_black_bars_are_dark_edge_runs(
    b: Seq<u8>,
    w: usize,
    h: usize,
    l: PixelLayout,
    sw0: usize,
    sh0: usize,
    t: u8,
)
    ensures
        black_bars(b, w as int, h as int, l, sw0 as int, sh0 as int, t as int) matches Ok(bars) ==> {
            &&& bars.sample_width == (if sw0 <= w { sw0 } else { w })
            &&& bars.sample_height == (if sh0 <= h { sh0 } else { h })
            &&& bars_follow_dark_edges(b, w as int, h as int, l, t as int, bars)
        },
{
    let r = black_bars(b, w as int, h as int, l, sw0 as int, sh0 as int, t as int);
    if r is Ok {
        let sw = min_size(sw0 as int, w as int);
        let sh = min_size(sh0 as int, h as int);
        let ti = t as int;
        lemma_dark_rows_down_run(b, w as int, h as int, l, sw, sh, ti, 0);
        lemma_dark_rows_up_run(b, w as int, h as int, l, sw, sh, ti, 0);
        lemma_dark_cols_right_run(b, w as int, h as int, l, sw, sh, ti, 0);
        lemma_dark_cols_left_run(b, w as int, h as int, l, sw, sh, ti, 0);
        let top = dark_rows_down(b, w as int, h as int, l, sw, sh, ti, 0);
        let bottom = dark_rows_up(b, w as int, h as int, l, sw, sh, ti, 0);
        let left = dark_cols_right(b, w as int, h as int, l, sw, sh, ti, 0);
        let right = dark_cols_left(b, w as int, h as int, l, sw, sh, ti, 0);
        let rows = all_rows_dark(b, w as int, h as int, l, sw, sh, ti);
        let cols = all_cols_dark(b, w as int, h as int, l, sw, sh, ti);
        if rows {
            assert(top + bottom >= sh) by {
                if top < sh {
                    assert(row_luma(b, w as int, h as int, l, sw, sh, top) <= ti);
                }
            }
        } else {
            let i = choose|i: int| 0 <= i < sh && !(#[trigger] row_luma(b, w as int, h as int, l, sw, sh, i) <= ti);
            assert(top <= i);
            assert(i < sh - bottom);
            assert(top + bottom < sh);
        }
        if cols {
            assert(left + right >= sw) by {
                if left < sw {
                    assert(col_luma(b, w as int, h as int, l, sw, sh, left) <= ti);
                }
            }
        } else {
            let i = choose|i: int| 0 <= i < sw && !(#[trigger] col_luma(b, w as int, h as int, l, sw, sh, i) <= ti);
            assert(left <= i);
            assert(i < sw - right);
            assert(left + right < sw);
        }
    }
}

/// Detects black bars at the edges of a frame, sampled on a grid of `sample_width` by
/// `sample_height` points; rows and columns whose mean luma is at most `threshold` are dark.
pub fn detect_black_bar_counts(bytes: &[u8], width: usize, height: usize, layout: PixelLayout, sample_width: usize, sample_height: usize, threshold: u8) -> (r: Result<BlackBars, CoreError>)
    requires
        layout_ok(layout),
    ensures
        match black_bars(bytes@, width as int, height as int, layout, sample_width as int, sample_height as int, threshold as int) {
            Ok(v) => r == Ok::<BlackBars, CoreError>(v),
            Err(m) => r matches Err(CoreError::GStreamer(e)) && e@ == m,
        },
        r matches Ok(bars) ==> bars_follow_dark_edges(bytes@, width as int, height as int, layout, threshold as int, bars),
{
    proof {
        law_black_bars_are_dark_edge_runs(bytes@, width, height, layout, sample_width, sample_height, threshold);
    }
    if width == 0 || height == 0 || sample_width == 0 || sample_height == 0 {
        let mut m = String::new();
        push_str_chars(&mut m, "invalid black bar detection request: ");
        let a = decimal(width);
        push_chars(&mut m, &a);
        push_str_chars(&mut m, "x");
        let b = decimal(height);
        push_chars(&mut m, &b);
        push_str_chars(&mut m, ", sample=");
        let c = decimal(sample_width);
        push_chars(&mut m, &c);
        push_str_chars(&mut m, "x");
        let d = decimal(sample_height);
        push_chars(&mut m, &d);
        return Err(CoreError::GStreamer(m));
    }
    validate_frame_len(bytes, width, height, layout)?;
    let sw = if sample_width <= width { sample_width } else { width };
    let sh = if sample_height <= height { sample_height } else { height };
    let top = count_dark_rows_from_top(bytes, width, height, layout, sw, sh, threshold);
    let bottom = count_dark_rows_from_bottom(bytes, width, height, layout, sw, sh, threshold);
    let left = count_dark_cols_from_left(bytes, width, height, layout, sw, sh, threshold);
    let right = count_dark_cols_from_right(bytes, width, height, layout, sw, sh, threshold);
    if top >= sh - bottom || left >= sw - right {
        return Ok(BlackBars { left: 0, right: 0, top: 0, bottom: 0, sample_width: sw, sample_height: sh });
    }
    Ok(BlackBars { left, right, top, bottom, sample_width: sw, sample_height: sh })
}

/// The message for a sampling request with a zero size.
pub open spec fn sampling_message(kind: Seq<char>, w: int, h: int, sw: int, sh: int) -> Seq<char> {
    "invalid sampled RGB "@ + kind + " request: "@ + nat_decimal(w as nat) + "x"@ + nat_decimal(
        h as nat,
    ) + ", sample="@ + nat_decimal(sw as nat) + "x"@ + nat_decimal(sh as nat)
}

/// The sampling grid for point or region averages: the requested grid clamped to the frame,
/// or the refusal of a zero size or of a frame that is too small. `kind` names the request
/// (`points` or `regions`).
pub open spec fn sampling_grid(len: int, w: int, h: int, l: PixelLayout, sw: int, sh: int, kind: Seq<char>) -> Result<(int, int), Seq<char>> {
    if w == 0 || h == 0 || sw == 0 || sh == 0 {
        Err(sampling_message(kind, w, h, sw, sh))
    } else {
        match frame_len_error(len, w, h, l) {
            Some(m) => Err(m),
            None => Ok((min_size(sw, w), min_size(sh, h))),
        }
    }
}

/// Checks a point or region sampling request and gives the grid to sample on.
pub fn sampling_grid_for(bytes: &[u8], width: usize, height: usize, layout: PixelLayout, sample_width: usize, sample_height: usize, kind: &str) -> (r: Result<(usize, usize), CoreError>)
    requires
        layout_ok(layout),
    ensures
        match sampling_grid(bytes@.len() as int, width as int, height as int, layout, sample_width as int, sample_height as int, kind@) {
            Ok((a, b)) => r matches Ok((x, y)) && x == a && y == b && frame_fits(bytes@.len() as int, width as int, height as int, layout),
            Err(m) => r matches Err(CoreError::GStreamer(e)) && e@ == m,
        },
{
    if width == 0 || height == 0 || sample_width == 0 || sample_height == 0 {
        let mut m = String::new();
        push_str_chars(&mut m, "invalid sampled RGB ");
        push_str_chars(&mut m, kind);
        push_str_chars(&mut m, " request: ");
        let a = decimal(width);
        push_chars(&mut m, &a);
        push_str_chars(&mut m, "x");
        let b = decimal(height);
        push_chars(&mut m, &b);
        push_str_chars(&mut m, ", sample=");
        let c = decimal(sample_width);
        push_chars(&mut m, &c);
        push_str_chars(&mut m, "x");
        let d = decimal(sample_height);
        push_chars(&mut m, &d);
        return Err(CoreError::GStreamer(m));
    }
    validate_frame_len(bytes, width, height, layout)?;
    let sw = if sample_width <= width { sample_width } else { width };
    let sh = if sample_height <= height { sample_height } else { height };
    Ok((sw, sh))
}

/// The size and rate a capture is scaled to.
#[derive(Debug, Clone, Copy, PartialEq, Eq, Structural)]
pub struct CaptureProfile {
    pub width: i32,
    pub height: i32,
    pub fps: i32,
}

/// The message for a profile with a size or rate that is not positive.
pub open spec fn profile_message(w: int, h: int, fps: int) -> Seq<char> {
    "invalid capture profile: "@ + crate::text::int_decimal(w) + "x"@ + crate::text::int_decimal(h)
        + "@"@ + crate::text::int_decimal(fps)
}

impl CaptureProfile {
    /// A profile with a positive width, height and rate.
    pub fn new(width: i32, height: i32, fps: i32) -> (r: Result<CaptureProfile, CoreError>)
        ensures
            width > 0 && height > 0 && fps > 0 ==> r == Ok::<CaptureProfile, CoreError>(
                CaptureProfile { width, height, fps },
            ),
            !(width > 0 && height > 0 && fps > 0) ==> (r matches Err(CoreError::GStreamer(e)) && e@
                == profile_message(width as int, height as int, fps as int)),
    {
        if width <= 0 || height <= 0 || fps <= 0 {
            let mut m = String::new();
            push_str_chars(&mut m, "invalid capture profile: ");
            let a = crate::text::i64_decimal(width as i64);
            push_chars(&mut m, &a);
            push_str_chars(&mut m, "x");
            let b = crate::text::i64_decimal(height as i64);
            push_chars(&mut m, &b);
            push_str_chars(&mut m, "@");
            let c = crate::text::i64_decimal(fps as i64);
            push_chars(&mut m, &c);
            return Err(CoreError::GStreamer(m));
        }
        Ok(CaptureProfile { width, height, fps })
    }

    /// The sample radii around a point for this profile's size.
    pub fn point_sample_radius(self) -> (r: (usize, usize))
        ensures
            (r.0 as int, r.1 as int) == sample_radius(self.width as usize as int, self.height as usize as int),
    {
        point_sample_radius(self.width as usize, self.height as usize)
    }
}

} // verus!
