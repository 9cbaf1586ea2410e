//! Pixel formats delivered by screen-capture streams, their conversion to
//! BGRA, and detection of the non-black content of a frame.

use vstd::prelude::*;
use crate::frame::CropRegion;

verus! {

/// The byte layouts a capture stream may deliver. `Other` stands for every
/// layout that is passed on unchanged.
#[derive(Debug, Clone, Copy, PartialEq, Eq, Structural)]
pub enum PixelFormat {
    Bgra,
    Bgrx,
    Rgba,
    Rgbx,
    Argb,
    Xrgb,
    Abgr,
    Xbgr,
    Other,
}

/// For byte `k` (0 = blue, 1 = green, 2 = red, 3 = alpha) of a converted
/// pixel, the byte of the source pixel it is taken from, or `None` where the
/// converted byte is an opaque alpha of 255.
pub open spec fn bgra_source(format: PixelFormat, k: int) -> Option<int> {
    match format {
        PixelFormat::Rgba | PixelFormat::Rgbx => if k == 0 {
            Some(2)
        } else if k == 2 {
            Some(0)
        } else {
            Some(k)
        },
        PixelFormat::Argb => Some(3 - k),
        PixelFormat::Xrgb => if k == 3 {
            None
        } else {
            Some(3 - k)
        },
        PixelFormat::Abgr => if k == 3 {
            Some(0)
        } else {
            Some(k + 1)
        },
        PixelFormat::Xbgr => if k == 3 {
            None
        } else {
            Some(k + 1)
        },
        _ => Some(k),
    }
}

/// Byte `i` of the conversion of the whole pixel that holds it.
pub open spec fn converted_byte(data: Seq<u8>, format: PixelFormat, i: int) -> u8 {
    match bgra_source(format, i % 4) {
        Some(c) => data[i - i % 4 + c],
        None => 255u8,
    }
}

/// The number of bytes in the whole pixels of `len` bytes.
pub open spec fn whole_pixel_bytes(len: nat) -> nat {
    (len / 4 * 4) as nat
}

/// Frame data converted to BGRA. BGRA, BGRx and unknown layouts are kept as
/// they are; RGBA and RGBx are converted in place, keeping trailing bytes
/// that do not form a whole pixel; the other layouts are rebuilt from the
/// whole pixels only.
pub open spec fn spec_convert_to_bgra(data: Seq<u8>, format: PixelFormat) -> Seq<u8> {
    match format {
        PixelFormat::Bgra | PixelFormat::Bgrx | PixelFormat::Other => data,
        PixelFormat::Rgba | PixelFormat::Rgbx => Seq::new(
            data.len(),
            |i: int|
                if i < whole_pixel_bytes(data.len()) {
                    converted_byte(data, format, i)
                } else {
                    data[i]
                },
        ),
        _ => Seq::new(whole_pixel_bytes(data.len()), |i: int| converted_byte(data, format, i)),
    }
}

/// Swaps the first and third byte of every whole pixel.
fn swap_red_blue(data: Vec<u8>, format: PixelFormat) -> (out: Vec<u8>)
    requires
        format == PixelFormat::Rgba || format == PixelFormat::Rgbx,
    ensures
        out@ == spec_convert_to_bgra(data@, format),
{
    let mut out = data;
    let n = out.len() / 4;
    assert(4 * n <= data@.len());
    let mut j: usize = 0;
    while j < n
        invariant
            n == data@.len() / 4,
            4 * n <= data@.len() <= usize::MAX,
            j <= n,
            out@.len() == data@.len(),
            format == PixelFormat::Rgba || format == PixelFormat::Rgbx,
            forall|i: int|
                0 <= i < out@.len() ==> #[trigger] out@[i] == if i < 4 * j {
                    converted_byte(data@, format, i)
                } else {
                    data@[i]
                },
        decreases n - j,
    {
        let p = 4 * j;
        let a = out[p];
        let b = out[p + 2];
        out.set(p, b);
        out.set(p + 2, a);
        assert forall|i: int| 0 <= i < out@.len() implies #[trigger] out@[i] == if i < 4 * (j + 1) {
            converted_byte(data@, format, i)
        } else {
            data@[i]
        } by {
            if p <= i < p + 4 {
                assert(i % 4 == i - p);
                assert(i - i % 4 == p);
            }
        }
        j = j + 1;
    }
    proof {
        assert(whole_pixel_bytes(data@.len()) == 4 * n);
        assert(out@ =~= spec_convert_to_bgra(data@, format));
    }
    out
}

/// Rebuilds every whole pixel in BGRA order, dropping trailing bytes.
fn reorder_pixels(data: &Vec<u8>, format: PixelFormat) -> (out: Vec<u8>)
    requires
        format == PixelFormat::Argb || format == PixelFormat::Xrgb || format == PixelFormat::Abgr
            || format == PixelFormat::Xbgr,
    ensures
        out@ == spec_convert_to_bgra(data@, format),
{
    let (b, g, r, a): (usize, usize, usize, usize) = match format {
        PixelFormat::Argb | PixelFormat::Xrgb => (3, 2, 1, 0),
        _ => (1, 2, 3, 0),
    };
    let opaque = format == PixelFormat::Xrgb || format == PixelFormat::Xbgr;
    let n = data.len() / 4;
    assert(4 * n <= data@.len());
    let mut out: Vec<u8> = Vec::new();
    let mut j: usize = 0;
    while j < n
        invariant
            n == data@.len() / 4,
            4 * n <= data@.len() <= usize::MAX,
            j <= n,
            out@.len() == 4 * j,
            format == PixelFormat::Argb || format == PixelFormat::Xrgb || format
                == PixelFormat::Abgr || format == PixelFormat::Xbgr,
            opaque == (format == PixelFormat::Xrgb || format == PixelFormat::Xbgr),
            bgra_source(format, 0) == Some(b as int),
            bgra_source(format, 1) == Some(g as int),
            bgra_source(format, 2) == Some(r as int),
            !opaque ==> bgra_source(format, 3) == Some(a as int),
            opaque ==> bgra_source(format, 3) is None,
            b < 4 && g < 4 && r < 4 && a < 4,
            forall|i: int| 0 <= i < out@.len() ==> #[trigger] out@[i] == converted_byte(data@, format, i),
        decreases n - j,
    {
        let p = 4 * j;
        out.push(data[p + b]);
        out.push(data[p + g]);
        out.push(data[p + r]);
        if opaque {
            out.push(255u8);
        } else {
            out.push(data[p + a]);
        }
        assert forall|i: int| 0 <= i < out@.len() implies #[trigger] out@[i] == converted_byte(
            data@,
            format,
            i,
        ) by {
            if p <= i {
                assert(i % 4 == i - p);
                assert(i - i % 4 == p);
            }
        }
        j = j + 1;
    }
    proof {
        assert(whole_pixel_bytes(data@.len()) == 4 * n);
        assert(out@ =~= spec_convert_to_bgra(data@, format));
    }
    out
}

/// Convert frame data from the stream's format to BGRA (see
/// `spec_convert_to_bgra`).
pub fn convert_to_bgra(frame_data: Vec<u8>, format: PixelFormat) -> (out: Vec<u8>)
    ensures
        out@ == spec_convert_to_bgra(frame_data@, format),
{
    match format {
        PixelFormat::Bgra | PixelFormat::Bgrx | PixelFormat::Other => frame_data,
        PixelFormat::Rgba | PixelFormat::Rgbx => swap_red_blue(frame_data, format),
        _ => reorder_pixels(&frame_data, format),
    }
}

/// A pixel whose blue, green or red byte exceeds this value is content.
pub const CONTENT_THRESHOLD: u8 = 8;

/// Offset of the pixel at column `x` and row `y` of a frame of width `width`.
pub open spec fn pixel_offset(width: nat, x: nat, y: nat) -> nat {
    y * (width * 4) + x * 4
}

/// Whether the pixel at (`x`, `y`) lies within the data and is not black: one
/// of its blue, green and red bytes exceeds `CONTENT_THRESHOLD`.
pub open spec fn is_content_pixel(data: Seq<u8>, width: nat, x: nat, y: nat) -> bool {
    let i = pixel_offset(width, x, y);
    &&& i + 2 < data.len()
    &&& (data[i as int] > CONTENT_THRESHOLD || data[i + 1int] > CONTENT_THRESHOLD || data[i + 2int]
        > CONTENT_THRESHOLD)
}

/// Whether some pixel of the `width` x `height` frame is content.
pub open spec fn has_content(data: Seq<u8>, width: nat, height: nat) -> bool {
    exists|x: nat, y: nat| x < width && y < height && #[trigger] is_content_pixel(data, width, x, y)
}

/// Whether `c` is the bounding box of the content of the frame: it holds
/// every content pixel, and a content pixel lies on each of its four edges.
pub open spec fn is_content_box(data: Seq<u8>, width: nat, height: nat, c: CropRegion) -> bool {
    &&& c.x >= 0 && c.y >= 0 && c.width >= 1 && c.height >= 1
    &&& c.x + c.width <= width && c.y + c.height <= height
    &&& forall|x: nat, y: nat|
        x < width && y < height && #[trigger] is_content_pixel(data, width, x, y) ==> c.x <= x < c.x
            + c.width && c.y <= y < c.y + c.height
    &&& exists|y: nat| y < height && #[trigger] is_content_pixel(data, width, c.x as nat, y)
    &&& exists|y: nat|
        y < height && #[trigger] is_content_pixel(data, width, (c.x + c.width - 1) as nat, y)
    &&& exists|x: nat| x < width && #[trigger] is_content_pixel(data, width, x, c.y as nat)
    &&& exists|x: nat|
        x < width && #[trigger] is_content_pixel(data, width, x, (c.y + c.height - 1) as nat)
}

/// Whether a box covers at least 95% of the frame in both dimensions.
pub open spec fn nearly_full(c: CropRegion, width: nat, height: nat) -> bool {
    20 * c.width >= 19 * width && 20 * c.height >= 19 * height
}

/// A frame has at most one content box.
pub proof fn lemma_content_box_unique(data: Seq<u8>, width: nat, height: nat, a: CropRegion, b: CropRegion)
    requires
        is_content_box(data, width, height, a),
        is_content_box(data, width, height, b),
    ensures
        a == b,
{
    let ya = choose|y: nat| y < height && #[trigger] is_content_pixel(data, width, a.x as nat, y);
    let yb = choose|y: nat| y < height && #[trigger] is_content_pixel(data, width, b.x as nat, y);
    let ya2 = choose|y: nat|
        y < height && #[trigger] is_content_pixel(data, width, (a.x + a.width - 1) as nat, y);
    let yb2 = choose|y: nat|
        y < height && #[trigger] is_content_pixel(data, width, (b.x + b.width - 1) as nat, y);
    let xa = choose|x: nat| x < width && #[trigger] is_content_pixel(data, width, x, a.y as nat);
    let xb = choose|x: nat| x < width && #[trigger] is_content_pixel(data, width, x, b.y as nat);
    let xa2 = choose|x: nat|
        x < width && #[trigger] is_content_pixel(data, width, x, (a.y + a.height - 1) as nat);
    let xb2 = choose|x: nat|
        x < width && #[trigger] is_content_pixel(data, width, x, (b.y + b.height - 1) as nat);
    assert(is_content_pixel(data, width, a.x as nat, ya));
    assert(is_content_pixel(data, width, b.x as nat, yb));
    assert(is_content_pixel(data, width, (a.x + a.width - 1) as nat, ya2));
    assert(is_content_pixel(data, width, (b.x + b.width - 1) as nat, yb2));
    assert(is_content_pixel(data, width, xa, a.y as nat));
    assert(is_content_pixel(data, width, xb, b.y as nat));
    assert(is_content_pixel(data, width, xa2, (a.y + a.height - 1) as nat));
    assert(is_content_pixel(data, width, xb2, (b.y + b.height - 1) as nat));
}

/// Whether pixel (`x`, `y`) comes before column `cx` of row `cy` in row-major order.
pub open spec fn scanned(cx: nat, cy: nat, x: nat, y: nat) -> bool {
    y < cy || (y == cy && x < cx)
}

/// Detect the bounding box of non-black content in a frame. The box is
/// returned only when it is narrower or lower than 95% of the frame.
#[verifier::rlimit(50)]
pub fn detect_content_bounds(frame_data: &[u8], width: u32, height: u32) -> (r: Option<CropRegion>)
    requires
        width <= i32::MAX,
        height <= i32::MAX,
        (width as int) * 4 <= usize::MAX,
        (width as int) * (height as int) * 4 <= usize::MAX,
    ensures
        r matches Some(c) ==> is_content_box(frame_data@, width as nat, height as nat, c)
            && !nearly_full(c, width as nat, height as nat),
        r is None ==> !has_content(frame_data@, width as nat, height as nat) || exists|c: CropRegion|
            is_content_box(frame_data@, width as nat, height as nat, c) && nearly_full(
                c,
                width as nat,
                height as nat,
            ),
{
    let ghost data = frame_data@;
    let ghost w = width as nat;
    let ghost h = height as nat;
    let row_bytes: usize = width as usize * 4;
    let mut min_x: i32 = width as i32;
    let mut min_y: i32 = height as i32;
    let mut max_x: i32 = 0;
    let mut max_y: i32 = 0;
    let ghost mut found = false;
    let ghost mut wy1: nat = 0;
    let ghost mut wy2: nat = 0;
    let ghost mut wx1: nat = 0;
    let ghost mut wx2: nat = 0;
    let mut y: usize = 0;
    while y < height as usize
        invariant
            data == frame_data@,
            w == width,
            h == height,
            width <= i32::MAX,
            height <= i32::MAX,
            (width as int) * (height as int) * 4 <= usize::MAX,
            row_bytes == width * 4,
            y <= height,
            !found ==> min_x == width && max_x == 0 && min_y == height && max_y == 0,
            !found ==> forall|px: nat, py: nat|
                px < w && scanned(0, y as nat, px, py) ==> !#[trigger] is_content_pixel(
                    data,
                    w,
                    px,
                    py,
                ),
            found ==> 0 <= min_x <= max_x < width && 0 <= min_y <= max_y < height,
            found ==> forall|px: nat, py: nat|
                px < w && scanned(0, y as nat, px, py) && #[trigger] is_content_pixel(
                    data,
                    w,
                    px,
                    py,
                ) ==> min_x <= px <= max_x && min_y <= py <= max_y,
            found ==> wy1 < h && is_content_pixel(data, w, min_x as nat, wy1),
            found ==> wy2 < h && is_content_pixel(data, w, max_x as nat, wy2),
            found ==> wx1 < w && is_content_pixel(data, w, wx1, min_y as nat),
            found ==> wx2 < w && is_content_pixel(data, w, wx2, max_y as nat),
        decreases height - y,
    {
        let mut x: usize = 0;
        while x < width as usize
            invariant
                data == frame_data@,
                w == width,
                h == height,
                width <= i32::MAX,
                height <= i32::MAX,
                (width as int) * (height as int) * 4 <= usize::MAX,
                row_bytes == width * 4,
                y < height,
                x <= width,
                !found ==> min_x == width && max_x == 0 && min_y == height && max_y == 0,
                !found ==> forall|px: nat, py: nat|
                    px < w && scanned(x as nat, y as nat, px, py) ==> !#[trigger] is_content_pixel(
                        data,
                        w,
                        px,
                        py,
                    ),
                found ==> 0 <= min_x <= max_x < width && 0 <= min_y <= max_y < height,
                found ==> forall|px: nat, py: nat|
                    px < w && scanned(x as nat, y as nat, px, py) && #[trigger] is_content_pixel(
                        data,
                        w,
                        px,
                        py,
                    ) ==> min_x <= px <= max_x && min_y <= py <= max_y,
                found ==> wy1 < h && is_content_pixel(data, w, min_x as nat, wy1),
                found ==> wy2 < h && is_content_pixel(data, w, max_x as nat, wy2),
                found ==> wx1 < w && is_content_pixel(data, w, wx1, min_y as nat),
                found ==> wx2 < w && is_content_pixel(data, w, wx2, max_y as nat),
            decreases width - x,
        {
            proof {
                assert((y as int) * (width as int * 4) + (x as int) * 4 + 2 < (width as int) * (
                height as int) * 4) by (nonlinear_arith)
                    requires
                        y < height,
                        x < width,
                ;
            }
            let idx: usize = y * row_bytes + x * 4;
            assert(idx == pixel_offset(w, x as nat, y as nat));
            let mut content = false;
            if idx + 2 < frame_data.len() {
                let b = frame_data[idx];
                let g = frame_data[idx + 1];
                let r = frame_data[idx + 2];
                content = r > CONTENT_THRESHOLD || g > CONTENT_THRESHOLD || b > CONTENT_THRESHOLD;
            }
            assert(content == is_content_pixel(data, w, x as nat, y as nat));
            if content {
                let xi = x as i32;
                let yi = y as i32;
                let ghost was_found = found;
                if xi < min_x {
                    min_x = xi;
                }
                if xi > max_x {
                    max_x = xi;
                }
                if yi < min_y {
                    min_y = yi;
                }
                if yi > max_y {
                    max_y = yi;
                }
                proof {
                    if !was_found || min_x == xi {
                        wy1 = y as nat;
                    }
                    if !was_found || max_x == xi {
                        wy2 = y as nat;
                    }
                    if !was_found || min_y == yi {
                        wx1 = x as nat;
                    }
                    if !was_found || max_y == yi {
                        wx2 = x as nat;
                    }
                    found = true;
                }
            }
            x = x + 1;
        }
        y = y + 1;
    }
    if max_x >= min_x && max_y >= min_y {
        let content_width = (max_x - min_x + 1) as u32;
        let content_height = (max_y - min_y + 1) as u32;
        let c = CropRegion { x: min_x, y: min_y, width: content_width, height: content_height };
        proof {
            if found {
                assert(is_content_pixel(data, w, min_x as nat, wy1));
                assert(is_content_pixel(data, w, max_x as nat, wy2));
                assert(is_content_pixel(data, w, wx1, min_y as nat));
                assert(is_content_pixel(data, w, wx2, max_y as nat));
                assert(c.x == min_x && c.y == min_y);
                assert(c.x + c.width - 1 == max_x);
                assert(c.y + c.height - 1 == max_y);
                assert(forall|x: nat, y: nat|
                    x < w && y < h && #[trigger] is_content_pixel(data, w, x, y) ==> c.x <= x < c.x
                        + c.width && c.y <= y < c.y + c.height) by {
                    assert(forall|py: nat| py < h ==> #[trigger] scanned(0, h, 0, py));
                }
                assert(is_content_box(data, w, h, c));
            } else {
                assert(w == 0 && h == 0);
            }
        }
        if (content_width as u64) * 20 < (width as u64) * 19 || (content_height as u64) * 20 < (
        height as u64) * 19 {
            return Some(c);
        }
        proof {
            if found {
                assert(is_content_box(data, w, h, c) && nearly_full(c, w, h));
            }
        }
        return None;
    }
    proof {
        if found {
            assert(false);
        }
    }
    None
}

/// Converting RGBA to BGRA swaps red and blue, so converting twice gives the
/// data back; the in-place layouts keep the data's length.
pub proof fn lemma_rgba_swap_involution(data: Seq<u8>, format: PixelFormat)
    requires
        format == PixelFormat::Rgba || format == PixelFormat::Rgbx,
    ensures
        spec_convert_to_bgra(data, format).len() == data.len(),
        spec_convert_to_bgra(spec_convert_to_bgra(data, format), format) == data,
{
    let once = spec_convert_to_bgra(data, format);
    let twice = spec_convert_to_bgra(once, format);
    assert forall|i: int| 0 <= i < data.len() implies #[trigger] twice[i] == data[i] by {
        if i < whole_pixel_bytes(data.len()) {
            let p = i - i % 4;
            assert(p + 2 < whole_pixel_bytes(data.len()));
            assert((p + 2) % 4 == 2 && (p + 2) - (p + 2) % 4 == p);
            assert(p % 4 == 0 && p - p % 4 == p);
        }
    }
    assert(twice =~= data);
}

} // verus!
