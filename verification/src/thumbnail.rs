//! Thumbnails: scaling a BGRA frame down to fit a box, nearest-neighbour
//! downsampling to RGB, and encoding the result as base64 JPEG.

use vstd::prelude::*;
use crate::text::{decimal, push_decimal, push_str};
use base64::Engine;

verus! {

/// Maximum thumbnail width in pixels.
pub const THUMBNAIL_MAX_WIDTH: u32 = 320;

/// Maximum thumbnail height in pixels.
pub const THUMBNAIL_MAX_HEIGHT: u32 = 180;

/// Maximum region preview width in pixels.
pub const PREVIEW_MAX_WIDTH: u32 = 400;

/// Maximum region preview height in pixels.
pub const PREVIEW_MAX_HEIGHT: u32 = 300;

/// JPEG quality for thumbnails (0-100).
pub const JPEG_QUALITY: u8 = 75;

/// Result of a thumbnail capture operation.
#[derive(Debug, Clone)]
pub struct ThumbnailResult {
    /// Base64-encoded JPEG image data
    pub data: String,
    /// Thumbnail width in pixels
    pub width: u32,
    /// Thumbnail height in pixels
    pub height: u32,
}

/// `a / b` rounded to the nearest integer, halves up.
pub open spec fn round_div(a: nat, b: nat) -> nat {
    (2 * a + b) / (2 * b)
}

/// Dimensions that fit within `max_width` x `max_height` while preserving the
/// aspect ratio, never scaled up, rounded to the nearest pixel and at least
/// one pixel each; the bounds themselves for an empty frame.
pub open spec fn spec_scaled_dimensions(width: nat, height: nat, max_width: nat, max_height: nat) -> (
    nat,
    nat,
) {
    if width == 0 || height == 0 {
        (max_width, max_height)
    } else {
        let (w, h) = if max_width * height <= max_height * width {
            if max_width >= width {
                (width, height)
            } else {
                (max_width, round_div(height * max_width, width))
            }
        } else {
            if max_height >= height {
                (width, height)
            } else {
                (round_div(width * max_height, height), max_height)
            }
        };
        (if w >= 1 {
            w
        } else {
            1
        }, if h >= 1 {
            h
        } else {
            1
        })
    }
}

/// Calculate scaled dimensions that fit within max bounds while preserving
/// aspect ratio (see `spec_scaled_dimensions`).
pub fn calculate_scaled_dimensions(width: u32, height: u32, max_width: u32, max_height: u32) -> (r: (
    u32,
    u32,
))
    ensures
        (r.0 as nat, r.1 as nat) == spec_scaled_dimensions(
            width as nat,
            height as nat,
            max_width as nat,
            max_height as nat,
        ),
{
    if width == 0 || height == 0 {
        return (max_width, max_height);
    }
    let w = width as u128;
    let h = height as u128;
    let mw = max_width as u128;
    let mh = max_height as u128;
    proof {
        assert(mw * h <= u32::MAX * u32::MAX) by (nonlinear_arith)
            requires
                mw <= u32::MAX,
                h <= u32::MAX,
        ;
        assert(mh * w <= u32::MAX * u32::MAX) by (nonlinear_arith)
            requires
                mh <= u32::MAX,
                w <= u32::MAX,
        ;
    }
    let (sw, sh): (u128, u128) = if mw * h <= mh * w {
        if mw >= w {
            (w, h)
        } else {
            proof {
                assert(h * mw < h * w) by (nonlinear_arith)
                    requires
                        mw < w,
                        h > 0,
                ;
                assert((2 * (h * mw) + w) / (2 * w) <= h) by (nonlinear_arith)
                    requires
                        h * mw < h * w,
                        w > 0,
                ;
            }
            (mw, (2 * (h * mw) + w) / (2 * w))
        }
    } else {
        if mh >= h {
            (w, h)
        } else {
            proof {
                assert(w * mh < w * h) by (nonlinear_arith)
                    requires
                        mh < h,
                        w > 0,
                ;
                assert((2 * (w * mh) + h) / (2 * h) <= w) by (nonlinear_arith)
                    requires
                        w * mh < w * h,
                        h > 0,
                ;
            }
            ((2 * (w * mh) + h) / (2 * h), mh)
        }
    };
    let sw = if sw >= 1 {
        sw
    } else {
        1
    };
    let sh = if sh >= 1 {
        sh
    } else {
        1
    };
    (sw as u32, sh as u32)
}

/// The source column (or row) sampled for destination column `x` when `src`
/// pixels are shrunk to `dst`.
pub open spec fn src_index(x: nat, src: nat, dst: nat) -> nat {
    let i = x * src / dst;
    if i < src - 1 {
        i
    } else {
        (src - 1) as nat
    }
}

/// The RGB bytes of the BGRA pixel at column `sx`, row `sy`.
pub open spec fn rgb_at(data: Seq<u8>, src_width: nat, sx: nat, sy: nat) -> Seq<u8> {
    let o = sy * src_width * 4 + sx * 4;
    seq![data[o + 2int], data[o + 1int], data[o as int]]
}

/// The first `n` RGB pixels of destination row `y`.
pub open spec fn downsampled_row(
    data: Seq<u8>,
    src_width: nat,
    src_height: nat,
    dst_width: nat,
    dst_height: nat,
    y: nat,
    n: nat,
) -> Seq<u8>
    decreases n,
{
    if n == 0 {
        Seq::empty()
    } else {
        downsampled_row(data, src_width, src_height, dst_width, dst_height, y, (n - 1) as nat)
            + rgb_at(
            data,
            src_width,
            src_index((n - 1) as nat, src_width, dst_width),
            src_index(y, src_height, dst_height),
        )
    }
}

/// The first `rows` rows of the nearest-neighbour downsampling of a BGRA
/// frame to RGB.
pub open spec fn downsampled(
    data: Seq<u8>,
    src_width: nat,
    src_height: nat,
    dst_width: nat,
    dst_height: nat,
    rows: nat,
) -> Seq<u8>
    decreases rows,
{
    if rows == 0 {
        Seq::empty()
    } else {
        downsampled(data, src_width, src_height, dst_width, dst_height, (rows - 1) as nat)
            + downsampled_row(
            data,
            src_width,
            src_height,
            dst_width,
            dst_height,
            (rows - 1) as nat,
            dst_width,
        )
    }
}

proof fn lemma_src_index_bound(x: nat, src: nat, dst: nat)
    requires
        src >= 1,
        dst >= 1,
    ensures
        src_index(x, src, dst) < src,
{
}

/// Fast downsample BGRA to RGB using nearest-neighbor sampling: destination
/// pixel (`x`, `y`) takes source pixel (`x * src_width / dst_width`,
/// `y * src_height / dst_height`), clamped to the frame.
pub fn fast_downsample_bgra_to_rgb(
    data: &[u8],
    src_width: u32,
    src_height: u32,
    dst_width: u32,
    dst_height: u32,
) -> (r: Vec<u8>)
    requires
        (src_width as int) * (src_height as int) * 4 <= u32::MAX,
        data@.len() >= (src_width as int) * (src_height as int) * 4,
        dst_height >= 1 ==> src_height >= 1,
        dst_height >= 1 && dst_width >= 1 ==> src_width >= 1,
    ensures
        r@ == downsampled(
            data@,
            src_width as nat,
            src_height as nat,
            dst_width as nat,
            dst_height as nat,
            dst_height as nat,
        ),
{
    let mut rgb: Vec<u8> = Vec::new();
    let mut y: u32 = 0;
    while y < dst_height
        invariant
            y <= dst_height,
            (src_width as int) * (src_height as int) * 4 <= u32::MAX,
            data@.len() >= (src_width as int) * (src_height as int) * 4,
            dst_height >= 1 ==> src_height >= 1,
            dst_height >= 1 && dst_width >= 1 ==> src_width >= 1,
            rgb@ == downsampled(
                data@,
                src_width as nat,
                src_height as nat,
                dst_width as nat,
                dst_height as nat,
                y as nat,
            ),
        decreases dst_height - y,
    {
        assert((y as u64) * (src_height as u64) <= u32::MAX * u32::MAX) by (nonlinear_arith)
            requires
                y <= u32::MAX,
                src_height <= u32::MAX,
        ;
        let ty: u64 = (y as u64) * (src_height as u64) / (dst_height as u64);
        let src_y: u64 = if ty < src_height as u64 - 1 {
            ty
        } else {
            src_height as u64 - 1
        };
        assert(src_y == src_index(y as nat, src_height as nat, dst_height as nat));
        let ghost row_start = rgb@;
        let mut x: u32 = 0;
        while x < dst_width
            invariant
                x <= dst_width,
                y < dst_height,
                src_y < src_height,
                src_y == src_index(y as nat, src_height as nat, dst_height as nat),
                (src_width as int) * (src_height as int) * 4 <= u32::MAX,
                data@.len() >= (src_width as int) * (src_height as int) * 4,
                dst_width >= 1 ==> src_width >= 1,
                rgb@ == row_start + downsampled_row(
                    data@,
                    src_width as nat,
                    src_height as nat,
                    dst_width as nat,
                    dst_height as nat,
                    y as nat,
                    x as nat,
                ),
            decreases dst_width - x,
        {
            assert((x as u64) * (src_width as u64) <= u32::MAX * u32::MAX) by (nonlinear_arith)
                requires
                    x <= u32::MAX,
                    src_width <= u32::MAX,
            ;
            let tx: u64 = (x as u64) * (src_width as u64) / (dst_width as u64);
            let src_x: u64 = if tx < src_width as u64 - 1 {
                tx
            } else {
                src_width as u64 - 1
            };
            assert(src_x == src_index(x as nat, src_width as nat, dst_width as nat));
            proof {
                assert(src_y * src_width * 4 + src_x * 4 + 4 <= (src_width as int) * (
                src_height as int) * 4) by (nonlinear_arith)
                    requires
                        src_y < src_height,
                        src_x < src_width,
                ;
            }
            let o: usize = (src_y * (src_width as u64) * 4 + src_x * 4) as usize;
            rgb.push(data[o + 2]);
            rgb.push(data[o + 1]);
            rgb.push(data[o]);
            x = x + 1;
        }
        y = y + 1;
    }
    rgb
}

// ---------------------------------------------------------------------------
// Encoding
// ---------------------------------------------------------------------------

/// The JPEG file that the `image` crate's `JpegEncoder` writes for an RGB
/// image of the given size and quality, as a function of its arguments.
pub uninterp spec fn jpeg_bytes(rgb: Seq<u8>, width: u32, height: u32, quality: u8) -> Seq<u8>;

/// Encodes an RGB image as JPEG with the `image` crate: the pixels are put in
/// the crate's `ImageBuffer` (`from_raw`), which `JpegEncoder`
/// (`new_with_quality`, `encode_image`) writes into a byte vector.
///
/// Claimed: on success the bytes are `jpeg_bytes` of the arguments and begin
/// with the start-of-image marker `FF D8` that `encode_image` writes first.
/// The encoder succeeds exactly when both sizes lie in 1..=65535: `from_raw`
/// accepts a buffer of exactly `width * height * 3` bytes, `encode_image`
/// refuses only other sizes, and writing into a `Vec` cannot fail. Like every
/// `Vec`, the result holds at most `isize::MAX` bytes.
#[verifier::external_body]
fn encode_jpeg(rgb: Vec<u8>, width: u32, height: u32, quality: u8) -> (r: Result<Vec<u8>, String>)
    requires
        rgb@.len() == (width as int) * (height as int) * 3,
    ensures
        r matches Ok(v) ==> v@ == jpeg_bytes(rgb@, width, height, quality) && v@.len()
            <= isize::MAX,
        r matches Ok(v) ==> v@.len() >= 2 && v@[0] == 0xFFu8 && v@[1] == 0xD8u8,
        (width == 0 || height == 0 || width > 65535 || height > 65535) ==> r is Err,
        (1 <= width <= 65535 && 1 <= height <= 65535) ==> r is Ok,
{
    let img: image::ImageBuffer<image::Rgb<u8>, Vec<u8>> =
        match image::ImageBuffer::from_raw(width, height, rgb) {
            Some(img) => img,
            None => return Err("Failed to create image buffer".to_string()),
        };
    let mut jpeg: Vec<u8> = Vec::new();
    let mut encoder = image::codecs::jpeg::JpegEncoder::new_with_quality(&mut jpeg, quality);
    match encoder.encode_image(&img) {
        Ok(()) => Ok(jpeg),
        Err(e) => Err(format!("Failed to encode JPEG: {}", e)),
    }
}

/// The character of the standard base64 alphabet for a 6-bit value.
pub open spec fn b64_char(v: nat) -> char {
    if v < 26 {
        (65 + v) as char
    } else if v < 52 {
        (97 + v - 26) as char
    } else if v < 62 {
        (48 + v - 52) as char
    } else if v == 62 {
        '+'
    } else {
        '/'
    }
}

/// Standard base64 (RFC 4648 alphabet, `=` padding) of `b`.
pub open spec fn base64_standard(b: Seq<u8>) -> Seq<char>
    decreases b.len(),
{
    if b.len() == 0 {
        Seq::empty()
    } else if b.len() == 1 {
        seq![b64_char(b[0] as nat / 4), b64_char((b[0] as nat % 4) * 16), '=', '=']
    } else if b.len() == 2 {
        seq![
            b64_char(b[0] as nat / 4),
            b64_char((b[0] as nat % 4) * 16 + b[1] as nat / 16),
            b64_char((b[1] as nat % 16) * 4),
            '=',
        ]
    } else {
        seq![
            b64_char(b[0] as nat / 4),
            b64_char((b[0] as nat % 4) * 16 + b[1] as nat / 16),
            b64_char((b[1] as nat % 16) * 4 + b[2] as nat / 64),
            b64_char(b[2] as nat % 64),
        ] + base64_standard(b.subrange(3, b.len() as int))
    }
}

/// Encodes bytes as base64 with the `base64` crate's `STANDARD` engine.
///
/// Claimed: the result is the standard base64 of the input. The crate panics
/// when the encoded length overflows `usize`, which no input of at most
/// `isize::MAX` bytes reaches.
#[verifier::external_body]
fn encode_base64(bytes: &[u8]) -> (r: String)
    requires
        bytes@.len() <= isize::MAX,
    ensures
        r@ == base64_standard(bytes@),
{
    base64::engine::general_purpose::STANDARD.encode(bytes)
}

/// The thumbnail of a frame that holds enough data: its scaled size and the
/// RGB pixels to encode.
pub open spec fn thumbnail_pixels(data: Seq<u8>, width: u32, height: u32, max_width: u32, max_height: u32) -> Seq<
    u8,
> {
    let (sw, sh) = spec_scaled_dimensions(
        width as nat,
        height as nat,
        max_width as nat,
        max_height as nat,
    );
    downsampled(data, width as nat, height as nat, sw, sh, sh)
}

/// Convert BGRA frame data to a scaled JPEG thumbnail as base64, returning
/// the base64 text and the scaled size.
pub fn bgra_to_jpeg_thumbnail(data: &[u8], width: u32, height: u32, max_width: u32, max_height: u32) -> (r:
    Result<(String, u32, u32), String>)
    requires
        (width as int) * (height as int) * 4 <= u32::MAX,
        (width == 0 || height == 0) ==> (max_height >= 1 ==> height >= 1) && (max_height >= 1
            && max_width >= 1 ==> width >= 1),
    ensures
        data@.len() < (width as int) * (height as int) * 4 ==> (r matches Err(msg) && msg@
            == "Buffer too small: expected "@ + decimal((width as nat) * (height as nat) * 4)
            + " bytes, got "@ + decimal(data@.len())),
        ({
            let (sw, sh) = spec_scaled_dimensions(
                width as nat,
                height as nat,
                max_width as nat,
                max_height as nat,
            );
            (sw == 0 || sh == 0 || sw > 65535 || sh > 65535) ==> r is Err
        }),
        ({
            let (sw, sh) = spec_scaled_dimensions(
                width as nat,
                height as nat,
                max_width as nat,
                max_height as nat,
            );
            data@.len() >= (width as int) * (height as int) * 4 && 1 <= sw <= 65535 && 1 <= sh
                <= 65535 ==> r is Ok
        }),
        r matches Ok((s, _, _)) ==> s@.len() > 0,
        r matches Ok((s, w, h)) ==> {
            let (sw, sh) = spec_scaled_dimensions(
                width as nat,
                height as nat,
                max_width as nat,
                max_height as nat,
            );
            &&& w == sw && h == sh
            &&& s@ == base64_standard(
                jpeg_bytes(thumbnail_pixels(data@, width, height, max_width, max_height), w, h, 75),
            )
        },
{
    if data.len() < (width * height * 4) as usize {
        let mut msg = String::new();
        push_str(&mut msg, "Buffer too small: expected ");
        push_decimal(&mut msg, (width * height * 4) as u64);
        push_str(&mut msg, " bytes, got ");
        push_decimal(&mut msg, data.len() as u64);
        return Err(msg);
    }
    let (scaled_width, scaled_height) = calculate_scaled_dimensions(
        width,
        height,
        max_width,
        max_height,
    );
    let rgb = fast_downsample_bgra_to_rgb(data, width, height, scaled_width, scaled_height);
    proof {
        lemma_downsampled_len(
            data@,
            width as nat,
            height as nat,
            scaled_width as nat,
            scaled_height as nat,
            scaled_height as nat,
        );
        assert((scaled_height as nat) * ((scaled_width as nat) * 3) == (scaled_width as int) * (
        scaled_height as int) * 3) by (nonlinear_arith);
    }
    let jpeg = match encode_jpeg(rgb, scaled_width, scaled_height, JPEG_QUALITY) {
        Ok(j) => j,
        Err(e) => {
            return Err(e);
        },
    };
    let b64 = encode_base64(jpeg.as_slice());
    proof {
        assert(base64_standard(jpeg@).len() > 0);
    }
    Ok((b64, scaled_width, scaled_height))
}

proof fn lemma_downsampled_row_len(
    data: Seq<u8>,
    src_width: nat,
    src_height: nat,
    dst_width: nat,
    dst_height: nat,
    y: nat,
    n: nat,
)
    ensures
        downsampled_row(data, src_width, src_height, dst_width, dst_height, y, n).len() == n * 3,
    decreases n,
{
    if n > 0 {
        lemma_downsampled_row_len(data, src_width, src_height, dst_width, dst_height, y, (n - 1) as nat);
    }
}

proof fn lemma_downsampled_len(
    data: Seq<u8>,
    src_width: nat,
    src_height: nat,
    dst_width: nat,
    dst_height: nat,
    rows: nat,
)
    ensures
        downsampled(data, src_width, src_height, dst_width, dst_height, rows).len() == rows * (
        dst_width * 3),
    decreases rows,
{
    if rows > 0 {
        lemma_downsampled_len(data, src_width, src_height, dst_width, dst_height, (rows - 1) as nat);
        lemma_downsampled_row_len(
            data,
            src_width,
            src_height,
            dst_width,
            dst_height,
            (rows - 1) as nat,
            dst_width,
        );
        let r1 = (rows - 1) as nat;
        assert(rows * (dst_width * 3) == r1 * (dst_width * 3) + dst_width * 3) by (nonlinear_arith)
            requires
                r1 + 1 == rows,
        ;
    } else {
        assert(rows * (dst_width * 3) == 0) by (nonlinear_arith)
            requires
                rows == 0,
        ;
    }
}

proof fn lemma_round_div_le(a: nat, b: nat, c: nat)
    requires
        b > 0,
        a <= c * b,
    ensures
        round_div(a, b) <= c,
{
    assert((2 * a + b) / (2 * b) <= c) by (nonlinear_arith)
        requires
            b > 0,
            a <= c * b,
    ;
}

/// A thumbnail fits its box and is never larger than the frame: both
/// scaled dimensions lie between one pixel and the smaller of the box and
/// frame dimensions.
pub proof fn lemma_scaled_fits(width: nat, height: nat, max_width: nat, max_height: nat)
    requires
        width >= 1,
        height >= 1,
        max_width >= 1,
        max_height >= 1,
    ensures
        ({
            let (w, h) = spec_scaled_dimensions(width, height, max_width, max_height);
            1 <= w <= max_width && w <= width && 1 <= h <= max_height && h <= height
        }),
{
    if max_width * height <= max_height * width {
        if max_width >= width {
            assert(height <= max_height) by (nonlinear_arith)
                requires
                    max_width * height <= max_height * width,
                    max_width >= width,
                    width >= 1,
            ;
        } else {
            assert(height * max_width <= max_height * width) by (nonlinear_arith)
                requires
                    max_width * height <= max_height * width,
            ;
            lemma_round_div_le(height * max_width, width, max_height);
            assert(height * max_width <= height * width) by (nonlinear_arith)
                requires
                    max_width < width,
            ;
            lemma_round_div_le(height * max_width, width, height);
        }
    } else {
        if max_height >= height {
            assert(width <= max_width) by (nonlinear_arith)
                requires
                    max_width * height > max_height * width,
                    max_height >= height,
                    height >= 1,
            ;
        } else {
            assert(width * max_height <= max_width * height) by (nonlinear_arith)
                requires
                    max_width * height > max_height * width,
            ;
            lemma_round_div_le(width * max_height, height, max_width);
            assert(width * max_height <= width * height) by (nonlinear_arith)
                requires
                    max_height < height,
            ;
            lemma_round_div_le(width * max_height, height, width);
        }
    }
}

} // verus!
