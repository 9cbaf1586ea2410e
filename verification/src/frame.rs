//! Raw frame geometry: captured BGRA frames, cropping and stride removal.
//!
//! A frame is a row-major sequence of pixels of four bytes each; byte `k` of
//! the pixel at column `x` and row `y` of a frame of width `w` is at offset
//! `(y * w + x) * 4 + k`.

use vstd::prelude::*;

verus! {

/// A captured frame with its dimensions and pixel data.
#[derive(Clone)]
pub struct CapturedFrame {
    pub width: u32,
    pub height: u32,
    /// BGRA pixel data
    pub data: Vec<u8>,
}

/// Region specification for cropping frames.
#[derive(Debug, Clone, Copy, PartialEq, Eq, Structural)]
pub struct CropRegion {
    pub x: i32,
    pub y: i32,
    pub width: u32,
    pub height: u32,
}

/// Appends `data[start..end]` to `out`.
pub fn append_range(out: &mut Vec<u8>, data: &[u8], start: usize, end: usize)
    requires
        start <= end <= data@.len(),
    ensures
        final(out)@ == old(out)@ + data@.subrange(start as int, end as int),
{
    let mut i = start;
    while i < end
        invariant
            start <= i <= end <= data@.len(),
            out@ == old(out)@ + data@.subrange(start as int, i as int),
        decreases end - i,
    {
        out.push(data[i]);
        assert(data@.subrange(start as int, i + 1) == data@.subrange(start as int, i as int).push(
            data@[i as int],
        ));
        i = i + 1;
    }
}

/// `n` zero bytes.
pub open spec fn zeros(n: nat) -> Seq<u8> {
    Seq::new(n, |i: int| 0u8)
}

/// Appends `n` zero bytes to `out`.
pub fn append_zeros(out: &mut Vec<u8>, n: usize)
    ensures
        final(out)@ == old(out)@ + zeros(n as nat),
{
    let mut i: usize = 0;
    while i < n
        invariant
            i <= n,
            out@ == old(out)@ + zeros(i as nat),
        decreases n - i,
    {
        out.push(0u8);
        assert(zeros((i + 1) as nat) == zeros(i as nat).push(0u8));
        i = i + 1;
    }
}

proof fn lemma_row_offset_bound(row: int, rows: int, stride: int, x: int, w: int)
    requires
        0 <= row < rows,
        0 <= stride,
        0 <= x,
        0 <= w,
        x + w <= stride,
    ensures
        row * stride + x + w <= rows * stride,
        0 <= row * stride,
{
    assert(row * stride + stride <= rows * stride) by (nonlinear_arith)
        requires
            0 <= row < rows,
            0 <= stride,
    ;
    assert(0 <= row * stride) by (nonlinear_arith)
        requires
            0 <= row,
            0 <= stride,
    ;
}

// ---------------------------------------------------------------------------
// Clamping crop used for thumbnails and previews
// ---------------------------------------------------------------------------

/// Left edge of a clamped crop: negative coordinates clamp to zero.
pub open spec fn clamp_origin(c: i32) -> nat {
    if c < 0 { 0 } else { c as nat }
}

/// Extent of a clamped crop along one axis.
pub open spec fn clamp_extent(origin: nat, extent: nat, frame_extent: nat) -> nat {
    let room: nat = if origin <= frame_extent { (frame_extent - origin) as nat } else { 0 };
    if extent <= room { extent } else { room }
}

/// Byte `k` of row `r` of a clamped crop: the source bytes of that row when the
/// whole row lies within `data`, zero otherwise.
pub open spec fn clamped_crop_byte(
    data: Seq<u8>,
    frame_width: nat,
    x: nat,
    y: nat,
    w: nat,
    r: nat,
    k: nat,
) -> u8 {
    let src = (y + r) * frame_width * 4 + x * 4;
    if src + w * 4 <= data.len() {
        data[(src + k) as int]
    } else {
        0
    }
}

/// The clamped crop of a frame, row by row.
pub open spec fn clamped_crop_rows(
    data: Seq<u8>,
    frame_width: nat,
    x: nat,
    y: nat,
    w: nat,
    rows: nat,
) -> Seq<u8>
    decreases rows,
{
    if rows == 0 {
        Seq::empty()
    } else {
        let r = (rows - 1) as nat;
        let src = (y + r) * frame_width * 4 + x * 4;
        let row = if src + w * 4 <= data.len() {
            data.subrange(src as int, (src + w * 4) as int)
        } else {
            zeros(w * 4)
        };
        clamped_crop_rows(data, frame_width, x, y, w, r) + row
    }
}

/// The result of cropping `data` to the given region with clamping.
pub open spec fn spec_clamped_crop(
    data: Seq<u8>,
    frame_width: u32,
    frame_height: u32,
    crop_x: i32,
    crop_y: i32,
    crop_width: u32,
    crop_height: u32,
) -> Seq<u8> {
    let x = clamp_origin(crop_x);
    let y = clamp_origin(crop_y);
    let w = clamp_extent(x, crop_width as nat, frame_width as nat);
    let h = clamp_extent(y, crop_height as nat, frame_height as nat);
    if w == 0 || h == 0 {
        Seq::empty()
    } else {
        clamped_crop_rows(data, frame_width as nat, x, y, w, h)
    }
}

proof fn lemma_clamped_rows_len(data: Seq<u8>, fw: nat, x: nat, y: nat, w: nat, rows: nat)
    ensures
        clamped_crop_rows(data, fw, x, y, w, rows).len() == rows * w * 4,
    decreases rows,
{
    if rows > 0 {
        lemma_clamped_rows_len(data, fw, x, y, w, (rows - 1) as nat);
        let r = (rows - 1) as nat;
        let src = (y + r) * fw * 4 + x * 4;
        assert(zeros(w * 4).len() == w * 4);
        if src + w * 4 <= data.len() {
            assert(data.subrange(src as int, (src + w * 4) as int).len() == w * 4);
        }
        assert(((rows - 1) as nat) * w * 4 + w * 4 == rows * w * 4) by (nonlinear_arith)
            requires
                rows > 0,
        ;
        let row = if src + w * 4 <= data.len() {
            data.subrange(src as int, (src + w * 4) as int)
        } else {
            zeros(w * 4)
        };
        assert(row.len() == w * 4);
        assert(clamped_crop_rows(data, fw, x, y, w, rows) == clamped_crop_rows(data, fw, x, y, w, r)
            + row);
    } else {
        assert(rows * w * 4 == 0) by (nonlinear_arith)
            requires
                rows == 0,
        ;
    }
}

/// Each byte of a clamped crop is the corresponding byte of the source row, or
/// zero when that source row runs past the end of the data.
pub proof fn lemma_clamped_crop_bytes(
    data: Seq<u8>,
    fw: nat,
    x: nat,
    y: nat,
    w: nat,
    rows: nat,
    r: nat,
    k: nat,
)
    requires
        r < rows,
        k < w * 4,
    ensures
        clamped_crop_rows(data, fw, x, y, w, rows).len() == rows * w * 4,
        r * (w * 4) + k < rows * w * 4,
        clamped_crop_rows(data, fw, x, y, w, rows)[(r * (w * 4) + k) as int] == clamped_crop_byte(
            data,
            fw,
            x,
            y,
            w,
            r,
            k,
        ),
    decreases rows,
{
    lemma_clamped_rows_len(data, fw, x, y, w, rows);
    let last = (rows - 1) as nat;
    lemma_clamped_rows_len(data, fw, x, y, w, last);
    assert(r * (w * 4) + k < rows * w * 4) by (nonlinear_arith)
        requires
            r < rows,
            k < w * 4,
    ;
    if r < last {
        lemma_clamped_crop_bytes(data, fw, x, y, w, last, r, k);
    } else {
        assert(r * (w * 4) == last * w * 4) by (nonlinear_arith)
            requires
                r == last,
        ;
    }
}

/// Crop a BGRA frame to a specified region, clamping the region to the frame.
///
/// Negative coordinates clamp to zero and the width and height shrink to what
/// fits inside the frame. An empty region gives an empty result. A source row
/// that lies beyond the end of `data` is left as zeros.
pub fn crop_frame(
    data: &[u8],
    frame_width: u32,
    frame_height: u32,
    crop_x: i32,
    crop_y: i32,
    crop_width: u32,
    crop_height: u32,
) -> (r: Vec<u8>)
    requires
        (frame_width as int) * (frame_height as int) * 4 <= usize::MAX,
        clamp_extent(clamp_origin(crop_x), crop_width as nat, frame_width as nat) * clamp_extent(
            clamp_origin(crop_y),
            crop_height as nat,
            frame_height as nat,
        ) * 4 <= u32::MAX,
    ensures
        r@ == spec_clamped_crop(
            data@,
            frame_width,
            frame_height,
            crop_x,
            crop_y,
            crop_width,
            crop_height,
        ),
{
    let x: u32 = if crop_x < 0 { 0 } else { crop_x as u32 };
    let y: u32 = if crop_y < 0 { 0 } else { crop_y as u32 };
    let room_w: u32 = if x <= frame_width { frame_width - x } else { 0 };
    let room_h: u32 = if y <= frame_height { frame_height - y } else { 0 };
    let w: u32 = if crop_width <= room_w { crop_width } else { room_w };
    let h: u32 = if crop_height <= room_h { crop_height } else { room_h };

    if w == 0 || h == 0 {
        return Vec::new();
    }
    proof {
        assert((frame_width as int) * 4 <= (frame_width as int) * (frame_height as int) * 4)
            by (nonlinear_arith)
            requires
                frame_height >= 1,
        ;
    }
    let dst_stride: usize = w as usize * 4;
    let src_stride: usize = frame_width as usize * 4;
    let mut out: Vec<u8> = Vec::new();
    let mut row: u32 = 0;
    while row < h
        invariant
            0 < w,
            0 < h,
            x + w <= frame_width,
            y + h <= frame_height,
            dst_stride == w * 4,
            src_stride == frame_width * 4,
            (frame_width as int) * (frame_height as int) * 4 <= usize::MAX,
            row <= h,
            out@ == clamped_crop_rows(data@, frame_width as nat, x as nat, y as nat, w as nat, row as nat),
        decreases h - row,
    {
        proof {
            lemma_row_offset_bound(
                (y + row) as int,
                frame_height as int,
                src_stride as int,
                (x * 4) as int,
                (w * 4) as int,
            );
            assert((frame_height as int) * (src_stride as int) == (frame_width as int) * (
            frame_height as int) * 4) by (nonlinear_arith)
                requires
                    src_stride == frame_width * 4,
            ;
        }
        let src_offset: usize = (y + row) as usize * src_stride + x as usize * 4;
        proof {
            assert((y + row) as int * src_stride as int == ((y + row) as nat) * (frame_width as nat)
                * 4) by (nonlinear_arith)
                requires
                    src_stride == frame_width * 4,
            ;
        }
        if src_offset + dst_stride <= data.len() {
            append_range(&mut out, data, src_offset, src_offset + dst_stride);
        } else {
            append_zeros(&mut out, dst_stride);
        }
        row = row + 1;
    }
    out
}

// ---------------------------------------------------------------------------
// Strict crop used while recording a region
// ---------------------------------------------------------------------------

/// The rows of a strict crop: each row of the region is copied when it lies
/// within `data` and omitted otherwise.
pub open spec fn strict_crop_rows(
    data: Seq<u8>,
    frame_width: nat,
    x: nat,
    y: nat,
    w: nat,
    rows: nat,
) -> Seq<u8>
    decreases rows,
{
    if rows == 0 {
        Seq::empty()
    } else {
        let r = (rows - 1) as nat;
        let src = (y + r) * frame_width * 4 + x * 4;
        let prev = strict_crop_rows(data, frame_width, x, y, w, r);
        if src + w * 4 <= data.len() {
            prev + data.subrange(src as int, (src + w * 4) as int)
        } else {
            prev
        }
    }
}

/// Copies rows `y..y+h` of columns `x..x+w` of a frame, skipping rows that do
/// not lie within the data.
fn copy_rows(data: &Vec<u8>, frame_width: u32, frame_height: u32, x: u32, y: u32, w: u32, h: u32) -> (out: Vec<u8>)
    requires
        x as int + w as int <= frame_width as int,
        y as int + h as int <= frame_height as int,
        (frame_width as int) * (frame_height as int) * 4 <= usize::MAX,
    ensures
        out@ == strict_crop_rows(data@, frame_width as nat, x as nat, y as nat, w as nat, h as nat),
{
    if h == 0 {
        return Vec::new();
    }
    proof {
        assert((frame_width as int) * 4 <= (frame_width as int) * (frame_height as int) * 4)
            by (nonlinear_arith)
            requires
                frame_height >= 1,
        ;
    }
    let dst_stride: usize = w as usize * 4;
    let src_stride: usize = frame_width as usize * 4;
    let mut out: Vec<u8> = Vec::new();
    let mut row: u32 = 0;
    while row < h
        invariant
            x as int + w as int <= frame_width as int,
            y as int + h as int <= frame_height as int,
            dst_stride == w * 4,
            src_stride == frame_width * 4,
            (frame_width as int) * (frame_height as int) * 4 <= usize::MAX,
            row <= h,
            out@ == strict_crop_rows(data@, frame_width as nat, x as nat, y as nat, w as nat, row as nat),
        decreases h - row,
    {
        proof {
            lemma_row_offset_bound(
                (y + row) as int,
                frame_height as int,
                src_stride as int,
                (x * 4) as int,
                (w * 4) as int,
            );
            assert((frame_height as int) * (src_stride as int) == (frame_width as int) * (
            frame_height as int) * 4) by (nonlinear_arith)
                requires
                    src_stride == frame_width * 4,
            ;
            assert((y + row) as int * src_stride as int == ((y + row) as nat) * (frame_width as nat)
                * 4) by (nonlinear_arith)
                requires
                    src_stride == frame_width * 4,
            ;
        }
        let src_start: usize = (y + row) as usize * src_stride + x as usize * 4;
        let src_end: usize = src_start + dst_stride;
        if src_end <= data.len() {
            append_range(&mut out, data.as_slice(), src_start, src_end);
        }
        row = row + 1;
    }
    out
}

/// Crop a captured frame to a region that must lie inside it.
///
/// Returns `None` when the region extends beyond the frame. Rows of the region
/// whose bytes are not all present in the frame data are left out.
pub fn crop_captured_frame(frame: &CapturedFrame, x: u32, y: u32, width: u32, height: u32) -> (r:
    Option<CapturedFrame>)
    requires
        x as int + width as int <= u32::MAX,
        y as int + height as int <= u32::MAX,
        (frame.width as int) * (frame.height as int) * 4 <= usize::MAX,
    ensures
        (x + width > frame.width || y + height > frame.height) <==> r is None,
        r matches Some(c) ==> {
            &&& c.width == width
            &&& c.height == height
            &&& c.data@ == strict_crop_rows(
                frame.data@,
                frame.width as nat,
                x as nat,
                y as nat,
                width as nat,
                height as nat,
            )
        },
{
    if x + width > frame.width || y + height > frame.height {
        return None;
    }
    let data = copy_rows(&frame.data, frame.width, frame.height, x, y, width, height);
    Some(CapturedFrame { width, height, data })
}

/// The data written to the encoder for a frame, given the encoder's
/// dimensions: the frame itself when it matches them, its top-left
/// `enc_width` x `enc_height` corner when it is larger, and nothing (the frame
/// is skipped) when it is smaller in either dimension.
pub open spec fn spec_encoder_frame(
    data: Seq<u8>,
    frame_width: u32,
    frame_height: u32,
    enc_width: u32,
    enc_height: u32,
) -> Option<Seq<u8>> {
    if frame_width == enc_width && frame_height == enc_height {
        Some(data)
    } else if frame_width >= enc_width && frame_height >= enc_height {
        Some(strict_crop_rows(data, frame_width as nat, 0, 0, enc_width as nat, enc_height as nat))
    } else {
        None
    }
}

/// Prepare a frame for an encoder of the given dimensions (see `spec_encoder_frame`).
pub fn frame_for_encoder(frame: &CapturedFrame, enc_width: u32, enc_height: u32) -> (r: Option<
    Vec<u8>>)
    requires
        (frame.width as int) * (frame.height as int) * 4 <= usize::MAX,
    ensures
        match r {
            Some(v) => spec_encoder_frame(frame.data@, frame.width, frame.height, enc_width, enc_height)
                == Some(v@),
            None => spec_encoder_frame(frame.data@, frame.width, frame.height, enc_width, enc_height)
                is None,
        },
{
    if frame.width == enc_width && frame.height == enc_height {
        Some(frame.data.clone())
    } else if frame.width >= enc_width && frame.height >= enc_height {
        Some(copy_rows(&frame.data, frame.width, frame.height, 0, 0, enc_width, enc_height))
    } else {
        None
    }
}

/// Encoders need even dimensions: the largest even number not above `n`.
pub open spec fn even_floor(n: u32) -> u32 {
    (n - n % 2) as u32
}

/// The encoder dimensions for a first frame: each dimension rounded down to an
/// even number, or `None` when either becomes zero.
pub fn even_dimensions(width: u32, height: u32) -> (r: Option<(u32, u32)>)
    ensures
        (even_floor(width) == 0 || even_floor(height) == 0) <==> r is None,
        r matches Some(d) ==> d == (even_floor(width), even_floor(height)),
{
    let w = width - width % 2;
    let h = height - height % 2;
    if w == 0 || h == 0 {
        None
    } else {
        Some((w, h))
    }
}

// ---------------------------------------------------------------------------
// Crop used on streamed frames
// ---------------------------------------------------------------------------

/// Byte offset of the first cropped pixel of crop row `r`.
pub open spec fn crop_row_start(frame_width: nat, x: nat, y: nat, r: nat) -> nat {
    (y + r) * frame_width * 4 + x * 4
}

/// Whether every one of the first `rows` rows of a crop lies within `len` bytes.
pub open spec fn rows_fit(len: nat, frame_width: nat, x: nat, y: nat, w: nat, rows: nat) -> bool {
    forall|r: nat| r < rows ==> #[trigger] crop_row_start(frame_width, x, y, r) + w * 4 <= len
}

/// The result of cropping a streamed frame: `None` for negative coordinates, an
/// origin outside the frame, or a row that runs past the data; otherwise the
/// region clamped to the frame.
pub open spec fn spec_crop_frame_data(
    data: Seq<u8>,
    full_width: u32,
    full_height: u32,
    crop: CropRegion,
) -> Option<Seq<u8>> {
    if crop.x < 0 || crop.y < 0 {
        None
    } else {
        let x = crop.x as nat;
        let y = crop.y as nat;
        if x >= full_width || y >= full_height {
            None
        } else {
            let x_end: nat = if x + crop.width <= full_width { (x + crop.width) as nat } else { full_width as nat };
            let y_end: nat = if y + crop.height <= full_height { (y + crop.height) as nat } else { full_height as nat };
            let w = (x_end - x) as nat;
            let h = (y_end - y) as nat;
            if rows_fit(data.len(), full_width as nat, x, y, w, h) {
                Some(strict_crop_rows(data, full_width as nat, x, y, w, h))
            } else {
                None
            }
        }
    }
}

/// Crop frame data to a specific region (see `spec_crop_frame_data`).
#[verifier::loop_isolation(false)]
pub fn crop_frame_data(frame_data: &[u8], full_width: u32, full_height: u32, crop: CropRegion) -> (r:
    Option<Vec<u8>>)
    requires
        (full_width as int) * (full_height as int) * 4 <= usize::MAX,
        (full_width as int) * (full_height as int) <= u32::MAX,
        crop.x >= 0 ==> crop.x as int + crop.width as int <= u32::MAX,
        crop.y >= 0 ==> crop.y as int + crop.height as int <= u32::MAX,
    ensures
        match r {
            Some(v) => spec_crop_frame_data(frame_data@, full_width, full_height, crop) == Some(v@),
            None => spec_crop_frame_data(frame_data@, full_width, full_height, crop) is None,
        },
{
    if crop.x < 0 || crop.y < 0 {
        return None;
    }
    let crop_x = crop.x as u32;
    let crop_y = crop.y as u32;
    let crop_x_end = if crop_x + crop.width <= full_width { crop_x + crop.width } else { full_width };
    let crop_y_end = if crop_y + crop.height <= full_height { crop_y + crop.height } else { full_height };
    if crop_x >= full_width || crop_y >= full_height {
        return None;
    }
    let w = crop_x_end - crop_x;
    let h = crop_y_end - crop_y;
    let ghost x = crop_x as nat;
    let ghost y0 = crop_y as nat;
    let mut cropped: Vec<u8> = Vec::new();
    let mut y: u32 = crop_y;
    while y < crop_y_end
        invariant
            crop_y <= y <= crop_y_end <= full_height,
            crop_x_end <= full_width,
            w == crop_x_end - crop_x,
            h == crop_y_end - crop_y,
            crop_x < full_width,
            (full_width as int) * (full_height as int) * 4 <= usize::MAX,
            (full_width as int) * (full_height as int) <= u32::MAX,
            rows_fit(frame_data@.len(), full_width as nat, x, y0, w as nat, (y - crop_y) as nat),
            cropped@ == strict_crop_rows(
                frame_data@,
                full_width as nat,
                x,
                y0,
                w as nat,
                (y - crop_y) as nat,
            ),
            x == crop_x,
            y0 == crop_y,
        decreases crop_y_end - y,
    {
        proof {
            assert((y as int) * (full_width as int) + full_width <= (full_height as int) * (
            full_width as int)) by (nonlinear_arith)
                requires
                    y < full_height,
            ;
            assert((y as int) * (full_width as int) * 4 == (y as int) * ((full_width as int) * 4))
                by (nonlinear_arith);
            assert((full_height as int) * (full_width as int) == (full_width as int) * (
            full_height as int)) by (nonlinear_arith);
        }
        let row_start: usize = ((y * full_width + crop_x) as usize) * 4;
        let row_end: usize = row_start + (w as usize) * 4;
        let ghost r = (y - crop_y) as nat;
        assert(y0 + r == y);
        if row_end <= frame_data.len() {
            append_range(&mut cropped, frame_data, row_start, row_end);
            proof {
                assert forall|rr: nat| rr < r + 1 implies #[trigger] crop_row_start(
                    full_width as nat,
                    x,
                    y0,
                    rr,
                ) + w * 4 <= frame_data@.len() by {
                    if rr < r {
                        assert(rows_fit(frame_data@.len(), full_width as nat, x, y0, w as nat, r));
                    }
                }
            }
        } else {
            proof {
                assert(!rows_fit(frame_data@.len(), full_width as nat, x, y0, w as nat, h as nat)) by {
                    assert(r < h);
                    assert(crop_row_start(full_width as nat, x, y0, r) + w * 4 > frame_data@.len());
                }
            }
            return None;
        }
        y = y + 1;
    }
    Some(cropped)
}

// ---------------------------------------------------------------------------
// Stride removal
// ---------------------------------------------------------------------------

/// The first `rows` rows of `row_bytes` bytes each, taken every `stride` bytes.
pub open spec fn stride_rows(data: Seq<u8>, stride: nat, row_bytes: nat, rows: nat) -> Seq<u8>
    decreases rows,
{
    if rows == 0 {
        Seq::empty()
    } else {
        let r = (rows - 1) as nat;
        stride_rows(data, stride, row_bytes, r) + data.subrange(
            (r * stride) as int,
            (r * stride + row_bytes) as int,
        )
    }
}

/// Byte offset just past row `r` of a buffer whose rows are `stride` bytes apart.
pub open spec fn stride_row_end(stride: nat, row_bytes: nat, r: nat) -> nat {
    r * stride + row_bytes
}

/// Whether each of the first `rows` rows ends within `len` bytes.
pub open spec fn stride_rows_fit(len: nat, stride: nat, row_bytes: nat, rows: nat) -> bool {
    forall|r: nat| r < rows ==> #[trigger] stride_row_end(stride, row_bytes, r) <= len
}

/// The packed pixel rows of a buffer whose rows are `stride` bytes apart, or
/// `None` when a row runs past the end of the buffer.
pub open spec fn spec_extract_frame_data(
    data: Seq<u8>,
    width: nat,
    height: nat,
    stride: nat,
    bytes_per_pixel: nat,
) -> Option<Seq<u8>> {
    let row_bytes = width * bytes_per_pixel;
    if stride_rows_fit(data.len(), stride, row_bytes, height) {
        Some(stride_rows(data, stride, row_bytes, height))
    } else {
        None
    }
}

proof fn lemma_packed_rows(data: Seq<u8>, row_bytes: nat, rows: nat)
    requires
        rows * row_bytes <= data.len(),
    ensures
        stride_rows(data, row_bytes, row_bytes, rows) == data.subrange(0, (rows * row_bytes) as int),
    decreases rows,
{
    if rows > 0 {
        let r = (rows - 1) as nat;
        assert(r * row_bytes + row_bytes == rows * row_bytes) by (nonlinear_arith)
            requires
                r + 1 == rows,
        ;
        lemma_packed_rows(data, row_bytes, r);
        assert(data.subrange(0, (r * row_bytes) as int) + data.subrange(
            (r * row_bytes) as int,
            (rows * row_bytes) as int,
        ) =~= data.subrange(0, (rows * row_bytes) as int));
    } else {
        assert(rows * row_bytes == 0) by (nonlinear_arith)
            requires
                rows == 0,
        ;
    }
}

/// Extract frame data from a buffer slice, removing any padding between rows.
pub fn extract_frame_data(slice: &[u8], width: u32, height: u32, stride: usize, bytes_per_pixel: usize) -> (r:
    Option<Vec<u8>>)
    requires
        (width as int) * (bytes_per_pixel as int) <= usize::MAX,
        (height as int) * (stride as int) + (width as int) * (bytes_per_pixel as int) <= usize::MAX,
        (height as int) * ((width as int) * (bytes_per_pixel as int)) <= usize::MAX,
    ensures
        match r {
            Some(v) => spec_extract_frame_data(slice@, width as nat, height as nat, stride as nat, bytes_per_pixel as nat) == Some(v@),
            None => spec_extract_frame_data(slice@, width as nat, height as nat, stride as nat, bytes_per_pixel as nat) is None,
        },
{
    let row_bytes: usize = width as usize * bytes_per_pixel;
    if stride == row_bytes {
        let total: usize = height as usize * row_bytes;
        if slice.len() >= total {
            let mut out: Vec<u8> = Vec::new();
            append_range(&mut out, slice, 0, total);
            proof {
                lemma_packed_rows(slice@, row_bytes as nat, height as nat);
                assert forall|r: nat| r < height implies #[trigger] stride_row_end(
                    stride as nat,
                    row_bytes as nat,
                    r,
                ) <= slice@.len() by {
                    assert(r * stride + row_bytes <= height * stride) by (nonlinear_arith)
                        requires
                            r < height,
                            stride == row_bytes,
                    ;
                }
                assert(out@ == slice@.subrange(0, total as int));
            }
            return Some(out);
        }
    }
    let mut frame_data: Vec<u8> = Vec::new();
    let mut y: u32 = 0;
    while y < height
        invariant
            y <= height,
            row_bytes == width * bytes_per_pixel,
            (height as int) * (stride as int) + (row_bytes as int) <= usize::MAX,
            stride_rows_fit(slice@.len(), stride as nat, row_bytes as nat, y as nat),
            frame_data@ == stride_rows(slice@, stride as nat, row_bytes as nat, y as nat),
        decreases height - y,
    {
        proof {
            assert((y as int) * (stride as int) <= (height as int) * (stride as int)) by (nonlinear_arith)
                requires
                    y <= height,
            ;
        }
        let row_start: usize = y as usize * stride;
        let row_end: usize = row_start + row_bytes;
        if row_end <= slice.len() {
            append_range(&mut frame_data, slice, row_start, row_end);
            proof {
                assert forall|r: nat| r < y + 1 implies #[trigger] stride_row_end(
                    stride as nat,
                    row_bytes as nat,
                    r,
                ) <= slice@.len() by {
                    if r < y {
                        assert(stride_rows_fit(slice@.len(), stride as nat, row_bytes as nat, y as nat));
                    }
                }
            }
        } else {
            assert(!stride_rows_fit(slice@.len(), stride as nat, row_bytes as nat, height as nat)) by {
                assert(stride_row_end(stride as nat, row_bytes as nat, y as nat) > slice@.len());
            }
            return None;
        }
        y = y + 1;
    }
    Some(frame_data)
}

} // verus!
