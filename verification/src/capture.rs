//! Screen capture decisions: validating a region against its monitor,
//! mapping a region onto a full-monitor stream, and turning the buffers of a
//! capture stream into BGRA frames (stride removal, cropping, format
//! conversion and automatic cropping to the content of the first frame).

use vstd::prelude::*;
use crate::frame::{
    crop_frame_data, extract_frame_data, spec_crop_frame_data, spec_extract_frame_data,
    CapturedFrame, CropRegion,
};
use crate::pixel::{
    convert_to_bgra, detect_content_bounds, has_content, is_content_box, nearly_full,
    spec_convert_to_bgra, PixelFormat,
};
use crate::platform::{parse_u32, spec_parse_u32, CaptureError, MonitorInfo};
use crate::text::{chars_of, decimal, push_char, push_decimal, push_str, str_eq};
use crate::thumbnail::round_div;

verus! {

/// A region of a monitor to record.
#[derive(Debug, Clone)]
pub struct CaptureRegion {
    /// The monitor the region lies on.
    pub monitor_id: String,
    pub x: i32,
    pub y: i32,
    pub width: u32,
    pub height: u32,
}

/// Smallest region, in pixels each way, that may be recorded.
pub const MIN_REGION_SIZE: u32 = 100;

/// The decimal numeral of an integer, with a minus sign when negative.
pub open spec fn idecimal(i: int) -> Seq<char> {
    if i < 0 {
        seq!['-'] + decimal((-i) as nat)
    } else {
        decimal(i as nat)
    }
}

fn push_i32(out: &mut String, i: i32)
    ensures
        final(out)@ == old(out)@ + idecimal(i as int),
{
    if i < 0 {
        push_char(out, '-');
        let m: u64 = (0i64 - (i as i64)) as u64;
        push_decimal(out, m);
        assert(old(out)@.push('-') + decimal(m as nat) =~= old(out)@ + idecimal(i as int));
    } else {
        push_decimal(out, i as u64);
    }
}

/// The index of the first monitor whose id is `id`.
pub open spec fn find_monitor(monitors: Seq<MonitorInfo>, id: Seq<char>, from: int) -> Option<int>
    decreases monitors.len() - from,
{
    if from < 0 || from >= monitors.len() {
        None
    } else if monitors[from].id@ == id {
        Some(from)
    } else {
        find_monitor(monitors, id, from + 1)
    }
}

/// The outcome of validating a region: the index of its monitor, or the
/// error reported for the first rule it breaks — a zero size, a size under
/// 100x100, an unknown monitor, negative coordinates, or extending past the
/// monitor.
pub open spec fn spec_validate_region(region: CaptureRegion, monitors: Seq<MonitorInfo>) -> Result<
    int,
    (bool, Seq<char>),
> {
    if region.width == 0 || region.height == 0 {
        Err((false, "Region width and height must be greater than 0"@))
    } else if region.width < 100 || region.height < 100 {
        Err(
            (
                false,
                "Region must be at least 100x100 pixels (got "@ + decimal(region.width as nat) + seq![
                    'x',
                ] + decimal(region.height as nat) + seq![')'],
            ),
        )
    } else {
        match find_monitor(monitors, region.monitor_id@, 0) {
            None => Err((true, "Monitor '"@ + region.monitor_id@ + "' not found"@)),
            Some(i) => {
                let m = monitors[i];
                if region.x < 0 || region.y < 0 {
                    Err(
                        (
                            false,
                            "Region coordinates cannot be negative ("@ + idecimal(region.x as int)
                                + seq![',', ' '] + idecimal(region.y as int) + seq![')'],
                        ),
                    )
                } else if region.x + region.width > m.width || region.y + region.height > m.height {
                    Err(
                        (
                            false,
                            "Region extends beyond monitor bounds (region: "@ + decimal(
                                region.width as nat,
                            ) + seq!['x'] + decimal(region.height as nat) + " at "@ + idecimal(
                                region.x as int,
                            ) + seq![','] + idecimal(region.y as int) + ", monitor: "@ + decimal(
                                m.width as nat,
                            ) + seq!['x'] + decimal(m.height as nat) + seq![')'],
                        ),
                    )
                } else {
                    Ok(i)
                }
            },
        }
    }
}

proof fn lemma_find_first_monitor(monitors: Seq<MonitorInfo>, id: Seq<char>, i: int, from: int)
    requires
        0 <= from <= i < monitors.len(),
        monitors[i].id@ == id,
        forall|j: int| 0 <= j < i ==> #[trigger] monitors[j].id@ != id,
    ensures
        find_monitor(monitors, id, from) == Some(i),
    decreases i - from,
{
    if from < i {
        assert(monitors[from].id@ != id);
        lemma_find_first_monitor(monitors, id, i, from + 1);
    }
}

proof fn lemma_find_monitor_found(monitors: Seq<MonitorInfo>, id: Seq<char>, from: int)
    ensures
        find_monitor(monitors, id, from) matches Some(i) ==> from <= i < monitors.len()
            && monitors[i].id@ == id,
    decreases monitors.len() - from,
{
    if 0 <= from < monitors.len() && monitors[from].id@ != id {
        lemma_find_monitor_found(monitors, id, from + 1);
    }
}

/// A region of at least 100x100 pixels at a non-negative position on the
/// first monitor with its id is accepted exactly when it lies within that
/// monitor: its right and bottom edges may touch the monitor's, not pass
/// them. A region covering the whole monitor is accepted.
pub proof fn lemma_region_inside_monitor(region: CaptureRegion, monitors: Seq<MonitorInfo>, i: int)
    requires
        region.width >= 100,
        region.height >= 100,
        region.x >= 0,
        region.y >= 0,
        0 <= i < monitors.len(),
        monitors[i].id@ == region.monitor_id@,
        forall|j: int| 0 <= j < i ==> #[trigger] monitors[j].id@ != region.monitor_id@,
    ensures
        spec_validate_region(region, monitors) is Ok <==> (region.x + region.width <= monitors[i].width
            && region.y + region.height <= monitors[i].height),
        spec_validate_region(region, monitors) matches Ok(k) ==> k == i,
{
    lemma_find_first_monitor(monitors, region.monitor_id@, i, 0);
}

/// An accepted region lies within the monitor it names, at a non-negative
/// position, and is at least 100x100 pixels.
pub proof fn lemma_accepted_region_fits(region: CaptureRegion, monitors: Seq<MonitorInfo>)
    ensures
        spec_validate_region(region, monitors) matches Ok(i) ==> {
            &&& 0 <= i < monitors.len()
            &&& monitors[i].id@ == region.monitor_id@
            &&& region.width >= 100 && region.height >= 100
            &&& region.x >= 0 && region.y >= 0
            &&& region.x + region.width <= monitors[i].width
            &&& region.y + region.height <= monitors[i].height
        },
{
    lemma_find_monitor_found(monitors, region.monitor_id@, 0);
}

/// Validate a region to record against the monitors (see
/// `spec_validate_region`); on success, the index of its monitor.
pub fn validate_region(region: &CaptureRegion, monitors: &Vec<MonitorInfo>) -> (r: Result<
    usize,
    CaptureError,
>)
    requires
        region.x >= 0 ==> region.x + region.width <= u32::MAX,
        region.y >= 0 ==> region.y + region.height <= u32::MAX,
    ensures
        match (r, spec_validate_region(*region, monitors@)) {
            (Ok(i), Ok(j)) => i == j,
            (Err(CaptureError::InvalidRegion(m)), Err((false, e))) => m@ == e,
            (Err(CaptureError::TargetNotFound(m)), Err((true, e))) => m@ == e,
            _ => false,
        },
{
    if region.width == 0 || region.height == 0 {
        let m = "Region width and height must be greater than 0".to_string();
        return Err(CaptureError::InvalidRegion(m));
    }
    if region.width < MIN_REGION_SIZE || region.height < MIN_REGION_SIZE {
        let mut m = String::new();
        push_str(&mut m, "Region must be at least 100x100 pixels (got ");
        push_decimal(&mut m, region.width as u64);
        push_char(&mut m, 'x');
        push_decimal(&mut m, region.height as u64);
        push_char(&mut m, ')');
        return Err(CaptureError::InvalidRegion(m));
    }
    let mut idx: usize = 0;
    while idx < monitors.len() && !str_eq(monitors[idx].id.as_str(), region.monitor_id.as_str())
        invariant
            idx <= monitors@.len(),
            find_monitor(monitors@, region.monitor_id@, 0) == find_monitor(
                monitors@,
                region.monitor_id@,
                idx as int,
            ),
        decreases monitors@.len() - idx,
    {
        idx = idx + 1;
    }
    let i = if idx < monitors.len() {
        idx
    } else {
        let mut m = String::new();
        push_str(&mut m, "Monitor '");
        push_str(&mut m, region.monitor_id.as_str());
        push_str(&mut m, "' not found");
        return Err(CaptureError::TargetNotFound(m));
    };
    let monitor = &monitors[i];
    if region.x < 0 || region.y < 0 {
        let mut m = String::new();
        push_str(&mut m, "Region coordinates cannot be negative (");
        push_i32(&mut m, region.x);
        push_char(&mut m, ',');
        push_char(&mut m, ' ');
        push_i32(&mut m, region.y);
        push_char(&mut m, ')');
        return Err(CaptureError::InvalidRegion(m));
    }
    let region_x_end = region.x as u32 + region.width;
    let region_y_end = region.y as u32 + region.height;
    if region_x_end > monitor.width || region_y_end > monitor.height {
        let mut m = String::new();
        push_str(&mut m, "Region extends beyond monitor bounds (region: ");
        push_decimal(&mut m, region.width as u64);
        push_char(&mut m, 'x');
        push_decimal(&mut m, region.height as u64);
        push_str(&mut m, " at ");
        push_i32(&mut m, region.x);
        push_char(&mut m, ',');
        push_i32(&mut m, region.y);
        push_str(&mut m, ", monitor: ");
        push_decimal(&mut m, monitor.width as u64);
        push_char(&mut m, 'x');
        push_decimal(&mut m, monitor.height as u64);
        push_char(&mut m, ')');
        return Err(CaptureError::InvalidRegion(m));
    }
    Ok(i)
}

/// The crop to apply to a full-monitor stream of `capture_width` x
/// `capture_height` for a region given in monitor pixels, or `None` when the
/// stream is already cropped (smaller than the monitor). Coordinates and
/// sizes are scaled by the stream-to-monitor ratio and rounded to the
/// nearest pixel.
pub open spec fn spec_stream_crop(
    x: nat,
    y: nat,
    width: nat,
    height: nat,
    monitor_width: nat,
    monitor_height: nat,
    capture_width: nat,
    capture_height: nat,
) -> Option<(nat, nat, nat, nat)> {
    if capture_width < monitor_width || capture_height < monitor_height {
        None
    } else {
        Some(
            (
                round_div(x * capture_width, monitor_width),
                round_div(y * capture_height, monitor_height),
                round_div(width * capture_width, monitor_width),
                round_div(height * capture_height, monitor_height),
            ),
        )
    }
}

fn scale_round(v: u32, num: u32, den: u32) -> (r: u64)
    requires
        den > 0,
    ensures
        r == round_div(v as nat * num as nat, den as nat),
{
    assert((v as u128) * (num as u128) <= 0xffff_ffff * 0xffff_ffff) by (nonlinear_arith)
        requires
            v <= 0xffff_ffff,
            num <= 0xffff_ffff,
    ;
    let p: u128 = (v as u128) * (num as u128);
    let q = (2 * p + den as u128) / (2 * den as u128);
    assert(q <= 2 * p + den) by (nonlinear_arith)
        requires
            den > 0,
            q == (2 * p + den) / (2 * den),
    ;
    assert(q < 0x1_0000_0000_0000_0000) by (nonlinear_arith)
        requires
            q == (2 * p + den) / (2 * den),
            p <= 0xffff_ffff * 0xffff_ffff,
            den >= 1,
            den <= 0xffff_ffff,
    ;
    q as u64
}

/// Map a validated region (non-negative coordinates) onto the capture
/// stream (see `spec_stream_crop`).
pub fn stream_crop(
    region: &CaptureRegion,
    monitor_width: u32,
    monitor_height: u32,
    capture_width: u32,
    capture_height: u32,
) -> (r: Option<(u64, u64, u64, u64)>)
    requires
        region.x >= 0,
        region.y >= 0,
        monitor_width > 0,
        monitor_height > 0,
    ensures
        match r {
            Some((a, b, c, d)) => spec_stream_crop(
                region.x as nat,
                region.y as nat,
                region.width as nat,
                region.height as nat,
                monitor_width as nat,
                monitor_height as nat,
                capture_width as nat,
                capture_height as nat,
            ) == Some((a as nat, b as nat, c as nat, d as nat)),
            None => spec_stream_crop(
                region.x as nat,
                region.y as nat,
                region.width as nat,
                region.height as nat,
                monitor_width as nat,
                monitor_height as nat,
                capture_width as nat,
                capture_height as nat,
            ) is None,
        },
{
    if capture_width < monitor_width || capture_height < monitor_height {
        return None;
    }
    Some(
        (
            scale_round(region.x as u32, capture_width, monitor_width),
            scale_round(region.y as u32, capture_height, monitor_height),
            scale_round(region.width, capture_width, monitor_width),
            scale_round(region.height, capture_height, monitor_height),
        ),
    )
}


/// A region in physical pixels clamped to a monitor of `monitor_width` x
/// `monitor_height` physical pixels: the origin stays, the size shrinks to
/// what fits. An error when the result is narrower or lower than
/// `min_size` (the 100-pixel minimum scaled to physical pixels).
pub fn clamp_physical_region(
    x: u32,
    y: u32,
    width: u32,
    height: u32,
    monitor_width: u32,
    monitor_height: u32,
    min_size: u32,
) -> (r: Result<(u32, u32, u32, u32), CaptureError>)
    ensures
        ({
            let room_w = if monitor_width >= x { monitor_width - x } else { 0 };
            let room_h = if monitor_height >= y { monitor_height - y } else { 0 };
            let w = if width <= room_w { width as int } else { room_w };
            let h = if height <= room_h { height as int } else { room_h };
            &&& (w < min_size || h < min_size) ==> (r matches Err(CaptureError::InvalidRegion(m))
                && m@ == "Region too small after scaling to physical pixels ("@ + decimal(w as nat)
                + seq!['x'] + decimal(h as nat) + ", need "@ + decimal(min_size as nat) + seq!['x']
                + decimal(min_size as nat) + seq![')'])
            &&& !(w < min_size || h < min_size) ==> r == Ok::<(u32, u32, u32, u32), CaptureError>(
                (x, y, w as u32, h as u32),
            )
        }),
{
    let room_w = monitor_width.saturating_sub(x);
    let room_h = monitor_height.saturating_sub(y);
    let w = if width <= room_w { width } else { room_w };
    let h = if height <= room_h { height } else { room_h };
    if w < min_size || h < min_size {
        let mut m = String::new();
        push_str(&mut m, "Region too small after scaling to physical pixels (");
        push_decimal(&mut m, w as u64);
        push_char(&mut m, 'x');
        push_decimal(&mut m, h as u64);
        push_str(&mut m, ", need ");
        push_decimal(&mut m, min_size as u64);
        push_char(&mut m, 'x');
        push_decimal(&mut m, min_size as u64);
        push_char(&mut m, ')');
        return Err(CaptureError::InvalidRegion(m));
    }
    Ok((x, y, w, h))
}

// ---------------------------------------------------------------------------
// Capture stream
// ---------------------------------------------------------------------------

/// Largest frame size a capture stream is asked for, in pixels each way.
pub const MAX_STREAM_SIZE: u32 = 8192;

/// Whether a crop stays within `u32` coordinates.
pub open spec fn crop_in_range(c: CropRegion) -> bool {
    &&& c.x >= 0 ==> c.x + c.width <= u32::MAX
    &&& c.y >= 0 ==> c.y + c.height <= u32::MAX
}

/// The state a capture stream keeps between buffers.
pub struct StreamState {
    /// Negotiated frame width.
    pub width: u32,
    /// Negotiated frame height.
    pub height: u32,
    /// Negotiated pixel layout.
    pub format: PixelFormat,
    /// Buffers received so far.
    pub frames_received: u64,
    /// Number of format negotiations (more than one means the window was resized).
    pub format_changes: u32,
    /// Region cropped from every buffer, if any.
    pub crop_region: Option<CropRegion>,
    /// Content bounds detected on the first frame.
    pub auto_crop: Option<CropRegion>,
    /// Whether to detect the content bounds of the first frame.
    pub enable_auto_crop: bool,
}

/// The frame sent on, given the BGRA data of the stream and the crop in
/// force: the cropped data with the crop's size, or the whole frame when no
/// crop applies or cropping fails.
pub open spec fn spec_send(bgra: Seq<u8>, width: u32, height: u32, crop: Option<CropRegion>) -> (
    Seq<u8>,
    u32,
    u32,
) {
    match crop {
        Some(c) => match spec_crop_frame_data(bgra, width, height, c) {
            Some(cd) => (cd, c.width, c.height),
            None => (bgra, width, height),
        },
        None => (bgra, width, height),
    }
}

impl StreamState {
    /// The stream state's invariant: the frame size within what is
    /// negotiated, and crops within `u32` coordinates.
    pub open spec fn wf(&self) -> bool {
        &&& self.width <= MAX_STREAM_SIZE
        &&& self.height <= MAX_STREAM_SIZE
        &&& self.crop_region matches Some(c) ==> crop_in_range(c)
        &&& self.auto_crop matches Some(c) ==> crop_in_range(c)
        &&& self.crop_region is Some ==> !self.enable_auto_crop && self.auto_crop is None
    }

    /// A stream expecting `width` x `height` frames, optionally cropped to a
    /// region or to the content found in the first frame.
    pub fn new(width: u32, height: u32, crop_region: Option<CropRegion>, enable_auto_crop: bool) -> (s:
        Self)
        requires
            width <= MAX_STREAM_SIZE,
            height <= MAX_STREAM_SIZE,
            crop_region matches Some(c) ==> crop_in_range(c),
            crop_region is Some ==> !enable_auto_crop,
        ensures
            s.wf(),
            s.width == width && s.height == height,
            s.format == PixelFormat::Bgrx,
            s.frames_received == 0 && s.format_changes == 0,
            s.crop_region == crop_region,
            s.auto_crop is None,
            s.enable_auto_crop == enable_auto_crop,
    {
        StreamState {
            width,
            height,
            format: PixelFormat::Bgrx,
            frames_received: 0,
            format_changes: 0,
            crop_region,
            auto_crop: None,
            enable_auto_crop,
        }
    }

    /// A format was negotiated: take its size and layout.
    pub fn on_format(&mut self, width: u32, height: u32, format: PixelFormat)
        requires
            old(self).wf(),
            width <= MAX_STREAM_SIZE,
            height <= MAX_STREAM_SIZE,
        ensures
            final(self).wf(),
            final(self).width == width && final(self).height == height,
            final(self).format == format,
            final(self).format_changes == if old(self).format_changes < u32::MAX {
                old(self).format_changes + 1
            } else {
                old(self).format_changes as int
            },
            final(self).frames_received == old(self).frames_received,
            final(self).crop_region == old(self).crop_region,
            final(self).auto_crop == old(self).auto_crop,
            final(self).enable_auto_crop == old(self).enable_auto_crop,
    {
        self.width = width;
        self.height = height;
        self.format = format;
        if self.format_changes < u32::MAX {
            self.format_changes = self.format_changes + 1;
        }
    }

    /// Convert a frame to BGRA, detect its content bounds if it is the first
    /// frame and auto-crop is on (turning auto-crop off when none are
    /// found), and apply the crop in force.
    pub fn send_frame(&mut self, width: u32, height: u32, frame_data: Vec<u8>) -> (f: CapturedFrame)
        requires
            old(self).wf(),
            old(self).enable_auto_crop || old(self).auto_crop is Some ==> width <= MAX_STREAM_SIZE
                && height <= MAX_STREAM_SIZE,
        ensures
            final(self).wf(),
            ({
                let bgra = spec_convert_to_bgra(frame_data@, old(self).format);
                let first = old(self).enable_auto_crop && old(self).auto_crop is None && old(self).frames_received == 1;
                &&& !first ==> final(self).auto_crop == old(self).auto_crop && final(self).enable_auto_crop == old(self).enable_auto_crop
                &&& first ==> (final(self).auto_crop matches Some(c) ==> is_content_box(
                    bgra,
                    width as nat,
                    height as nat,
                    c,
                ) && !nearly_full(c, width as nat, height as nat) && final(self).enable_auto_crop)
                &&& first ==> (final(self).auto_crop is None ==> !final(self).enable_auto_crop && (
                !has_content(bgra, width as nat, height as nat) || exists|c: CropRegion|
                    is_content_box(bgra, width as nat, height as nat, c) && nearly_full(
                        c,
                        width as nat,
                        height as nat,
                    )))
                &&& (f.data@, f.width, f.height) == spec_send(bgra, width, height, final(self).auto_crop)
            }),
            final(self).width == old(self).width,
            final(self).height == old(self).height,
            final(self).format == old(self).format,
            final(self).frames_received == old(self).frames_received,
            final(self).format_changes == old(self).format_changes,
            final(self).crop_region == old(self).crop_region,
    {
        if self.enable_auto_crop || self.auto_crop.is_some() {
            assert((width as int) * (height as int) <= 8192 * 8192) by (nonlinear_arith)
                requires
                    width <= 8192,
                    height <= 8192,
            ;
        }
        let bgra = convert_to_bgra(frame_data, self.format);
        if self.enable_auto_crop && self.auto_crop.is_none() && self.frames_received == 1 {
            match detect_content_bounds(bgra.as_slice(), width, height) {
                Some(bounds) => {
                    self.auto_crop = Some(bounds);
                },
                None => {
                    self.enable_auto_crop = false;
                },
            }
        }
        match self.auto_crop {
            Some(crop) => match crop_frame_data(bgra.as_slice(), width, height, crop) {
                Some(cropped) => CapturedFrame { width: crop.width, height: crop.height, data: cropped },
                None => CapturedFrame { width, height, data: bgra },
            },
            None => CapturedFrame { width, height, data: bgra },
        }
    }

    /// Turn one buffer of the stream into the frame to send, if any: rows
    /// are unpadded by `stride`, the stream's crop region (if any) is cut
    /// out, and the result goes through `send_frame`. A frame comes out exactly
    /// when the stride is not zero, the buffer holds the whole frame and the
    /// crop (if any) succeeds.
    pub fn process_buffer(&mut self, slice: &[u8], stride: usize) -> (f: Option<CapturedFrame>)
        requires
            old(self).wf(),
            old(self).frames_received < u64::MAX,
            (old(self).height as int) * (stride as int) + (old(self).width as int) * 4 <= usize::MAX,
        ensures
            final(self).wf(),
            final(self).frames_received == old(self).frames_received + 1,
            final(self).width == old(self).width,
            final(self).height == old(self).height,
            final(self).format == old(self).format,
            final(self).crop_region == old(self).crop_region,
            stride == 0 ==> f is None,
            stride > 0 && spec_extract_frame_data(
                slice@,
                old(self).width as nat,
                old(self).height as nat,
                stride as nat,
                4,
            ) is None ==> f is None,
            stride > 0 ==> (spec_extract_frame_data(
                slice@,
                old(self).width as nat,
                old(self).height as nat,
                stride as nat,
                4,
            ) matches Some(fd) ==> (old(self).crop_region matches Some(c) ==> (spec_crop_frame_data(
                fd,
                old(self).width,
                old(self).height,
                c,
            ) is None ==> f is None))),
            stride > 0 ==> (spec_extract_frame_data(
                slice@,
                old(self).width as nat,
                old(self).height as nat,
                stride as nat,
                4,
            ) matches Some(fd) ==> ((old(self).crop_region matches Some(c) ==> spec_crop_frame_data(
                fd,
                old(self).width,
                old(self).height,
                c,
            ) is Some) ==> f is Some)),
            f matches Some(fr) ==> stride > 0 && spec_extract_frame_data(
                slice@,
                old(self).width as nat,
                old(self).height as nat,
                stride as nat,
                4,
            ) is Some && (fr.data@, fr.width, fr.height) == spec_send(
                spec_convert_to_bgra(
                    match old(self).crop_region {
                        Some(c) => spec_crop_frame_data(
                            spec_extract_frame_data(
                                slice@,
                                old(self).width as nat,
                                old(self).height as nat,
                                stride as nat,
                                4,
                            ).unwrap(),
                            old(self).width,
                            old(self).height,
                            c,
                        ).unwrap(),
                        None => spec_extract_frame_data(
                            slice@,
                            old(self).width as nat,
                            old(self).height as nat,
                            stride as nat,
                            4,
                        ).unwrap(),
                    },
                    old(self).format,
                ),
                match old(self).crop_region {
                    Some(c) => c.width,
                    None => old(self).width,
                },
                match old(self).crop_region {
                    Some(c) => c.height,
                    None => old(self).height,
                },
                final(self).auto_crop,
            ),
    {
        self.frames_received = self.frames_received + 1;
        if stride == 0 {
            return None;
        }
        let width = self.width;
        let height = self.height;
        assert((width as int) * (height as int) <= 8192 * 8192) by (nonlinear_arith)
            requires
                width <= 8192,
                height <= 8192,
        ;
        assert((height as int) * ((width as int) * 4) <= 8192 * 8192 * 4) by (nonlinear_arith)
            requires
                width <= 8192,
                height <= 8192,
        ;
        let frame_data = match extract_frame_data(slice, width, height, stride, 4) {
            Some(d) => d,
            None => {
                return None;
            },
        };
        match self.crop_region {
            Some(crop) => match crop_frame_data(frame_data.as_slice(), width, height, crop) {
                Some(cropped) => Some(self.send_frame(crop.width, crop.height, cropped)),
                None => None,
            },
            None => Some(self.send_frame(width, height, frame_data)),
        }
    }
}

/// The states a PipeWire stream moves through.
#[derive(Debug, Clone, Copy, PartialEq, Eq, Structural)]
pub enum StreamPhase {
    Error,
    Unconnected,
    Connecting,
    Paused,
    Streaming,
}

/// Whether a change of the stream's state ends the capture: an error, a
/// disconnect, or a pause that follows streaming (a pause during start-up,
/// before streaming, does not).
pub fn stops_capture(old: StreamPhase, new: StreamPhase) -> (r: bool)
    ensures
        r == (new == StreamPhase::Error || new == StreamPhase::Unconnected || (new
            == StreamPhase::Paused && old == StreamPhase::Streaming)),
{
    match new {
        StreamPhase::Error => true,
        StreamPhase::Unconnected => true,
        StreamPhase::Paused => old == StreamPhase::Streaming,
        _ => false,
    }
}

/// The message refusing a region preview smaller than 10x10 pixels.
pub open spec fn small_preview_message(width: u32, height: u32) -> Seq<char> {
    "Region must be at least 10x10 pixels (got "@ + decimal(width as nat) + seq!['x'] + decimal(
        height as nat,
    ) + seq![')']
}

/// Check the size of a region preview: at least 10x10 pixels.
pub fn check_preview_region(width: u32, height: u32) -> (r: Result<(), CaptureError>)
    ensures
        (width >= 10 && height >= 10) <==> r is Ok,
        r matches Err(e) ==> (e matches CaptureError::InvalidRegion(m) && m@ == small_preview_message(
            width,
            height,
        )),
{
    if width < 10 || height < 10 {
        let mut m = String::new();
        push_str(&mut m, "Region must be at least 10x10 pixels (got ");
        push_decimal(&mut m, width as u64);
        push_char(&mut m, 'x');
        push_decimal(&mut m, height as u64);
        push_char(&mut m, ')');
        return Err(CaptureError::InvalidRegion(m));
    }
    Ok(())
}

/// Read the monitor id of a region or display to record as the numeric
/// display id it names on macOS.
pub fn parse_capture_display_id(monitor_id: &str) -> (r: Result<u32, CaptureError>)
    ensures
        match spec_parse_u32(monitor_id@) {
            Some(n) => r matches Ok(id) && id == n,
            None => r matches Err(CaptureError::InvalidParameters(m)) && m@ == "Invalid monitor ID"@,
        },
{
    let chars = chars_of(monitor_id);
    match parse_u32(chars.as_slice()) {
        Some(n) => Ok(n),
        None => Err(CaptureError::InvalidParameters("Invalid monitor ID".to_string())),
    }
}

/// Read the monitor id of a thumbnail or preview as the numeric display id
/// it names on macOS.
pub fn parse_display_id(monitor_id: &str) -> (r: Result<u32, CaptureError>)
    ensures
        match spec_parse_u32(monitor_id@) {
            Some(n) => r matches Ok(id) && id == n,
            None => r matches Err(CaptureError::InvalidParameters(m)) && m@ == "Invalid monitor ID: "@
                + monitor_id@,
        },
{
    let chars = chars_of(monitor_id);
    match parse_u32(chars.as_slice()) {
        Some(n) => Ok(n),
        None => {
            let mut m = String::new();
            push_str(&mut m, "Invalid monitor ID: ");
            push_str(&mut m, monitor_id);
            Err(CaptureError::InvalidParameters(m))
        },
    }
}

} // verus!
