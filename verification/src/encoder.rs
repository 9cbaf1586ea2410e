//! The encoder's decisions: the FFmpeg command lines, the choice of H.264
//! encoder, frame pacing at 30 frames per second, and where each chunk of
//! audio goes on the audio timeline.

use vstd::prelude::*;
use crate::recording::OutputFormat;
use crate::text::{
    contains, decimal, decimal2, push_char, push_decimal, push_decimal2, push_str, str_contains, str_eq,
};

verus! {

/// Target frame rate for output video.
pub const TARGET_FPS: u64 = 30;

/// Nanoseconds in a second.
pub const NANOS_PER_SEC: u64 = 1_000_000_000;

/// The time, in nanoseconds on the clock of `start_nanos`, at which frame
/// `frame_number` is due. Computed from the frame number, not by adding an
/// interval, so that no rounding error accumulates.
pub open spec fn spec_frame_time(start_nanos: nat, frame_number: nat) -> nat {
    start_nanos + frame_number * 1_000_000_000 / 30
}

/// Compute the exact time a given frame number should be written.
pub fn frame_time(start_nanos: u64, frame_number: u64) -> (t: u64)
    requires
        frame_number * 1_000_000_000 <= u64::MAX,
        start_nanos + frame_number * 1_000_000_000 / 30 <= u64::MAX,
    ensures
        t == spec_frame_time(start_nanos as nat, frame_number as nat),
{
    start_nanos + frame_number * NANOS_PER_SEC / TARGET_FPS
}

/// Frame slots are due in order: a later frame is never due earlier.
pub proof fn lemma_frame_time_monotonic(start_nanos: nat, a: nat, b: nat)
    requires
        a <= b,
    ensures
        spec_frame_time(start_nanos, a) <= spec_frame_time(start_nanos, b),
{
    assert(a * 1_000_000_000 <= b * 1_000_000_000) by (nonlinear_arith)
        requires
            a <= b,
    ;
    vstd::arithmetic::div_mod::lemma_div_is_ordered(
        (a * 1_000_000_000) as int,
        (b * 1_000_000_000) as int,
        30,
    );
}

/// The frame count to continue from after falling behind: the slot that
/// `elapsed_nanos` falls in, when that is past `frames_written`.
pub open spec fn spec_catch_up(frames_written: nat, elapsed_nanos: nat) -> nat {
    let target = elapsed_nanos * 30 / 1_000_000_000;
    if target > frames_written {
        target
    } else {
        frames_written
    }
}

/// If the pacing loop fell behind, skip ahead to the frame slot closest to now.
pub fn catch_up_frames(frames_written: u64, elapsed_nanos: u64) -> (n: u64)
    requires
        elapsed_nanos * 30 <= u64::MAX,
    ensures
        n == spec_catch_up(frames_written as nat, elapsed_nanos as nat),
        n >= frames_written,
{
    let target_frame = elapsed_nanos * TARGET_FPS / NANOS_PER_SEC;
    if target_frame > frames_written {
        target_frame
    } else {
        frames_written
    }
}


/// What the pacing loop does at a given moment.
#[derive(Debug, Clone, Copy, PartialEq, Eq, Structural)]
pub enum PacerAction {
    /// The next frame slot has not come yet.
    Wait,
    /// Send the latest frame for the slot that has come.
    Send,
    /// The latest frame is smaller than the encoder's size: the slot passes
    /// without a frame.
    Skip,
}

/// The video pacing loop's clock: one frame per 1/30 s slot, counted from
/// `start_nanos`.
pub struct Pacer {
    pub start_nanos: u64,
    /// Frame slots used so far (the first frame is written before pacing starts).
    pub frames_written: u64,
    /// When the next slot is due.
    pub next_frame_nanos: u64,
}

impl Pacer {
    /// Whether the slot after `frames_written` can still be timed without overflow.
    pub open spec fn in_range(&self) -> bool {
        &&& (self.frames_written + 1) * 1_000_000_000 <= u64::MAX
        &&& self.start_nanos + (self.frames_written + 1) * 1_000_000_000 / 30 <= u64::MAX
    }

    /// Start pacing at `start_nanos`, right after the first frame was written.
    pub fn new(start_nanos: u64) -> (p: Self)
        requires
            start_nanos + 33_333_333 <= u64::MAX,
        ensures
            p.start_nanos == start_nanos,
            p.frames_written == 1,
            p.next_frame_nanos == spec_frame_time(start_nanos as nat, 1),
    {
        Pacer {
            start_nanos,
            frames_written: 1,
            next_frame_nanos: frame_time(start_nanos, 1),
        }
    }

    /// Decide what to do at time `now_nanos`, given whether the latest frame
    /// is at least the encoder's size. A due slot is used for the frame or
    /// skipped; after a frame is sent, a loop that has fallen behind jumps to
    /// the slot `now_nanos` falls in.
    pub fn tick(&mut self, now_nanos: u64, frame_fits: bool) -> (a: PacerAction)
        requires
            old(self).in_range(),
            old(self).start_nanos <= now_nanos,
            (now_nanos - old(self).start_nanos) * 30 <= u64::MAX,
        ensures
            final(self).start_nanos == old(self).start_nanos,
            old(self).next_frame_nanos > now_nanos ==> a == PacerAction::Wait && *final(self) == *old(
                self),
            old(self).next_frame_nanos <= now_nanos && !frame_fits ==> a == PacerAction::Skip
                && final(self).frames_written == old(self).frames_written + 1
                && final(self).next_frame_nanos == spec_frame_time(
                old(self).start_nanos as nat,
                final(self).frames_written as nat,
            ),
            old(self).next_frame_nanos <= now_nanos && frame_fits ==> a == PacerAction::Send && ({
                let n = (old(self).frames_written + 1) as nat;
                let behind = spec_frame_time(old(self).start_nanos as nat, n) <= now_nanos;
                &&& final(self).frames_written == if behind {
                    spec_catch_up(n, (now_nanos - old(self).start_nanos) as nat)
                } else {
                    n
                }
                &&& final(self).next_frame_nanos == spec_frame_time(
                    old(self).start_nanos as nat,
                    final(self).frames_written as nat,
                )
            }),
    {
        if self.next_frame_nanos > now_nanos {
            return PacerAction::Wait;
        }
        self.frames_written = self.frames_written + 1;
        self.next_frame_nanos = frame_time(self.start_nanos, self.frames_written);
        if !frame_fits {
            return PacerAction::Skip;
        }
        if self.next_frame_nanos <= now_nanos {
            let elapsed = now_nanos - self.start_nanos;
            let target = catch_up_frames(self.frames_written, elapsed);
            proof {
                let e = elapsed as nat;
                assert(e * 30 / 1_000_000_000 * 1_000_000_000 <= e * 30) by (nonlinear_arith);
                assert(e * 30 / 1_000_000_000 * 1_000_000_000 / 30 <= e) by (nonlinear_arith)
                    requires
                        e * 30 / 1_000_000_000 * 1_000_000_000 <= e * 30,
                ;
            }
            if target > self.frames_written {
                self.frames_written = target;
                self.next_frame_nanos = frame_time(self.start_nanos, target);
            }
        }
        PacerAction::Send
    }
}

/// Where a chunk of audio samples goes on the output timeline.
#[derive(Debug, Clone, Copy, PartialEq, Eq, Structural)]
pub struct AudioChunkPlan {
    /// Samples of silence to write first, to fill a gap.
    pub silence: u64,
    /// Samples at the front of the chunk that were already covered and are dropped.
    pub skip_front: u64,
    /// Samples of the chunk to write.
    pub write: u64,
}

/// The position on the output timeline of a chunk captured at `sample_offset`.
pub open spec fn chunk_target(sample_offset: nat, initial_skip: nat) -> nat {
    if sample_offset >= initial_skip {
        (sample_offset - initial_skip) as nat
    } else {
        0
    }
}

/// What to do with a chunk of `chunk_len` samples captured at
/// `sample_offset`, when `samples_written` samples are already written and
/// the first `initial_skip` captured samples precede the video: nothing if
/// the chunk ends before the written position; otherwise silence up to the
/// chunk's position, then the part of the chunk past the written position.
pub fn plan_audio_chunk(samples_written: u64, sample_offset: u64, initial_skip: u64, chunk_len: u64) -> (r:
    Option<AudioChunkPlan>)
    requires
        chunk_target(sample_offset as nat, initial_skip as nat) + chunk_len <= u64::MAX,
    ensures
        ({
            let target = chunk_target(sample_offset as nat, initial_skip as nat);
            &&& r is None <==> target + chunk_len <= samples_written
            &&& r matches Some(p) ==> {
                &&& p.silence == if target > samples_written {
                    target - samples_written
                } else {
                    0
                }
                &&& p.skip_front == if samples_written > target {
                    samples_written - target
                } else {
                    0
                }
                &&& p.write == chunk_len - p.skip_front
                &&& samples_written + p.silence + p.write == target + chunk_len
            }
        }),
{
    let target_pos = sample_offset.saturating_sub(initial_skip);
    if target_pos + chunk_len <= samples_written {
        return None;
    }
    let mut written = samples_written;
    let mut silence: u64 = 0;
    if target_pos > written {
        silence = target_pos - written;
        written = written + silence;
    }
    let skip_front = if written > target_pos {
        written - target_pos
    } else {
        0
    };
    let skip = if skip_front < chunk_len {
        skip_front
    } else {
        chunk_len
    };
    Some(AudioChunkPlan { silence, skip_front, write: chunk_len - skip })
}

/// A/V sync: once a chunk is written, the audio timeline ends exactly where
/// the chunk ends, and it never moves backwards.
pub proof fn lemma_audio_position(samples_written: nat, target: nat, chunk_len: nat)
    requires
        target + chunk_len > samples_written,
    ensures
        ({
            let silence: nat = if target > samples_written {
                (target - samples_written) as nat
            } else {
                0
            };
            let skip: nat = if samples_written > target {
                (samples_written - target) as nat
            } else {
                0
            };
            &&& samples_written + silence + (chunk_len - skip) == target + chunk_len
            &&& samples_written <= target + chunk_len
        }),
{
}

/// Samples of a stream at `sample_rate` that fit in `nanos` nanoseconds,
/// rounded to the nearest sample (halves up).
pub open spec fn spec_samples_in(nanos: nat, sample_rate: nat) -> nat {
    (nanos * sample_rate + 500_000_000) / 1_000_000_000
}

/// Number of audio samples covering an offset between the audio and video
/// start times.
pub fn samples_in(nanos: u64, sample_rate: u32) -> (n: u64)
    requires
        (nanos as int) * (sample_rate as int) + 500_000_000 <= u64::MAX,
    ensures
        n == spec_samples_in(nanos as nat, sample_rate as nat),
{
    (nanos * sample_rate as u64 + 500_000_000) / NANOS_PER_SEC
}

// ---------------------------------------------------------------------------
// Encoder choice
// ---------------------------------------------------------------------------

/// H.264 encoders in order of preference: software libx264 first (best
/// quality and compatibility), then OpenH264, then hardware encoders.
pub open spec fn encoder_preferences() -> Seq<Seq<char>> {
    seq![
        "libx264"@,
        "libopenh264"@,
        "h264_vaapi"@,
        "h264_nvenc"@,
        "h264_amf"@,
        "h264_qsv"@,
        "h264_v4l2m2m"@,
        "h264_vulkan"@,
    ]
}

/// The first preferred encoder named in `listing`, from index `k` on; libx264
/// when none is.
pub open spec fn spec_select_encoder(listing: Seq<char>, k: nat) -> Seq<char>
    decreases 8 - k,
{
    if k >= 8 {
        "libx264"@
    } else if contains(listing, encoder_preferences()[k as int]) {
        encoder_preferences()[k as int]
    } else {
        spec_select_encoder(listing, k + 1)
    }
}

/// The H.264 encoder to use, given the output of `ffmpeg -encoders`: the
/// first encoder of the preference list whose name appears in it (a name
/// holds no line break, so it appears in the output exactly when it appears
/// on one of its lines), and libx264 as a last resort.
pub fn select_h264_encoder(encoders_output: &str) -> (r: &'static str)
    ensures
        r@ == spec_select_encoder(encoders_output@, 0),
{
    let prefs: [&'static str; 8] = [
        "libx264",
        "libopenh264",
        "h264_vaapi",
        "h264_nvenc",
        "h264_amf",
        "h264_qsv",
        "h264_v4l2m2m",
        "h264_vulkan",
    ];
    let mut k: usize = 0;
    while k < 8
        invariant
            k <= 8,
            forall|j: int| 0 <= j < 8 ==> (#[trigger] prefs@[j])@ == encoder_preferences()[j],
            spec_select_encoder(encoders_output@, 0) == spec_select_encoder(
                encoders_output@,
                k as nat,
            ),
        decreases 8 - k,
    {
        if str_contains(encoders_output, prefs[k]) {
            return prefs[k];
        }
        k = k + 1;
    }
    "libx264"
}

// ---------------------------------------------------------------------------
// Command lines
// ---------------------------------------------------------------------------

/// The characters of each argument.
pub open spec fn arg_views(args: Seq<String>) -> Seq<Seq<char>> {
    args.map_values(|a: String| a@)
}

fn push_arg(args: &mut Vec<String>, a: &str)
    ensures
        arg_views(final(args)@) == arg_views(old(args)@).push(a@),
{
    args.push(a.to_string());
    assert(arg_views(args@) =~= arg_views(old(args)@).push(a@));
}

/// `WIDTHxHEIGHT`.
pub open spec fn size_arg(width: nat, height: nat) -> Seq<char> {
    decimal(width) + seq!['x'] + decimal(height)
}

/// Options that follow the choice of each encoder.
pub open spec fn encoder_options(encoder: Seq<char>) -> Seq<Seq<char>> {
    if encoder == "libx264"@ {
        seq!["-preset"@, "ultrafast"@, "-crf"@, "23"@]
    } else if encoder == "libopenh264"@ {
        seq!["-b:v"@, "2M"@]
    } else if encoder == "h264_vaapi"@ {
        seq!["-qp"@, "23"@]
    } else if encoder == "h264_nvenc"@ || encoder == "h264_amf"@ {
        seq!["-preset"@, "p1"@, "-rc"@, "vbr"@, "-cq"@, "23"@]
    } else {
        Seq::empty()
    }
}

/// The FFmpeg arguments for a recording: raw BGRA video at 30 fps from
/// stdin, raw 48 kHz mono PCM from the audio pipe if there is one, H.264 in
/// yuv420p, AAC audio at 192 kb/s mapped from the pipe, overwriting `output`.
pub open spec fn spec_encoder_args(
    width: nat,
    height: nat,
    encoder: Seq<char>,
    audio_pipe: Option<Seq<char>>,
    output: Seq<char>,
) -> Seq<Seq<char>> {
    video_input_args(width, height) + match audio_pipe {
        Some(p) => audio_input_args(p),
        None => Seq::empty(),
    } + seq!["-c:v"@, encoder] + encoder_options(encoder) + seq!["-pix_fmt"@, "yuv420p"@] + (
    if audio_pipe is Some {
        audio_output_args()
    } else {
        Seq::empty()
    }) + seq!["-y"@, output]
}

/// The arguments that read raw BGRA video at 30 fps from stdin.
pub open spec fn video_input_args(width: nat, height: nat) -> Seq<Seq<char>> {
    seq![
        "-f"@,
        "rawvideo"@,
        "-pix_fmt"@,
        "bgra"@,
        "-s"@,
        size_arg(width, height),
        "-r"@,
        "30"@,
        "-i"@,
        "-"@,
    ]
}

/// The arguments that read raw 48 kHz mono PCM from `pipe`.
pub open spec fn audio_input_args(pipe: Seq<char>) -> Seq<Seq<char>> {
    seq!["-f"@, "s16le"@, "-ar"@, "48000"@, "-ac"@, "1"@, "-i"@, pipe]
}

/// The arguments that encode the audio input as AAC and map both streams.
pub open spec fn audio_output_args() -> Seq<Seq<char>> {
    seq!["-c:a"@, "aac"@, "-b:a"@, "192k"@, "-map"@, "0:v"@, "-map"@, "1:a"@]
}

fn push_video_input(args: &mut Vec<String>, width: u32, height: u32)
    ensures
        arg_views(final(args)@) == arg_views(old(args)@) + video_input_args(width as nat, height as nat),
{
    let ghost start = arg_views(args@);
    push_arg(args, "-f");
    push_arg(args, "rawvideo");
    push_arg(args, "-pix_fmt");
    push_arg(args, "bgra");
    push_arg(args, "-s");
    let mut size = String::new();
    push_decimal(&mut size, width as u64);
    push_char(&mut size, 'x');
    push_decimal(&mut size, height as u64);
    assert(size@ =~= size_arg(width as nat, height as nat));
    push_arg(args, size.as_str());
    push_arg(args, "-r");
    push_arg(args, "30");
    push_arg(args, "-i");
    push_arg(args, "-");
    assert(arg_views(args@) =~= start + video_input_args(width as nat, height as nat));
}

fn push_audio_input(args: &mut Vec<String>, pipe: &str)
    ensures
        arg_views(final(args)@) == arg_views(old(args)@) + audio_input_args(pipe@),
{
    let ghost start = arg_views(args@);
    push_arg(args, "-f");
    push_arg(args, "s16le");
    push_arg(args, "-ar");
    push_arg(args, "48000");
    push_arg(args, "-ac");
    push_arg(args, "1");
    push_arg(args, "-i");
    push_arg(args, pipe);
    assert(arg_views(args@) =~= start + audio_input_args(pipe@));
}

fn push_encoder_options(args: &mut Vec<String>, encoder: &str)
    ensures
        arg_views(final(args)@) == arg_views(old(args)@) + encoder_options(encoder@),
{
    let ghost start = arg_views(args@);
    if str_eq(encoder, "libx264") {
        push_arg(args, "-preset");
        push_arg(args, "ultrafast");
        push_arg(args, "-crf");
        push_arg(args, "23");
    } else if str_eq(encoder, "libopenh264") {
        push_arg(args, "-b:v");
        push_arg(args, "2M");
    } else if str_eq(encoder, "h264_vaapi") {
        push_arg(args, "-qp");
        push_arg(args, "23");
    } else if str_eq(encoder, "h264_nvenc") || str_eq(encoder, "h264_amf") {
        push_arg(args, "-preset");
        push_arg(args, "p1");
        push_arg(args, "-rc");
        push_arg(args, "vbr");
        push_arg(args, "-cq");
        push_arg(args, "23");
    }
    assert(arg_views(args@) =~= start + encoder_options(encoder@));
}

fn push_audio_output(args: &mut Vec<String>)
    ensures
        arg_views(final(args)@) == arg_views(old(args)@) + audio_output_args(),
{
    let ghost start = arg_views(args@);
    push_arg(args, "-c:a");
    push_arg(args, "aac");
    push_arg(args, "-b:a");
    push_arg(args, "192k");
    push_arg(args, "-map");
    push_arg(args, "0:v");
    push_arg(args, "-map");
    push_arg(args, "1:a");
    assert(arg_views(args@) =~= start + audio_output_args());
}

/// Build the FFmpeg arguments for a recording (see `spec_encoder_args`).
pub fn encoder_args(width: u32, height: u32, encoder: &str, audio_pipe: Option<&str>, output: &str) -> (r:
    Vec<String>)
    ensures
        arg_views(r@) == spec_encoder_args(
            width as nat,
            height as nat,
            encoder@,
            match audio_pipe {
                Some(p) => Some(p@),
                None => None,
            },
            output@,
        ),
{
    let ghost pipe = match audio_pipe {
        Some(p) => Some(p@),
        None => None,
    };
    let mut args: Vec<String> = Vec::new();
    assert(arg_views(args@) =~= Seq::<Seq<char>>::empty());
    push_video_input(&mut args, width, height);
    let ghost a1 = arg_views(args@);
    if let Some(p) = audio_pipe {
        push_audio_input(&mut args, p);
    }
    let ghost a2 = arg_views(args@);
    assert(a2 == a1 + match pipe {
        Some(p) => audio_input_args(p),
        None => Seq::<Seq<char>>::empty(),
    }) by {
        if pipe is None {
            assert(a2 =~= a1 + Seq::<Seq<char>>::empty());
        }
    }
    push_arg(&mut args, "-c:v");
    push_arg(&mut args, encoder);
    push_encoder_options(&mut args, encoder);
    push_arg(&mut args, "-pix_fmt");
    push_arg(&mut args, "yuv420p");
    let ghost a3 = arg_views(args@);
    assert(a3 =~= a2 + seq!["-c:v"@, encoder@] + encoder_options(encoder@) + seq![
        "-pix_fmt"@,
        "yuv420p"@,
    ]);
    if audio_pipe.is_some() {
        push_audio_output(&mut args);
    }
    let ghost a4 = arg_views(args@);
    assert(a4 == a3 + if pipe is Some {
        audio_output_args()
    } else {
        Seq::<Seq<char>>::empty()
    }) by {
        if pipe is None {
            assert(a4 =~= a3 + Seq::<Seq<char>>::empty());
        }
    }
    push_arg(&mut args, "-y");
    push_arg(&mut args, output);
    assert(arg_views(args@) =~= a4 + seq!["-y"@, output@]);
    assert(arg_views(args@) =~= spec_encoder_args(width as nat, height as nat, encoder@, pipe, output@));
    args
}

/// The FFmpeg arguments that convert an MP4 recording to `format`, or `None`
/// for MP4 itself, which needs no conversion.
pub open spec fn spec_transcode_args(source: Seq<char>, format: OutputFormat, output: Seq<char>) -> Option<
    Seq<Seq<char>>,
> {
    let codec: Seq<Seq<char>> = match format {
        OutputFormat::Mp4 => Seq::empty(),
        OutputFormat::WebM => seq!["-c:v"@, "libvpx-vp9"@, "-crf"@, "30"@, "-b:v"@, "0"@],
        OutputFormat::Mkv => seq!["-c:v"@, "copy"@],
        OutputFormat::QuickTime => seq!["-c:v"@, "copy"@, "-f"@, "mov"@],
        OutputFormat::Gif => seq!["-vf"@, "fps=15,split[s0][s1];[s0]palettegen[p];[s1][p]paletteuse"@],
        OutputFormat::AnimatedPng => seq!["-plays"@, "0"@, "-f"@, "apng"@],
        OutputFormat::AnimatedWebp => seq![
            "-c:v"@,
            "libwebp"@,
            "-lossless"@,
            "0"@,
            "-q:v"@,
            "75"@,
            "-loop"@,
            "0"@,
        ],
    };
    if format == OutputFormat::Mp4 {
        None
    } else {
        Some(seq!["-i"@, source] + codec + seq!["-y"@, output])
    }
}

/// Build the FFmpeg arguments that transcode `source` into `output`.
pub fn transcode_args(source: &str, format: OutputFormat, output: &str) -> (r: Option<Vec<String>>)
    ensures
        match r {
            Some(v) => spec_transcode_args(source@, format, output@) == Some(arg_views(v@)),
            None => spec_transcode_args(source@, format, output@) is None,
        },
{
    let mut args: Vec<String> = Vec::new();
    assert(arg_views(args@) =~= Seq::<Seq<char>>::empty());
    push_arg(&mut args, "-i");
    push_arg(&mut args, source);
    match format {
        OutputFormat::Mp4 => {
            return None;
        },
        OutputFormat::WebM => {
            push_arg(&mut args, "-c:v");
            push_arg(&mut args, "libvpx-vp9");
            push_arg(&mut args, "-crf");
            push_arg(&mut args, "30");
            push_arg(&mut args, "-b:v");
            push_arg(&mut args, "0");
        },
        OutputFormat::Mkv => {
            push_arg(&mut args, "-c:v");
            push_arg(&mut args, "copy");
        },
        OutputFormat::QuickTime => {
            push_arg(&mut args, "-c:v");
            push_arg(&mut args, "copy");
            push_arg(&mut args, "-f");
            push_arg(&mut args, "mov");
        },
        OutputFormat::Gif => {
            push_arg(&mut args, "-vf");
            push_arg(&mut args, "fps=15,split[s0][s1];[s0]palettegen[p];[s1][p]paletteuse");
        },
        OutputFormat::AnimatedPng => {
            push_arg(&mut args, "-plays");
            push_arg(&mut args, "0");
            push_arg(&mut args, "-f");
            push_arg(&mut args, "apng");
        },
        OutputFormat::AnimatedWebp => {
            push_arg(&mut args, "-c:v");
            push_arg(&mut args, "libwebp");
            push_arg(&mut args, "-lossless");
            push_arg(&mut args, "0");
            push_arg(&mut args, "-q:v");
            push_arg(&mut args, "75");
            push_arg(&mut args, "-loop");
            push_arg(&mut args, "0");
        },
    }
    push_arg(&mut args, "-y");
    push_arg(&mut args, output);
    assert(Some(arg_views(args@)) =~= spec_transcode_args(source@, format, output@));
    Some(args)
}

/// The encoder's frame size: each dimension rounded down to an even number
/// (many codecs, H.264 among them, need even sizes), or an error naming the
/// rounded size when either becomes zero.
pub fn encoder_dimensions(width: u32, height: u32) -> (r: Result<(u32, u32), String>)
    ensures
        ({
            let w = (width - width % 2) as nat;
            let h = (height - height % 2) as nat;
            &&& r is Ok <==> (w != 0 && h != 0)
            &&& r matches Ok(d) ==> d.0 == w && d.1 == h
            &&& r matches Err(msg) ==> msg@ == "Invalid dimensions: "@ + decimal(w) + seq!['x']
                + decimal(h)
        }),
{
    let w = width - width % 2;
    let h = height - height % 2;
    if w == 0 || h == 0 {
        let mut msg = String::new();
        push_str(&mut msg, "Invalid dimensions: ");
        push_decimal(&mut msg, w as u64);
        push_char(&mut msg, 'x');
        push_decimal(&mut msg, h as u64);
        return Err(msg);
    }
    Ok((w, h))
}

/// The file name of a recording started at `timestamp`.
pub fn recording_file_name(timestamp: &str) -> (r: String)
    ensures
        r@ == "recording_"@ + timestamp@ + ".mp4"@,
{
    let mut out = String::new();
    push_str(&mut out, "recording_");
    push_str(&mut out, timestamp);
    push_str(&mut out, ".mp4");
    out
}

/// The local date and time, field by field as chrono's `Datelike` and
/// `Timelike` give them.
#[derive(Debug, Clone, Copy)]
pub struct LocalTime {
    pub year: i32,
    pub month: u32,
    pub day: u32,
    pub hour: u32,
    pub minute: u32,
    pub second: u32,
    /// Nanoseconds since the whole second; 1_000_000_000 and more mark a
    /// leap second.
    pub nanosecond: u32,
}

impl LocalTime {
    /// The ranges chrono documents for each field.
    pub open spec fn wf(&self) -> bool {
        &&& 1 <= self.month <= 12
        &&& 1 <= self.day <= 31
        &&& self.hour < 24
        &&& self.minute < 60
        &&& self.second < 60
        &&& self.nanosecond < 2_000_000_000
    }

    /// The second as a formatted time shows it: 60 during a leap second.
    pub open spec fn shown_second(&self) -> nat {
        (self.second + self.nanosecond / 1_000_000_000) as nat
    }
}

/// The current local time from the `chrono` crate: `Local::now()`, read
/// through `Datelike` (`year`, `month`, `day`) and `Timelike` (`hour`,
/// `minute`, `second`, `nanosecond`).
///
/// Claimed: each field lies in the range chrono's documentation gives for it
/// (month 1 to 12, day 1 to 31, hour below 24, minute and second below 60,
/// nanosecond below 2_000_000_000). Which time it is depends on the clock and
/// the time zone and is not claimed.
#[verifier::external_body]
fn local_now() -> (t: LocalTime)
    ensures
        t.wf(),
{
    let now = chrono::Local::now();
    LocalTime {
        year: chrono::Datelike::year(&now),
        month: chrono::Datelike::month(&now),
        day: chrono::Datelike::day(&now),
        hour: chrono::Timelike::hour(&now),
        minute: chrono::Timelike::minute(&now),
        second: chrono::Timelike::second(&now),
        nanosecond: chrono::Timelike::nanosecond(&now),
    }
}

/// The decimal numeral of `n`, left-padded with zeros to at least four characters.
pub open spec fn decimal4(n: nat) -> Seq<char> {
    if n < 10 {
        seq!['0', '0', '0'] + decimal(n)
    } else if n < 100 {
        seq!['0', '0'] + decimal(n)
    } else if n < 1000 {
        seq!['0'] + decimal(n)
    } else {
        decimal(n)
    }
}

/// A year as `%Y` writes it: four digits at least, zero-padded, with a sign
/// in front of years before 0 or after 9999.
pub open spec fn year_text(y: int) -> Seq<char> {
    if 0 <= y <= 9999 {
        decimal4(y as nat)
    } else if y > 9999 {
        seq!['+'] + decimal4(y as nat)
    } else {
        seq!['-'] + decimal4((-y) as nat)
    }
}

/// A time stamp in the form `%Y-%m-%d_%H%M%S`: year, month and day joined by
/// `-`, then `_` and hour, minute and second, each of these two digits at least.
pub open spec fn spec_timestamp(year: int, month: nat, day: nat, hour: nat, minute: nat, second: nat) -> Seq<
    char,
> {
    year_text(year) + timestamp_tail(month, day, hour, minute, second)
}

fn push_decimal4(out: &mut String, n: u64)
    ensures
        final(out)@ == old(out)@ + decimal4(n as nat),
{
    if n < 10 {
        push_str(out, "000");
    } else if n < 100 {
        push_str(out, "00");
    } else if n < 1000 {
        push_char(out, '0');
    }
    push_decimal(out, n);
    proof {
        reveal_strlit("000");
        reveal_strlit("00");
        assert(n < 10 ==> "000"@ =~= seq!['0', '0', '0']);
        assert(n >= 10 && n < 100 ==> "00"@ =~= seq!['0', '0']);
        if n < 10 {
            assert(old(out)@ + "000"@ + decimal(n as nat) =~= old(out)@ + decimal4(n as nat));
        } else if n < 100 {
            assert(old(out)@ + "00"@ + decimal(n as nat) =~= old(out)@ + decimal4(n as nat));
        } else if n < 1000 {
            assert(old(out)@.push('0') + decimal(n as nat) =~= old(out)@ + decimal4(n as nat));
        }
    }
}

/// The text of a time stamp (see `spec_timestamp`).
pub fn timestamp_text(year: i32, month: u32, day: u32, hour: u32, minute: u32, second: u32) -> (r: String)
    ensures
        r@ == spec_timestamp(
            year as int,
            month as nat,
            day as nat,
            hour as nat,
            minute as nat,
            second as nat,
        ),
{
    let mut out = String::new();
    let y = year as i64;
    if y < 0 {
        push_char(&mut out, '-');
        push_decimal4(&mut out, (-y) as u64);
    } else {
        if y > 9999 {
            push_char(&mut out, '+');
        }
        push_decimal4(&mut out, y as u64);
    }
    let ghost yt = out@;
    push_char(&mut out, '-');
    push_decimal2(&mut out, month as u64);
    push_char(&mut out, '-');
    push_decimal2(&mut out, day as u64);
    push_char(&mut out, '_');
    push_decimal2(&mut out, hour as u64);
    push_decimal2(&mut out, minute as u64);
    push_decimal2(&mut out, second as u64);
    proof {
        reveal_strlit("");
        assert(yt =~= year_text(year as int));
        assert(out@ =~= spec_timestamp(
            year as int,
            month as nat,
            day as nat,
            hour as nat,
            minute as nat,
            second as nat,
        ));
    }
    out
}

/// Whether every character of `s` is an ASCII digit.
pub open spec fn all_ascii_digits(s: Seq<char>) -> bool {
    forall|i: int| 0 <= i < s.len() ==> '0' <= #[trigger] s[i] <= '9'
}

/// The shape of a time stamp: an optional sign and at least four digits,
/// then `-DD-DD_DDDDDD` with each `D` an ASCII digit.
pub open spec fn is_timestamp_shape(ts: Seq<char>) -> bool {
    ts.len() >= 17 && {
        let y = ts.subrange(0, ts.len() - 13);
        let t = ts.subrange(ts.len() - 13, ts.len() as int);
        &&& ((y.len() >= 4 && all_ascii_digits(y)) || (y.len() >= 5 && (y[0] == '+' || y[0] == '-')
            && all_ascii_digits(y.drop_first())))
        &&& t[0] == '-' && t[3] == '-' && t[6] == '_'
        &&& all_ascii_digits(t.subrange(1, 3)) && all_ascii_digits(t.subrange(4, 6))
            && all_ascii_digits(t.subrange(7, 13))
    }
}

proof fn lemma_decimal_digits(n: nat)
    ensures
        all_ascii_digits(decimal(n)),
        decimal(n).len() >= 1,
        n < 10 ==> decimal(n).len() == 1,
        10 <= n < 100 ==> decimal(n).len() == 2,
        100 <= n < 1000 ==> decimal(n).len() == 3,
        n >= 1000 ==> decimal(n).len() >= 4,
    decreases n,
{
    if n >= 10 {
        lemma_decimal_digits(n / 10);
        assert forall|i: int| 0 <= i < decimal(n).len() implies '0' <= #[trigger] decimal(n)[i] <= '9' by {
            if i < decimal(n / 10).len() {
                assert(decimal(n)[i] == decimal(n / 10)[i]);
            }
        }
    }
}

proof fn lemma_decimal4_digits(n: nat)
    ensures
        all_ascii_digits(decimal4(n)),
        decimal4(n).len() >= 4,
{
    lemma_decimal_digits(n);
    let d = decimal4(n);
    assert forall|i: int| 0 <= i < d.len() implies '0' <= #[trigger] d[i] <= '9' by {
        if n < 10 {
            if i >= 3 {
                assert(d[i] == decimal(n)[i - 3]);
            }
        } else if n < 100 {
            if i >= 2 {
                assert(d[i] == decimal(n)[i - 2]);
            }
        } else if n < 1000 {
            if i >= 1 {
                assert(d[i] == decimal(n)[i - 1]);
            }
        }
    }
}

proof fn lemma_decimal2_digits(n: nat)
    requires
        n < 100,
    ensures
        all_ascii_digits(decimal2(n)),
        decimal2(n).len() == 2,
{
    lemma_decimal_digits(n);
}

proof fn lemma_year_text_shape(year: int)
    ensures
        ({
            let y = year_text(year);
            (y.len() >= 4 && all_ascii_digits(y)) || (y.len() >= 5 && (y[0] == '+' || y[0] == '-')
                && all_ascii_digits(y.drop_first()))
        }),
{
    let v: nat = if 0 <= year { year as nat } else { (-year) as nat };
    lemma_decimal4_digits(v);
    if !(0 <= year <= 9999) {
        assert(year_text(year).drop_first() =~= decimal4(v));
    }
}

/// The part of a time stamp after the year.
pub open spec fn timestamp_tail(month: nat, day: nat, hour: nat, minute: nat, second: nat) -> Seq<char> {
    seq!['-'] + decimal2(month) + seq!['-'] + decimal2(day) + seq!['_'] + decimal2(hour) + decimal2(minute)
        + decimal2(second)
}

#[verifier::spinoff_prover]
proof fn lemma_tail_shape(month: nat, day: nat, hour: nat, minute: nat, second: nat)
    requires
        month < 100,
        day < 100,
        hour < 100,
        minute < 100,
        second < 100,
    ensures
        ({
            let t = timestamp_tail(month, day, hour, minute, second);
            &&& t.len() == 13
            &&& t[0] == '-' && t[3] == '-' && t[6] == '_'
            &&& all_ascii_digits(t.subrange(1, 3)) && all_ascii_digits(t.subrange(4, 6))
                && all_ascii_digits(t.subrange(7, 13))
        }),
{
    let m2 = decimal2(month);
    let d2 = decimal2(day);
    let h2 = decimal2(hour);
    let mi2 = decimal2(minute);
    let s2 = decimal2(second);
    lemma_decimal2_digits(month);
    lemma_decimal2_digits(day);
    lemma_decimal2_digits(hour);
    lemma_decimal2_digits(minute);
    lemma_decimal2_digits(second);
    let t = timestamp_tail(month, day, hour, minute, second);
    let hms = h2 + mi2 + s2;
    assert(t =~= seq!['-'] + m2 + seq!['-'] + d2 + seq!['_'] + hms);
    assert(t.subrange(1, 3) =~= m2);
    assert(t.subrange(4, 6) =~= d2);
    assert(t.subrange(7, 13) =~= hms);
    assert forall|i: int| 0 <= i < hms.len() implies '0' <= #[trigger] hms[i] <= '9' by {
        if i < 2 {
            assert(hms[i] == h2[i]);
        } else if i < 4 {
            assert(hms[i] == mi2[i - 2]);
        } else {
            assert(hms[i] == s2[i - 4]);
        }
    }
}

#[verifier::spinoff_prover]
proof fn lemma_shape_of_parts(y: Seq<char>, t: Seq<char>)
    requires
        (y.len() >= 4 && all_ascii_digits(y)) || (y.len() >= 5 && (y[0] == '+' || y[0] == '-')
            && all_ascii_digits(y.drop_first())),
        t.len() == 13,
        t[0] == '-' && t[3] == '-' && t[6] == '_',
        all_ascii_digits(t.subrange(1, 3)) && all_ascii_digits(t.subrange(4, 6)) && all_ascii_digits(
            t.subrange(7, 13),
        ),
    ensures
        is_timestamp_shape(y + t),
{
    let ts = y + t;
    assert(ts.subrange(0, ts.len() - 13) =~= y);
    assert(ts.subrange(ts.len() - 13, ts.len() as int) =~= t);
}

/// A time stamp of a time whose fields are in range has the time stamp shape.
#[verifier::spinoff_prover]
pub proof fn lemma_timestamp_shape(year: int, month: nat, day: nat, hour: nat, minute: nat, second: nat)
    requires
        month < 100,
        day < 100,
        hour < 100,
        minute < 100,
        second < 100,
    ensures
        is_timestamp_shape(spec_timestamp(year, month, day, hour, minute, second)),
{
    lemma_year_text_shape(year);
    lemma_tail_shape(month, day, hour, minute, second);
    let y = year_text(year);
    let tail = timestamp_tail(month, day, hour, minute, second);
    lemma_shape_of_parts(y, tail);
}

/// A unique file name for a recording started now: `recording_`, the local
/// time as `YYYY-MM-DD_HHMMSS`, `.mp4`.
pub fn new_recording_file_name() -> (r: String)
    ensures
        exists|t: LocalTime|
            t.wf() && r@ == "recording_"@ + spec_timestamp(
                t.year as int,
                t.month as nat,
                t.day as nat,
                t.hour as nat,
                t.minute as nat,
                #[trigger] t.shown_second(),
            ) + ".mp4"@,
        exists|ts: Seq<char>| is_timestamp_shape(ts) && r@ == "recording_"@ + ts + ".mp4"@,
{
    let t = local_now();
    let shown = t.second + t.nanosecond / 1_000_000_000;
    let ts = timestamp_text(t.year, t.month, t.day, t.hour, t.minute, shown);
    proof {
        lemma_timestamp_shape(
            t.year as int,
            t.month as nat,
            t.day as nat,
            t.hour as nat,
            t.minute as nat,
            shown as nat,
        );
    }
    let r = recording_file_name(ts.as_str());
    assert(t.shown_second() == shown);
    r
}

/// What `Path::with_extension` makes of a path and an extension.
pub uninterp spec fn path_with_extension(path: Seq<char>, extension: Seq<char>) -> Seq<char>;

/// The path with its extension replaced (std's `Path::with_extension`).
///
/// Claimed: the result is `path_with_extension` of the arguments. The
/// extension holds no path separator, on which the std function panics.
#[verifier::external_body]
fn with_extension(path: &str, extension: &str) -> (r: String)
    requires
        !extension@.contains('/'),
        !extension@.contains('\\'),
    ensures
        r@ == path_with_extension(path@, extension@),
{
    std::path::Path::new(path).with_extension(extension).to_string_lossy().into_owned()
}

/// Where a recording transcoded to `format` is written: the source path
/// with the format's extension.
pub fn transcode_output_path(source_path: &str, format: OutputFormat) -> (r: String)
    ensures
        r@ == path_with_extension(source_path@, crate::recording::spec_extension(format)),
{
    let ext = format.extension();
    proof {
        reveal_strlit("mp4");
        reveal_strlit("webm");
        reveal_strlit("mkv");
        reveal_strlit("mov");
        reveal_strlit("gif");
        reveal_strlit("apng");
        reveal_strlit("webp");
        assert(!ext@.contains('/') && !ext@.contains('\\')) by {
            if ext@.contains('/') || ext@.contains('\\') {
                let i = choose|i: int| 0 <= i < ext@.len() && (ext@[i] == '/' || ext@[i] == '\\');
                assert(ext@[i] == '/' || ext@[i] == '\\');
            }
        }
    }
    with_extension(source_path, ext)
}

/// The last line of `s` as `str::lines` splits it: the text after the last
/// line feed (ignoring one at the very end), without a carriage return that
/// preceded the line feed.
pub open spec fn last_line(s: Seq<char>) -> Seq<char> {
    let t = if s.len() > 0 && s.last() == '\n' {
        s.drop_last()
    } else {
        s
    };
    let start = last_line_start(t, t.len() as int);
    let line = t.subrange(start, t.len() as int);
    if t.len() < s.len() && line.len() > 0 && line.last() == '\r' {
        line.drop_last()
    } else {
        line
    }
}

/// Index just after the last line feed of `t[..k]`, or 0.
pub open spec fn last_line_start(t: Seq<char>, k: int) -> int
    decreases k,
{
    if k <= 0 {
        0
    } else if t[k - 1] == '\n' {
        k
    } else {
        last_line_start(t, k - 1)
    }
}

/// The error reported when a transcoding run fails: the last line FFmpeg
/// wrote to its error output, or the exit code when it wrote nothing.
pub open spec fn spec_transcode_failure(stderr: Seq<char>, exit_code: Option<i32>) -> Seq<char> {
    if stderr.len() == 0 {
        "FFmpeg transcoding failed with exit code: "@ + match exit_code {
            Some(c) => "Some("@ + crate::capture::idecimal(c as int) + seq![')'],
            None => "None"@,
        }
    } else {
        "FFmpeg transcoding failed: "@ + last_line(stderr)
    }
}

/// Build the message for a failed transcoding run (see `spec_transcode_failure`).
pub fn transcode_failure_message(stderr: &str, exit_code: Option<i32>) -> (r: String)
    ensures
        r@ == spec_transcode_failure(stderr@, exit_code),
{
    let mut out = String::new();
    let n = stderr.unicode_len();
    if n == 0 {
        push_str(&mut out, "FFmpeg transcoding failed with exit code: ");
        match exit_code {
            Some(c) => {
                push_str(&mut out, "Some(");
                let mut num = String::new();
                if c < 0 {
                    push_char(&mut num, '-');
                    push_decimal(&mut num, (0i64 - c as i64) as u64);
                } else {
                    push_decimal(&mut num, c as u64);
                }
                assert(num@ =~= crate::capture::idecimal(c as int));
                push_str(&mut out, num.as_str());
                push_char(&mut out, ')');
            },
            None => push_str(&mut out, "None"),
        }
        return out;
    }
    push_str(&mut out, "FFmpeg transcoding failed: ");
    let ends_nl = stderr.get_char(n - 1) == '\n';
    let tn = if ends_nl {
        n - 1
    } else {
        n
    };
    let ghost s = stderr@;
    let ghost t = if s.len() > 0 && s.last() == '\n' {
        s.drop_last()
    } else {
        s
    };
    assert(t =~= s.subrange(0, tn as int));
    let mut k = tn;
    while k > 0 && stderr.get_char(k - 1) != '\n'
        invariant
            k <= tn <= n == s.len(),
            s == stderr@,
            t == s.subrange(0, tn as int),
            last_line_start(t, tn as int) == last_line_start(t, k as int),
        decreases k,
    {
        k = k - 1;
    }
    let mut end = tn;
    if ends_nl && end > k && stderr.get_char(end - 1) == '\r' {
        end = end - 1;
    }
    let mut i = k;
    let ghost base = out@;
    while i < end
        invariant
            k <= i <= end <= n == s.len(),
            s == stderr@,
            out@ == base + s.subrange(k as int, i as int),
        decreases end - i,
    {
        push_char(&mut out, stderr.get_char(i));
        assert(s.subrange(k as int, i + 1) =~= s.subrange(k as int, i as int).push(s[i as int]));
        i = i + 1;
    }
    assert(out@ =~= spec_transcode_failure(stderr@, exit_code));
    out
}

/// The path of the named pipe that carries audio to FFmpeg for process `pid`:
/// a Windows named pipe, or a FIFO in `/tmp` elsewhere.
pub fn audio_pipe_path(platform: crate::platform::Platform, pid: u32) -> (r: String)
    ensures
        r@ == (match platform {
            crate::platform::Platform::Windows => "\\\\.\\pipe\\omnirec_audio_"@,
            _ => "/tmp/omnirec_audio_"@,
        }) + decimal(pid as nat),
{
    let mut out = String::new();
    match platform {
        crate::platform::Platform::Windows => push_str(&mut out, "\\\\.\\pipe\\omnirec_audio_"),
        _ => push_str(&mut out, "/tmp/omnirec_audio_"),
    }
    push_decimal(&mut out, pid as u64);
    out
}

/// The bytes of `samples` samples of silence in 16-bit mono PCM.
pub fn silence_bytes(samples: usize) -> (r: Vec<u8>)
    requires
        samples * 2 <= usize::MAX,
    ensures
        r@ == crate::frame::zeros((samples * 2) as nat),
{
    let mut out: Vec<u8> = Vec::new();
    crate::frame::append_zeros(&mut out, samples * 2);
    assert(out@ =~= crate::frame::zeros((samples * 2) as nat));
    out
}

} // verus!
