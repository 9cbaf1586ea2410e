//! Whisper model management: the listing shown to the user, the status of a
//! model on disk, and the bookkeeping of a model download.
//!
//! Fetching over the network and writing the file are done by the
//! application shell, which reports each received chunk here.

use vstd::prelude::*;
use crate::config::{
    spec_description, spec_display_name, spec_is_english_only, spec_size_bytes, spec_size_display,
    WhisperModel,
};
use crate::text::{chars_of, push_char, push_str};

verus! {

/// Model status information.
#[derive(Debug, Clone)]
pub struct ModelStatus {
    pub model: String,
    pub display_name: String,
    pub path: String,
    pub exists: bool,
    pub file_size: Option<u64>,
    pub expected_size: u64,
    pub size_display: String,
}

/// Model information for listing available models.
#[derive(Debug, Clone)]
pub struct ModelInfo {
    pub id: String,
    pub display_name: String,
    pub size_bytes: u64,
    pub size_display: String,
    pub description: String,
    pub english_only: bool,
    pub downloaded: bool,
}

/// Sampling strategy of the speech model, in the numbering of the native
/// whisper library.
#[derive(Debug, Clone, Copy, PartialEq, Eq, Structural)]
pub enum WhisperSamplingStrategy {
    Greedy,
    BeamSearch,
}

impl WhisperSamplingStrategy {
    /// The number the native library gives this strategy.
    pub fn code(&self) -> (c: i32)
        ensures
            c == (match *self {
                WhisperSamplingStrategy::Greedy => 0int,
                WhisperSamplingStrategy::BeamSearch => 1int,
            }),
    {
        match self {
            WhisperSamplingStrategy::Greedy => 0,
            WhisperSamplingStrategy::BeamSearch => 1,
        }
    }
}

/// Download progress event payload.
#[derive(Debug, Clone)]
pub struct DownloadProgress {
    pub model: String,
    pub bytes_downloaded: u64,
    pub total_bytes: u64,
    pub percentage: u8,
    pub status: String,
    pub error: Option<String>,
}

/// `s` with every `.` replaced by `-`.
pub open spec fn dots_to_dashes(s: Seq<char>) -> Seq<char> {
    s.map_values(|c: char| if c == '.' {
        '-'
    } else {
        c
    })
}

/// The listing entry of a model: its id is its display name with dots
/// replaced by dashes.
pub fn model_info(model: WhisperModel, downloaded: bool) -> (r: ModelInfo)
    ensures
        r.id@ == dots_to_dashes(spec_display_name(model)),
        r.display_name@ == spec_display_name(model),
        r.size_bytes == spec_size_bytes(model),
        r.size_display@ == spec_size_display(model),
        r.description@ == spec_description(model),
        r.english_only == spec_is_english_only(model),
        r.downloaded == downloaded,
{
    let name = model.display_name();
    let chars = chars_of(name);
    let mut id = String::new();
    let mut i: usize = 0;
    while i < chars.len()
        invariant
            i <= chars@.len(),
            chars@ == name@,
            id@ == dots_to_dashes(chars@.subrange(0, i as int)),
        decreases chars@.len() - i,
    {
        let c = chars[i];
        push_char(&mut id, if c == '.' { '-' } else { c });
        assert(dots_to_dashes(chars@.subrange(0, i + 1)) =~= dots_to_dashes(
            chars@.subrange(0, i as int),
        ).push(if c == '.' { '-' } else { c }));
        i = i + 1;
    }
    assert(chars@.subrange(0, chars@.len() as int) =~= chars@);
    ModelInfo {
        id,
        display_name: name.to_string(),
        size_bytes: model.size_bytes(),
        size_display: model.size_display().to_string(),
        description: model.description().to_string(),
        english_only: model.is_english_only(),
        downloaded,
    }
}

/// The identifier of a model in status reports: the variant's name in lower
/// case, with `en` preceded by a dash (`medium-en`, `largev3`).
pub open spec fn spec_status_id(m: WhisperModel) -> Seq<char> {
    match m {
        WhisperModel::TinyEn => "tiny-en"@,
        WhisperModel::Tiny => "tiny"@,
        WhisperModel::BaseEn => "base-en"@,
        WhisperModel::Base => "base"@,
        WhisperModel::SmallEn => "small-en"@,
        WhisperModel::Small => "small"@,
        WhisperModel::MediumEn => "medium-en"@,
        WhisperModel::Medium => "medium"@,
        WhisperModel::LargeV3 => "largev3"@,
    }
}

/// The status report of a model stored at `path`.
pub fn model_status(model: WhisperModel, path: String, exists: bool, file_size: Option<u64>) -> (r:
    ModelStatus)
    ensures
        r.model@ == spec_status_id(model),
        r.display_name@ == spec_display_name(model),
        r.path == path,
        r.exists == exists,
        r.file_size == file_size,
        r.expected_size == spec_size_bytes(model),
        r.size_display@ == spec_size_display(model),
{
    let id = match model {
        WhisperModel::TinyEn => "tiny-en",
        WhisperModel::Tiny => "tiny",
        WhisperModel::BaseEn => "base-en",
        WhisperModel::Base => "base",
        WhisperModel::SmallEn => "small-en",
        WhisperModel::Small => "small",
        WhisperModel::MediumEn => "medium-en",
        WhisperModel::Medium => "medium",
        WhisperModel::LargeV3 => "largev3",
    };
    ModelStatus {
        model: id.to_string(),
        display_name: model.display_name().to_string(),
        path,
        exists,
        file_size,
        expected_size: model.size_bytes(),
        size_display: model.size_display().to_string(),
    }
}

/// Parse a model name given by the user interface.
pub fn parse_model(name: &str) -> (r: Result<WhisperModel, String>)
    ensures
        match r {
            Ok(m) => crate::config::spec_model_from_str(name@) == Some(m),
            Err(msg) => crate::config::spec_model_from_str(name@) is None && msg@ == "Invalid model: "@
                + name@,
        },
{
    match WhisperModel::from_str(name) {
        Some(m) => Ok(m),
        None => {
            let mut msg = String::new();
            push_str(&mut msg, "Invalid model: ");
            push_str(&mut msg, name);
            Err(msg)
        },
    }
}

// ---------------------------------------------------------------------------
// Download bookkeeping
// ---------------------------------------------------------------------------

/// Whole percent of `total` that `downloaded` makes, as a byte (at most 255);
/// 0 when the total size is unknown.
pub open spec fn spec_percentage(downloaded: nat, total: nat) -> nat {
    if total == 0 {
        0
    } else if downloaded * 100 / total > 255 {
        255
    } else {
        downloaded * 100 / total
    }
}

/// Progress of one download: bytes received, the announced size (0 when
/// unknown) and the last percentage reported.
pub struct DownloadTracker {
    pub downloaded: u64,
    pub total_bytes: u64,
    pub last_percentage: u8,
}

impl DownloadTracker {
    /// A download of `total_bytes` bytes (0 when the size is unknown) that
    /// has not started.
    pub fn new(total_bytes: u64) -> (t: Self)
        ensures
            t.downloaded == 0 && t.total_bytes == total_bytes && t.last_percentage == 0,
    {
        DownloadTracker { downloaded: 0, total_bytes, last_percentage: 0 }
    }

    /// Count a received chunk of `len` bytes. Returns the new percentage
    /// when it is higher than the last one reported (and makes it the last
    /// one reported), `None` otherwise.
    pub fn on_chunk(&mut self, len: u64) -> (r: Option<u8>)
        requires
            old(self).downloaded + len <= u64::MAX,
        ensures
            final(self).downloaded == old(self).downloaded + len,
            final(self).total_bytes == old(self).total_bytes,
            ({
                let p = spec_percentage(final(self).downloaded as nat, old(self).total_bytes as nat);
                &&& p > old(self).last_percentage ==> r == Some(p as u8) && final(self).last_percentage
                    == p
                &&& p <= old(self).last_percentage ==> r is None && final(self).last_percentage
                    == old(self).last_percentage
            }),
    {
        self.downloaded = self.downloaded + len;
        let percentage: u8 = if self.total_bytes > 0 {
            let p: u128 = (self.downloaded as u128) * 100 / (self.total_bytes as u128);
            if p > 255 {
                255
            } else {
                p as u8
            }
        } else {
            0
        };
        if percentage > self.last_percentage {
            self.last_percentage = percentage;
            Some(percentage)
        } else {
            None
        }
    }

    /// The progress event for the current state with the given status.
    pub fn progress(&self, model: &str, status: &str, percentage: u8) -> (p: DownloadProgress)
        ensures
            p.model@ == model@,
            p.bytes_downloaded == self.downloaded,
            p.total_bytes == self.total_bytes,
            p.percentage == percentage,
            p.status@ == status@,
            p.error is None,
    {
        DownloadProgress {
            model: model.to_string(),
            bytes_downloaded: self.downloaded,
            total_bytes: self.total_bytes,
            percentage,
            status: status.to_string(),
            error: None,
        }
    }
}

/// Reported percentages only grow: after any chunk the last percentage
/// reported is at least what it was.
pub proof fn lemma_percentage_monotonic(a: nat, b: nat, total: nat)
    requires
        a <= b,
    ensures
        spec_percentage(a, total) <= spec_percentage(b, total),
{
    if total > 0 {
        assert(a * 100 <= b * 100) by (nonlinear_arith)
            requires
                a <= b,
        ;
        vstd::arithmetic::div_mod::lemma_div_is_ordered((a * 100) as int, (b * 100) as int, total as int);
    }
}

/// Whether a download is running and whether it was asked to stop.
pub struct DownloadGate {
    pub in_progress: bool,
    pub cancel_requested: bool,
}

impl DownloadGate {
    /// No download running.
    pub fn new() -> (g: Self)
        ensures
            !g.in_progress && !g.cancel_requested,
    {
        DownloadGate { in_progress: false, cancel_requested: false }
    }

    /// Start a download; refused while another one runs.
    pub fn begin(&mut self) -> (r: Result<(), String>)
        ensures
            r is Ok <==> !old(self).in_progress,
            r matches Err(m) ==> m@ == "A download is already in progress"@ && *final(self) == *old(
                self),
            r is Ok ==> final(self).in_progress && !final(self).cancel_requested,
    {
        if self.in_progress {
            return Err("A download is already in progress".to_string());
        }
        self.in_progress = true;
        self.cancel_requested = false;
        Ok(())
    }

    /// Ask the running download to stop; refused when none runs.
    pub fn request_cancel(&mut self) -> (r: Result<(), String>)
        ensures
            r is Ok <==> old(self).in_progress,
            r matches Err(m) ==> m@ == "No download in progress"@ && *final(self) == *old(self),
            r is Ok ==> final(self).in_progress && final(self).cancel_requested,
    {
        if !self.in_progress {
            return Err("No download in progress".to_string());
        }
        self.cancel_requested = true;
        Ok(())
    }

    /// The download ended, whatever its outcome.
    pub fn finish(&mut self)
        ensures
            !final(self).in_progress,
            final(self).cancel_requested == old(self).cancel_requested,
    {
        self.in_progress = false;
    }
}

} // verus!
