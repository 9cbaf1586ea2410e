//! The recording lifecycle: idle, recording, saving. Settings may only change
//! while idle; a recording is started from idle and stopped from recording.

use vstd::prelude::*;
use crate::config::{AudioConfig, TranscriptionConfig};

verus! {

/// Recording state of the service.
#[derive(Debug, Clone, Copy, PartialEq, Eq, Structural)]
pub enum RecordingState {
    Idle,
    Recording,
    Saving,
}

/// Container formats a finished recording can be exported to.
#[derive(Debug, Clone, Copy, PartialEq, Eq, Structural)]
pub enum OutputFormat {
    Mp4,
    WebM,
    Mkv,
    QuickTime,
    Gif,
    AnimatedPng,
    AnimatedWebp,
}

impl Default for OutputFormat {
    fn default() -> (r: Self)
        ensures
            r == OutputFormat::Mp4,
    {
        OutputFormat::Mp4
    }
}

/// File extension of each output format.
pub open spec fn spec_extension(f: OutputFormat) -> Seq<char> {
    match f {
        OutputFormat::Mp4 => "mp4"@,
        OutputFormat::WebM => "webm"@,
        OutputFormat::Mkv => "mkv"@,
        OutputFormat::QuickTime => "mov"@,
        OutputFormat::Gif => "gif"@,
        OutputFormat::AnimatedPng => "apng"@,
        OutputFormat::AnimatedWebp => "webp"@,
    }
}

impl OutputFormat {
    /// The file extension used for this format.
    pub fn extension(&self) -> (r: &'static str)
        ensures
            r@ == spec_extension(*self),
    {
        match self {
            OutputFormat::Mp4 => "mp4",
            OutputFormat::WebM => "webm",
            OutputFormat::Mkv => "mkv",
            OutputFormat::QuickTime => "mov",
            OutputFormat::Gif => "gif",
            OutputFormat::AnimatedPng => "apng",
            OutputFormat::AnimatedWebp => "webp",
        }
    }

    /// Whether a recording in this format needs a pass after the MP4 is written.
    pub fn needs_transcode(&self) -> (r: bool)
        ensures
            r == (*self != OutputFormat::Mp4),
    {
        !matches!(self, OutputFormat::Mp4)
    }
}

/// Result of a completed recording.
#[derive(Debug, Clone)]
pub struct RecordingResult {
    /// Path to the source MP4 file
    pub source_path: String,
    /// Path to the final output file (after transcoding, if applicable)
    pub file_path: String,
}

/// Which audio is recorded alongside the video.
#[derive(Debug, Clone)]
pub struct EncodingPlan {
    /// A system audio source is selected and audio is enabled.
    pub has_system_audio: bool,
    /// A microphone is selected and audio is enabled.
    pub has_microphone: bool,
    /// Some audio source is recorded.
    pub audio_enabled: bool,
    /// Segments are transcribed while recording.
    pub transcription_enabled: bool,
    /// The device transcription listens to: the microphone, else the system source.
    pub transcription_device: Option<String>,
}

/// The audio plan for a recording, from the audio and transcription settings.
pub fn plan_encoding(audio: &AudioConfig, transcription: &TranscriptionConfig) -> (p: EncodingPlan)
    ensures
        p.has_system_audio == (audio.enabled && audio.source_id is Some),
        p.has_microphone == (audio.enabled && audio.microphone_id is Some),
        p.audio_enabled == (p.has_system_audio || p.has_microphone),
        p.transcription_enabled == (transcription.enabled && p.audio_enabled),
        p.transcription_device == (if audio.microphone_id is Some {
            audio.microphone_id
        } else {
            audio.source_id
        }),
{
    let has_system_audio = audio.enabled && audio.source_id.is_some();
    let has_microphone = audio.enabled && audio.microphone_id.is_some();
    let audio_enabled = has_system_audio || has_microphone;
    let transcription_enabled = transcription.enabled && audio_enabled;
    let transcription_device = match &audio.microphone_id {
        Some(m) => Some(m.clone()),
        None => match &audio.source_id {
            Some(s) => Some(s.clone()),
            None => None,
        },
    };
    EncodingPlan {
        has_system_audio,
        has_microphone,
        audio_enabled,
        transcription_enabled,
        transcription_device,
    }
}

/// The source audio capture opens: the system source if one is given, else
/// the microphone; an error when neither is.
pub fn select_audio_source(system_source_id: Option<&str>, mic_source_id: Option<&str>) -> (r: Result<
    String,
    String,
>)
    ensures
        match r {
            Ok(id) => match system_source_id {
                Some(s) => id@ == s@,
                None => mic_source_id is Some && id@ == mic_source_id.unwrap()@,
            },
            Err(msg) => system_source_id is None && mic_source_id is None && msg@
                == "No audio source specified"@,
        },
{
    if let Some(source_id) = system_source_id {
        Ok(source_id.to_string())
    } else if let Some(source_id) = mic_source_id {
        Ok(source_id.to_string())
    } else {
        Err("No audio source specified".to_string())
    }
}

/// The recording state and the settings that apply to the next recording.
pub struct RecordingManager {
    state: RecordingState,
    output_format: OutputFormat,
    audio_config: AudioConfig,
    transcription_config: TranscriptionConfig,
    stop_signalled: bool,
}

impl RecordingManager {
    /// Current state (spec view of `get_state`).
    pub closed spec fn state(&self) -> RecordingState {
        self.state
    }

    /// Output format of the next recording.
    pub closed spec fn format(&self) -> OutputFormat {
        self.output_format
    }

    /// Audio settings of the next recording.
    pub closed spec fn audio(&self) -> AudioConfig {
        self.audio_config
    }

    /// Transcription settings of the next recording.
    pub closed spec fn transcription(&self) -> TranscriptionConfig {
        self.transcription_config
    }

    /// Whether the stop handle of the current (or last) recording's capture
    /// and encoding has been set.
    pub closed spec fn stop_signalled(&self) -> bool {
        self.stop_signalled
    }

    /// Create a new recording manager: idle, MP4 output, default settings.
    pub fn new() -> (m: Self)
        ensures
            m.state() == RecordingState::Idle,
            m.format() == OutputFormat::Mp4,
            m.audio().enabled && m.audio().source_id is None && m.audio().microphone_id is None
                && m.audio().echo_cancellation,
            !m.transcription().enabled,
            m.transcription().model == crate::config::WhisperModel::MediumEn,
            !m.stop_signalled(),
    {
        RecordingManager {
            state: RecordingState::Idle,
            output_format: OutputFormat::default(),
            audio_config: AudioConfig::default(),
            transcription_config: TranscriptionConfig::default(),
            stop_signalled: false,
        }
    }

    /// Get the current recording state.
    pub fn get_state(&self) -> (s: RecordingState)
        ensures
            s == self.state(),
    {
        self.state
    }

    /// Whether the capture's stop handle has been set (see `stop_signalled`):
    /// the shell stores this into the handle it shares with the capture and
    /// encoding threads.
    pub fn is_stop_signalled(&self) -> (b: bool)
        ensures
            b == self.stop_signalled(),
    {
        self.stop_signalled
    }

    /// Get the current output format.
    pub fn get_output_format(&self) -> (f: OutputFormat)
        ensures
            f == self.format(),
    {
        self.output_format
    }

    /// Get the current audio configuration.
    pub fn get_audio_config(&self) -> (c: &AudioConfig)
        ensures
            *c == self.audio(),
    {
        &self.audio_config
    }

    /// Get the current transcription configuration.
    pub fn get_transcription_config(&self) -> (c: &TranscriptionConfig)
        ensures
            *c == self.transcription(),
    {
        &self.transcription_config
    }

    /// Set the output format for future recordings; refused unless idle.
    pub fn set_output_format(&mut self, format: OutputFormat) -> (r: Result<(), String>)
        ensures
            r is Ok <==> old(self).state() == RecordingState::Idle,
            r matches Err(msg) ==> msg@ == "Cannot change format while recording"@,
            final(self).format() == if r is Ok {
                format
            } else {
                old(self).format()
            },
            final(self).state() == old(self).state(),
            final(self).audio() == old(self).audio(),
            final(self).transcription() == old(self).transcription(),
            final(self).stop_signalled() == old(self).stop_signalled(),
    {
        if self.state != RecordingState::Idle {
            return Err("Cannot change format while recording".to_string());
        }
        self.output_format = format;
        Ok(())
    }

    /// Set the audio configuration; refused unless idle.
    pub fn set_audio_config(&mut self, config: AudioConfig) -> (r: Result<(), String>)
        ensures
            r is Ok <==> old(self).state() == RecordingState::Idle,
            r matches Err(msg) ==> msg@ == "Cannot change audio config while recording"@,
            final(self).audio() == if r is Ok {
                config
            } else {
                old(self).audio()
            },
            final(self).state() == old(self).state(),
            final(self).format() == old(self).format(),
            final(self).transcription() == old(self).transcription(),
            final(self).stop_signalled() == old(self).stop_signalled(),
    {
        if self.state != RecordingState::Idle {
            return Err("Cannot change audio config while recording".to_string());
        }
        self.audio_config = config;
        Ok(())
    }

    /// Set the transcription configuration; refused unless idle.
    pub fn set_transcription_config(&mut self, config: TranscriptionConfig) -> (r: Result<(), String>)
        ensures
            r is Ok <==> old(self).state() == RecordingState::Idle,
            r matches Err(msg) ==> msg@ == "Cannot change transcription config while recording"@,
            final(self).transcription() == if r is Ok {
                config
            } else {
                old(self).transcription()
            },
            final(self).state() == old(self).state(),
            final(self).format() == old(self).format(),
            final(self).audio() == old(self).audio(),
            final(self).stop_signalled() == old(self).stop_signalled(),
    {
        if self.state != RecordingState::Idle {
            return Err("Cannot change transcription config while recording".to_string());
        }
        self.transcription_config = config;
        Ok(())
    }

    /// Check that we're in idle state.
    pub fn check_idle(&self) -> (r: Result<(), String>)
        ensures
            r is Ok <==> self.state() == RecordingState::Idle,
            r matches Err(msg) ==> msg@ == "Already recording or saving"@,
    {
        if self.state != RecordingState::Idle {
            return Err("Already recording or saving".to_string());
        }
        Ok(())
    }

    /// The audio plan for a recording started now.
    pub fn encoding_plan(&self) -> (p: EncodingPlan)
        ensures
            p.has_system_audio == (self.audio().enabled && self.audio().source_id is Some),
            p.has_microphone == (self.audio().enabled && self.audio().microphone_id is Some),
            p.audio_enabled == (p.has_system_audio || p.has_microphone),
            p.transcription_enabled == (self.transcription().enabled && p.audio_enabled),
            p.transcription_device == (if self.audio().microphone_id is Some {
                self.audio().microphone_id
            } else {
                self.audio().source_id
            }),
    {
        plan_encoding(&self.audio_config, &self.transcription_config)
    }

    /// Enter the recording state once capture and encoding are running;
    /// refused unless idle.
    pub fn begin_recording(&mut self) -> (r: Result<(), String>)
        ensures
            r is Ok <==> old(self).state() == RecordingState::Idle,
            r matches Err(msg) ==> msg@ == "Already recording or saving"@,
            final(self).state() == if r is Ok {
                RecordingState::Recording
            } else {
                old(self).state()
            },
            final(self).format() == old(self).format(),
            final(self).audio() == old(self).audio(),
            final(self).transcription() == old(self).transcription(),
            final(self).stop_signalled() == (old(self).stop_signalled() && r is Err),
    {
        self.check_idle()?;
        self.state = RecordingState::Recording;
        self.stop_signalled = false;
        Ok(())
    }

    /// Start saving the current recording: refused, changing nothing, unless
    /// recording; otherwise the state becomes saving, the capture's stop
    /// handle is set, and the output format to produce is returned.
    pub fn begin_stop(&mut self) -> (r: Result<OutputFormat, String>)
        ensures
            r is Ok <==> old(self).state() == RecordingState::Recording,
            r matches Ok(f) ==> f == old(self).format() && final(self).state()
                == RecordingState::Saving,
            r matches Err(msg) ==> msg@ == "Not currently recording"@ && final(self).state()
                == old(self).state(),
            final(self).format() == old(self).format(),
            final(self).audio() == old(self).audio(),
            final(self).transcription() == old(self).transcription(),
            final(self).stop_signalled() == (old(self).stop_signalled() || r is Ok),
    {
        if self.state != RecordingState::Recording {
            return Err("Not currently recording".to_string());
        }
        self.state = RecordingState::Saving;
        self.stop_signalled = true;
        Ok(self.output_format)
    }

    /// Return to idle once the recording is saved or has failed.
    pub fn finish(&mut self)
        ensures
            final(self).state() == RecordingState::Idle,
            final(self).format() == old(self).format(),
            final(self).audio() == old(self).audio(),
            final(self).transcription() == old(self).transcription(),
            final(self).stop_signalled() == old(self).stop_signalled(),
    {
        self.state = RecordingState::Idle;
    }

    /// Finish a stop once encoding has ended, and return to idle whatever the
    /// outcome. `encoded` is the encoder's outcome: the source MP4's path, its
    /// error, or `None` when no encoding was running. `transcoded` is the path
    /// of the exported file when the output format is not MP4 and transcoding
    /// succeeded; a failed transcoding keeps the source file as the result.
    pub fn complete_stop(&mut self, encoded: Option<Result<String, String>>, transcoded: Option<String>) -> (r:
        Result<RecordingResult, String>)
        ensures
            final(self).state() == RecordingState::Idle,
            final(self).format() == old(self).format(),
            final(self).audio() == old(self).audio(),
            final(self).transcription() == old(self).transcription(),
            encoded is None ==> (r matches Err(msg) && msg@ == "No encoding task found"@),
            encoded matches Some(Err(e)) ==> (r matches Err(msg) && msg@ == e@),
            encoded matches Some(Ok(src)) ==> (r matches Ok(res) && res.source_path@ == src@
                && res.file_path@ == (if old(self).format() != OutputFormat::Mp4 && transcoded is Some {
                transcoded.unwrap()@
            } else {
                src@
            })),
            final(self).stop_signalled() == old(self).stop_signalled(),
    {
        self.state = RecordingState::Idle;
        match encoded {
            None => Err("No encoding task found".to_string()),
            Some(Err(e)) => Err(e),
            Some(Ok(src)) => {
                let file_path = if self.output_format != OutputFormat::Mp4 {
                    match transcoded {
                        Some(t) => t,
                        None => src.clone(),
                    }
                } else {
                    src.clone()
                };
                Ok(RecordingResult { source_path: src, file_path })
            },
        }
    }
}

/// The segments from index `since` on, with the total count; nothing when
/// `since` is at or past the end.
pub fn get_transcription_segments<T: Clone>(segments: &Vec<T>, since_index: u32) -> (r: (Vec<T>, u32))
    requires
        segments@.len() <= u32::MAX,
    ensures
        r.1 == segments@.len(),
        since_index >= segments@.len() ==> r.0@.len() == 0,
        since_index < segments@.len() ==> r.0@.len() == segments@.len() - since_index,
        forall|i: int|
            0 <= i < r.0@.len() ==> cloned::<T>(segments@[since_index + i], #[trigger] r.0@[i]),
{
    let total = segments.len() as u32;
    let from = since_index as usize;
    let mut out: Vec<T> = Vec::new();
    if from >= segments.len() {
        return (out, total);
    }
    let mut i = from;
    while i < segments.len()
        invariant
            from <= i <= segments@.len(),
            from == since_index,
            out@.len() == i - from,
            forall|k: int| 0 <= k < out@.len() ==> cloned::<T>(segments@[from + k], #[trigger] out@[k]),
        decreases segments@.len() - i,
    {
        out.push(segments[i].clone());
        i = i + 1;
    }
    (out, total)
}

} // verus!
