//! Application configuration model: theme, output, audio and transcription
//! settings, and the catalogue of Whisper models.
//!
//! Reading and writing the JSON file on disk is done by the application shell;
//! this module holds the values and their rules.

use vstd::prelude::*;
use crate::text::{join_path, path_join, push_char, push_str, str_eq};
use crate::platform::Platform;

verus! {

/// What `str::to_lowercase` returns for a string, as a function of its characters.
pub uninterp spec fn unicode_lowercase(s: Seq<char>) -> Seq<char>;

/// Lowercases a string with std's `str::to_lowercase`.
///
/// Claimed: the result is `unicode_lowercase` of the argument (a function of the
/// characters alone; std's lowercase mapping does not depend on a locale).
#[verifier::external_body]
pub(crate) fn to_lowercase(s: &str) -> (r: String)
    ensures
        r@ == unicode_lowercase(s@),
{
    s.to_lowercase()
}

/// Theme mode for the application appearance.
#[derive(Debug, Clone, Copy, PartialEq, Eq, Structural)]
pub enum ThemeMode {
    /// Automatically follow system preference
    Auto,
    /// Always use light theme
    Light,
    /// Always use dark theme
    Dark,
}

/// The name of a theme mode, as stored in the configuration.
pub open spec fn spec_theme_name(t: ThemeMode) -> Seq<char> {
    match t {
        ThemeMode::Auto => "auto"@,
        ThemeMode::Light => "light"@,
        ThemeMode::Dark => "dark"@,
    }
}

/// The theme mode whose name is `lower`, if any.
pub open spec fn spec_theme_from_lower(lower: Seq<char>) -> Option<ThemeMode> {
    if lower == "auto"@ {
        Some(ThemeMode::Auto)
    } else if lower == "light"@ {
        Some(ThemeMode::Light)
    } else if lower == "dark"@ {
        Some(ThemeMode::Dark)
    } else {
        None
    }
}

impl Default for ThemeMode {
    fn default() -> (r: Self)
        ensures
            r == ThemeMode::Auto,
    {
        ThemeMode::Auto
    }
}

impl ThemeMode {
    /// Parse an already lowercased theme name.
    pub fn from_lowercase(lower: &str) -> (r: Option<ThemeMode>)
        ensures
            r == spec_theme_from_lower(lower@),
    {
        if str_eq(lower, "auto") {
            Some(ThemeMode::Auto)
        } else if str_eq(lower, "light") {
            Some(ThemeMode::Light)
        } else if str_eq(lower, "dark") {
            Some(ThemeMode::Dark)
        } else {
            None
        }
    }

    /// Convert from string representation (case-insensitive).
    pub fn from_str(s: &str) -> (r: Option<ThemeMode>)
        ensures
            r == spec_theme_from_lower(unicode_lowercase(s@)),
    {
        let lower = to_lowercase(s);
        Self::from_lowercase(lower.as_str())
    }

    /// Convert to string representation.
    pub fn as_str(&self) -> (r: &'static str)
        ensures
            r@ == spec_theme_name(*self),
    {
        match self {
            ThemeMode::Auto => "auto",
            ThemeMode::Light => "light",
            ThemeMode::Dark => "dark",
        }
    }
}

/// Every theme name parses back to its theme mode.
pub proof fn lemma_theme_name_round_trip(t: ThemeMode)
    ensures
        spec_theme_from_lower(spec_theme_name(t)) == Some(t),
{
    broadcast use vstd::string::group_string_axioms;
    reveal_strlit("auto");
    reveal_strlit("light");
    reveal_strlit("dark");
    assert("auto"@.len() == 4);
    assert("light"@.len() == 5);
    assert("dark"@.len() == 4);
    assert("auto"@[0] != "dark"@[0]);
}

/// Appearance-related configuration.
#[derive(Debug, Clone)]
pub struct AppearanceConfig {
    /// Theme mode: auto, light, or dark.
    pub theme: ThemeMode,
}

impl Default for AppearanceConfig {
    fn default() -> (r: Self)
        ensures
            r.theme == ThemeMode::Auto,
    {
        AppearanceConfig { theme: ThemeMode::Auto }
    }
}

/// Output-related configuration.
#[derive(Debug, Clone)]
pub struct OutputConfig {
    /// Custom output directory. If None, uses system default (Videos folder).
    pub directory: Option<String>,
}

impl Default for OutputConfig {
    fn default() -> (r: Self)
        ensures
            r.directory.is_none(),
    {
        OutputConfig { directory: None }
    }
}

impl OutputConfig {
    /// The directory to store, given what the user chose: an empty choice
    /// clears the custom directory.
    pub fn normalized_directory(directory: Option<String>) -> (r: Option<String>)
        ensures
            r == (match directory {
                Some(d) => if d@.len() == 0 { None } else { Some(d) },
                None => None,
            }),
    {
        match directory {
            Some(d) => if d.as_str().is_empty() { None } else { Some(d) },
            None => None,
        }
    }
}

/// Audio-related configuration.
#[derive(Debug, Clone)]
pub struct AudioConfig {
    /// Whether audio recording is enabled.
    pub enabled: bool,
    /// Selected system audio source ID (output monitor). None means no system audio selected.
    pub source_id: Option<String>,
    /// Selected microphone source ID. None means no microphone selected.
    pub microphone_id: Option<String>,
    /// Whether echo cancellation is enabled for microphone input.
    pub echo_cancellation: bool,
}

/// Value used for `AudioConfig::enabled` when a stored configuration lacks it.
pub fn default_audio_enabled() -> (r: bool)
    ensures
        r,
{
    true
}

/// Value used for `AudioConfig::echo_cancellation` when a stored configuration lacks it.
pub fn default_echo_cancellation() -> (r: bool)
    ensures
        r,
{
    true
}

impl Default for AudioConfig {
    fn default() -> (r: Self)
        ensures
            r.enabled,
            r.source_id.is_none(),
            r.microphone_id.is_none(),
            r.echo_cancellation,
    {
        AudioConfig {
            enabled: true,
            source_id: None,
            microphone_id: None,
            echo_cancellation: true,
        }
    }
}

/// Available Whisper models for transcription.
#[derive(Debug, Clone, Copy, PartialEq, Eq, Structural)]
pub enum WhisperModel {
    /// Tiny English-only model (75 MB)
    TinyEn,
    /// Tiny multilingual model (75 MB)
    Tiny,
    /// Base English-only model (142 MB)
    BaseEn,
    /// Base multilingual model (142 MB)
    Base,
    /// Small English-only model (466 MB)
    SmallEn,
    /// Small multilingual model (466 MB)
    Small,
    /// Medium English-only model (1.5 GB) - default
    MediumEn,
    /// Medium multilingual model (1.5 GB)
    Medium,
    /// Large-v3 multilingual model (2.9 GB) - highest accuracy
    LargeV3,
}

impl Default for WhisperModel {
    fn default() -> (r: Self)
        ensures
            r == WhisperModel::MediumEn,
    {
        WhisperModel::MediumEn
    }
}

/// The file name a model is stored under.
pub open spec fn spec_filename(m: WhisperModel) -> Seq<char> {
    match m {
        WhisperModel::TinyEn => "ggml-tiny.en.bin"@,
        WhisperModel::Tiny => "ggml-tiny.bin"@,
        WhisperModel::BaseEn => "ggml-base.en.bin"@,
        WhisperModel::Base => "ggml-base.bin"@,
        WhisperModel::SmallEn => "ggml-small.en.bin"@,
        WhisperModel::Small => "ggml-small.bin"@,
        WhisperModel::MediumEn => "ggml-medium.en.bin"@,
        WhisperModel::Medium => "ggml-medium.bin"@,
        WhisperModel::LargeV3 => "ggml-large-v3.bin"@,
    }
}

/// The prefix of every model download URL.
pub open spec fn spec_download_base() -> Seq<char> {
    "https://huggingface.co/ggerganov/whisper.cpp/resolve/main/"@
}

/// The approximate download size of a model, in bytes.
pub open spec fn spec_size_bytes(m: WhisperModel) -> nat {
    match m {
        WhisperModel::TinyEn | WhisperModel::Tiny => 75 * 1024 * 1024,
        WhisperModel::BaseEn | WhisperModel::Base => 142 * 1024 * 1024,
        WhisperModel::SmallEn | WhisperModel::Small => 466 * 1024 * 1024,
        WhisperModel::MediumEn | WhisperModel::Medium => 1536 * 1024 * 1024,
        WhisperModel::LargeV3 => 2969 * 1024 * 1024,
    }
}

/// The human-readable size of a model.
pub open spec fn spec_size_display(m: WhisperModel) -> Seq<char> {
    match m {
        WhisperModel::TinyEn | WhisperModel::Tiny => "75 MB"@,
        WhisperModel::BaseEn | WhisperModel::Base => "142 MB"@,
        WhisperModel::SmallEn | WhisperModel::Small => "466 MB"@,
        WhisperModel::MediumEn | WhisperModel::Medium => "1.5 GB"@,
        WhisperModel::LargeV3 => "2.9 GB"@,
    }
}

/// The display name of a model, which is also its textual identifier.
pub open spec fn spec_display_name(m: WhisperModel) -> Seq<char> {
    match m {
        WhisperModel::TinyEn => "tiny.en"@,
        WhisperModel::Tiny => "tiny"@,
        WhisperModel::BaseEn => "base.en"@,
        WhisperModel::Base => "base"@,
        WhisperModel::SmallEn => "small.en"@,
        WhisperModel::Small => "small"@,
        WhisperModel::MediumEn => "medium.en"@,
        WhisperModel::Medium => "medium"@,
        WhisperModel::LargeV3 => "large-v3"@,
    }
}

/// The description of a model.
pub open spec fn spec_description(m: WhisperModel) -> Seq<char> {
    match m {
        WhisperModel::TinyEn => "Fastest, English only"@,
        WhisperModel::Tiny => "Fastest, multilingual"@,
        WhisperModel::BaseEn => "Fast, English only"@,
        WhisperModel::Base => "Fast, multilingual"@,
        WhisperModel::SmallEn => "Balanced, English only"@,
        WhisperModel::Small => "Balanced, multilingual"@,
        WhisperModel::MediumEn => "Accurate, English only (recommended)"@,
        WhisperModel::Medium => "Accurate, multilingual"@,
        WhisperModel::LargeV3 => "Most accurate, multilingual"@,
    }
}

/// Whether a model is English-only.
pub open spec fn spec_is_english_only(m: WhisperModel) -> bool {
    m == WhisperModel::TinyEn || m == WhisperModel::BaseEn || m == WhisperModel::SmallEn || m
        == WhisperModel::MediumEn
}

/// The catalogue of models, in the order they are offered.
pub open spec fn spec_all_models() -> Seq<WhisperModel> {
    seq![
        WhisperModel::TinyEn,
        WhisperModel::Tiny,
        WhisperModel::BaseEn,
        WhisperModel::Base,
        WhisperModel::SmallEn,
        WhisperModel::Small,
        WhisperModel::MediumEn,
        WhisperModel::Medium,
        WhisperModel::LargeV3,
    ]
}

/// The model a textual identifier names: a display name, or an English-only
/// model's name with `-en` in place of `.en`.
pub open spec fn spec_model_from_str(s: Seq<char>) -> Option<WhisperModel> {
    if s == "tiny.en"@ || s == "tiny-en"@ {
        Some(WhisperModel::TinyEn)
    } else if s == "tiny"@ {
        Some(WhisperModel::Tiny)
    } else if s == "base.en"@ || s == "base-en"@ {
        Some(WhisperModel::BaseEn)
    } else if s == "base"@ {
        Some(WhisperModel::Base)
    } else if s == "small.en"@ || s == "small-en"@ {
        Some(WhisperModel::SmallEn)
    } else if s == "small"@ {
        Some(WhisperModel::Small)
    } else if s == "medium.en"@ || s == "medium-en"@ {
        Some(WhisperModel::MediumEn)
    } else if s == "medium"@ {
        Some(WhisperModel::Medium)
    } else if s == "large-v3"@ {
        Some(WhisperModel::LargeV3)
    } else {
        None
    }
}

impl WhisperModel {
    /// Get the filename for this model (e.g., "ggml-medium.en.bin").
    pub fn filename(&self) -> (r: &'static str)
        ensures
            r@ == spec_filename(*self),
    {
        match self {
            WhisperModel::TinyEn => "ggml-tiny.en.bin",
            WhisperModel::Tiny => "ggml-tiny.bin",
            WhisperModel::BaseEn => "ggml-base.en.bin",
            WhisperModel::Base => "ggml-base.bin",
            WhisperModel::SmallEn => "ggml-small.en.bin",
            WhisperModel::Small => "ggml-small.bin",
            WhisperModel::MediumEn => "ggml-medium.en.bin",
            WhisperModel::Medium => "ggml-medium.bin",
            WhisperModel::LargeV3 => "ggml-large-v3.bin",
        }
    }

    /// Get the download URL for this model from Hugging Face.
    pub fn download_url(&self) -> (r: String)
        ensures
            r@ == spec_download_base() + spec_filename(*self),
    {
        let mut url = String::new();
        push_str(&mut url, "https://huggingface.co/ggerganov/whisper.cpp/resolve/main/");
        push_str(&mut url, self.filename());
        url
    }

    /// Get the approximate download size in bytes.
    pub fn size_bytes(&self) -> (r: u64)
        ensures
            r == spec_size_bytes(*self),
    {
        match self {
            WhisperModel::TinyEn | WhisperModel::Tiny => 75 * 1024 * 1024,
            WhisperModel::BaseEn | WhisperModel::Base => 142 * 1024 * 1024,
            WhisperModel::SmallEn | WhisperModel::Small => 466 * 1024 * 1024,
            WhisperModel::MediumEn | WhisperModel::Medium => 1536 * 1024 * 1024,
            WhisperModel::LargeV3 => 2969 * 1024 * 1024,
        }
    }

    /// Get a human-readable size string (e.g., "1.5 GB").
    pub fn size_display(&self) -> (r: &'static str)
        ensures
            r@ == spec_size_display(*self),
    {
        match self {
            WhisperModel::TinyEn | WhisperModel::Tiny => "75 MB",
            WhisperModel::BaseEn | WhisperModel::Base => "142 MB",
            WhisperModel::SmallEn | WhisperModel::Small => "466 MB",
            WhisperModel::MediumEn | WhisperModel::Medium => "1.5 GB",
            WhisperModel::LargeV3 => "2.9 GB",
        }
    }

    /// Get a human-readable display name.
    pub fn display_name(&self) -> (r: &'static str)
        ensures
            r@ == spec_display_name(*self),
    {
        match self {
            WhisperModel::TinyEn => "tiny.en",
            WhisperModel::Tiny => "tiny",
            WhisperModel::BaseEn => "base.en",
            WhisperModel::Base => "base",
            WhisperModel::SmallEn => "small.en",
            WhisperModel::Small => "small",
            WhisperModel::MediumEn => "medium.en",
            WhisperModel::Medium => "medium",
            WhisperModel::LargeV3 => "large-v3",
        }
    }

    /// Get a description of this model.
    pub fn description(&self) -> (r: &'static str)
        ensures
            r@ == spec_description(*self),
            crate::text::contains(r@, "English only"@) <==> spec_is_english_only(*self),
            !spec_is_english_only(*self) ==> crate::text::contains(r@, "multilingual"@),
    {
        proof {
            lemma_description_language(*self);
        }
        match self {
            WhisperModel::TinyEn => "Fastest, English only",
            WhisperModel::Tiny => "Fastest, multilingual",
            WhisperModel::BaseEn => "Fast, English only",
            WhisperModel::Base => "Fast, multilingual",
            WhisperModel::SmallEn => "Balanced, English only",
            WhisperModel::Small => "Balanced, multilingual",
            WhisperModel::MediumEn => "Accurate, English only (recommended)",
            WhisperModel::Medium => "Accurate, multilingual",
            WhisperModel::LargeV3 => "Most accurate, multilingual",
        }
    }

    /// Check if this is an English-only model.
    pub fn is_english_only(&self) -> (r: bool)
        ensures
            r == spec_is_english_only(*self),
    {
        match self {
            WhisperModel::TinyEn | WhisperModel::BaseEn | WhisperModel::SmallEn
            | WhisperModel::MediumEn => true,
            _ => false,
        }
    }

    /// Get all available models.
    pub fn all() -> (r: Vec<WhisperModel>)
        ensures
            r@ == spec_all_models(),
    {
        let mut v: Vec<WhisperModel> = Vec::new();
        v.push(WhisperModel::TinyEn);
        v.push(WhisperModel::Tiny);
        v.push(WhisperModel::BaseEn);
        v.push(WhisperModel::Base);
        v.push(WhisperModel::SmallEn);
        v.push(WhisperModel::Small);
        v.push(WhisperModel::MediumEn);
        v.push(WhisperModel::Medium);
        v.push(WhisperModel::LargeV3);
        assert(v@ =~= spec_all_models());
        v
    }

    /// Parse from string (display name format).
    pub fn from_str(s: &str) -> (r: Option<WhisperModel>)
        ensures
            r == spec_model_from_str(s@),
    {
        if str_eq(s, "tiny.en") || str_eq(s, "tiny-en") {
            Some(WhisperModel::TinyEn)
        } else if str_eq(s, "tiny") {
            Some(WhisperModel::Tiny)
        } else if str_eq(s, "base.en") || str_eq(s, "base-en") {
            Some(WhisperModel::BaseEn)
        } else if str_eq(s, "base") {
            Some(WhisperModel::Base)
        } else if str_eq(s, "small.en") || str_eq(s, "small-en") {
            Some(WhisperModel::SmallEn)
        } else if str_eq(s, "small") {
            Some(WhisperModel::Small)
        } else if str_eq(s, "medium.en") || str_eq(s, "medium-en") {
            Some(WhisperModel::MediumEn)
        } else if str_eq(s, "medium") {
            Some(WhisperModel::Medium)
        } else if str_eq(s, "large-v3") {
            Some(WhisperModel::LargeV3)
        } else {
            None
        }
    }
}

/// Transcription-related configuration.
#[derive(Debug, Clone)]
pub struct TranscriptionConfig {
    /// Whether transcription is enabled.
    pub enabled: bool,
    /// The whisper model to use for transcription.
    pub model: WhisperModel,
}

impl Default for TranscriptionConfig {
    fn default() -> (r: Self)
        ensures
            !r.enabled,
            r.model == WhisperModel::MediumEn,
    {
        TranscriptionConfig { enabled: false, model: WhisperModel::MediumEn }
    }
}

/// Application configuration.
#[derive(Debug, Clone)]
pub struct AppConfig {
    /// Output settings group.
    pub output: OutputConfig,
    /// Audio settings group.
    pub audio: AudioConfig,
    /// Transcription settings group.
    pub transcription: TranscriptionConfig,
    /// Appearance settings group.
    pub appearance: AppearanceConfig,
}

/// Whether `c` holds the default value of every setting.
pub open spec fn is_default_config(c: AppConfig) -> bool {
    &&& c.output.directory.is_none()
    &&& c.audio.enabled
    &&& c.audio.source_id.is_none()
    &&& c.audio.microphone_id.is_none()
    &&& c.audio.echo_cancellation
    &&& !c.transcription.enabled
    &&& c.transcription.model == WhisperModel::MediumEn
    &&& c.appearance.theme == ThemeMode::Auto
}

impl Default for AppConfig {
    fn default() -> (r: Self)
        ensures
            is_default_config(r),
    {
        AppConfig {
            output: OutputConfig::default(),
            audio: AudioConfig::default(),
            transcription: TranscriptionConfig::default(),
            appearance: AppearanceConfig::default(),
        }
    }
}

impl AppConfig {
    /// Create a new config with default values.
    pub fn new() -> (r: Self)
        ensures
            is_default_config(r),
    {
        Self::default()
    }
}

/// Every model's display name parses back to that model, and so does its
/// `-en` spelling for English-only models.
pub proof fn lemma_display_name_round_trip(m: WhisperModel)
    ensures
        spec_model_from_str(spec_display_name(m)) == Some(m),
{
    broadcast use vstd::string::group_string_axioms;
    reveal_strlit("tiny.en");
    reveal_strlit("tiny-en");
    reveal_strlit("tiny");
    reveal_strlit("base.en");
    reveal_strlit("base-en");
    reveal_strlit("base");
    reveal_strlit("small.en");
    reveal_strlit("small-en");
    reveal_strlit("small");
    reveal_strlit("medium.en");
    reveal_strlit("medium-en");
    reveal_strlit("medium");
    reveal_strlit("large-v3");
    assert("tiny.en"@.len() == 7 && "tiny.en"@[0] == 't');
    assert("tiny-en"@.len() == 7 && "tiny-en"@[0] == 't');
    assert("tiny"@.len() == 4 && "tiny"@[0] == 't');
    assert("base.en"@.len() == 7 && "base.en"@[0] == 'b');
    assert("base-en"@.len() == 7 && "base-en"@[0] == 'b');
    assert("base"@.len() == 4 && "base"@[0] == 'b');
    assert("small.en"@.len() == 8 && "small.en"@[0] == 's');
    assert("small-en"@.len() == 8 && "small-en"@[0] == 's');
    assert("small"@.len() == 5 && "small"@[0] == 's');
    assert("medium.en"@.len() == 9 && "medium.en"@[0] == 'm');
    assert("medium-en"@.len() == 9 && "medium-en"@[0] == 'm');
    assert("medium"@.len() == 6 && "medium"@[0] == 'm');
    assert("large-v3"@.len() == 8 && "large-v3"@[0] == 'l');
}

/// The catalogue lists every model exactly once.
pub proof fn lemma_all_models_complete(m: WhisperModel)
    ensures
        spec_all_models().contains(m),
        spec_all_models().len() == 9,
        forall|i: int, j: int|
            0 <= i < j < spec_all_models().len() ==> spec_all_models()[i] != spec_all_models()[j],
{
    let all = spec_all_models();
    match m {
        WhisperModel::TinyEn => assert(all[0] == m),
        WhisperModel::Tiny => assert(all[1] == m),
        WhisperModel::BaseEn => assert(all[2] == m),
        WhisperModel::Base => assert(all[3] == m),
        WhisperModel::SmallEn => assert(all[4] == m),
        WhisperModel::Small => assert(all[5] == m),
        WhisperModel::MediumEn => assert(all[6] == m),
        WhisperModel::Medium => assert(all[7] == m),
        WhisperModel::LargeV3 => assert(all[8] == m),
    }
}

/// The English-only models are
/// exactly those whose display name ends with `.en`.
pub proof fn lemma_english_only_names(m: WhisperModel)
    ensures
        spec_is_english_only(m) <==> {
            let n = spec_display_name(m);
            n.len() >= 3 && n.subrange(n.len() - 3, n.len() as int) == ".en"@
        },
{
    broadcast use vstd::string::group_string_axioms;
    reveal_strlit(".en");
    reveal_strlit("tiny.en");
    reveal_strlit("tiny");
    reveal_strlit("base.en");
    reveal_strlit("base");
    reveal_strlit("small.en");
    reveal_strlit("small");
    reveal_strlit("medium.en");
    reveal_strlit("medium");
    reveal_strlit("large-v3");
    let n = spec_display_name(m);
    if spec_is_english_only(m) {
        assert(n.subrange(n.len() - 3, n.len() as int) =~= ".en"@);
    } else {
        assert(n.subrange(n.len() - 3, n.len() as int)[0] != '.');
    }
}

proof fn lemma_has_at(s: Seq<char>, t: Seq<char>, i: int)
    requires
        0 <= i,
        i + t.len() <= s.len(),
        s.subrange(i, i + t.len()) =~= t,
    ensures
        crate::text::contains(s, t),
{
    assert(s.subrange(i, i + t.len()) == t);
}

proof fn lemma_lacks_char(s: Seq<char>, t: Seq<char>)
    requires
        t.len() > 0,
        forall|j: int| 0 <= j < s.len() ==> s[j] != t[0],
    ensures
        !crate::text::contains(s, t),
{
    if crate::text::contains(s, t) {
        let i = choose|i: int|
            0 <= i && i + t.len() <= s.len() && #[trigger] s.subrange(i, i + t.len()) == t;
        assert(s.subrange(i, i + t.len())[0] == s[i]);
    }
}

/// A model's file is named after the model: `ggml-`, its display name,
/// `.bin`. So distinct models have distinct files, and only English-only
/// models have a file name with `.en` in it.
pub proof fn lemma_filename_from_display_name(m: WhisperModel)
    ensures
        spec_filename(m) == "ggml-"@ + spec_display_name(m) + ".bin"@,
{
    broadcast use vstd::string::group_string_axioms;
    reveal_strlit("ggml-");
    reveal_strlit(".bin");
    match m {
        WhisperModel::TinyEn => {
            reveal_strlit("ggml-tiny.en.bin");
            reveal_strlit("tiny.en");
        },
        WhisperModel::Tiny => {
            reveal_strlit("ggml-tiny.bin");
            reveal_strlit("tiny");
        },
        WhisperModel::BaseEn => {
            reveal_strlit("ggml-base.en.bin");
            reveal_strlit("base.en");
        },
        WhisperModel::Base => {
            reveal_strlit("ggml-base.bin");
            reveal_strlit("base");
        },
        WhisperModel::SmallEn => {
            reveal_strlit("ggml-small.en.bin");
            reveal_strlit("small.en");
        },
        WhisperModel::Small => {
            reveal_strlit("ggml-small.bin");
            reveal_strlit("small");
        },
        WhisperModel::MediumEn => {
            reveal_strlit("ggml-medium.en.bin");
            reveal_strlit("medium.en");
        },
        WhisperModel::Medium => {
            reveal_strlit("ggml-medium.bin");
            reveal_strlit("medium");
        },
        WhisperModel::LargeV3 => {
            reveal_strlit("ggml-large-v3.bin");
            reveal_strlit("large-v3");
        },
    }
    assert(spec_filename(m) =~= "ggml-"@ + spec_display_name(m) + ".bin"@);
}

/// Distinct models are stored in distinct files.
pub proof fn lemma_filenames_distinct(a: WhisperModel, b: WhisperModel)
    requires
        a != b,
    ensures
        spec_filename(a) != spec_filename(b),
{
    lemma_filename_from_display_name(a);
    lemma_filename_from_display_name(b);
    lemma_display_name_round_trip(a);
    lemma_display_name_round_trip(b);
    reveal_strlit("ggml-");
    reveal_strlit(".bin");
    assert("ggml-"@.len() == 5 && ".bin"@.len() == 4);
    let fa = spec_filename(a);
    if fa == spec_filename(b) {
        let da = spec_display_name(a);
        let db = spec_display_name(b);
        assert(fa == "ggml-"@ + da + ".bin"@);
        assert(spec_filename(b) == "ggml-"@ + db + ".bin"@);
        assert(fa.len() == 5 + da.len() + 4);
        assert(spec_filename(b).len() == 5 + db.len() + 4);
        assert(da.len() == db.len());
        assert forall|i: int| 0 <= i < da.len() implies da[i] == db[i] by {
            assert(fa[5 + i] == da[i]);
            assert(spec_filename(b)[5 + i] == db[i]);
        }
        assert(da =~= db);
    }
}

/// A model's description says "English only" exactly when the model is
/// English-only, and "multilingual" when it is not.
pub proof fn lemma_description_language(m: WhisperModel)
    ensures
        crate::text::contains(spec_description(m), "English only"@) <==> spec_is_english_only(m),
        !spec_is_english_only(m) ==> crate::text::contains(spec_description(m), "multilingual"@),
{
    reveal_strlit("English only");
    reveal_strlit("multilingual");
    let d = spec_description(m);
    let en = "English only"@;
    let ml = "multilingual"@;
    match m {
        WhisperModel::TinyEn => {
            reveal_strlit("Fastest, English only");
            lemma_has_at(d, en, 9);
        },
        WhisperModel::BaseEn => {
            reveal_strlit("Fast, English only");
            lemma_has_at(d, en, 6);
        },
        WhisperModel::SmallEn => {
            reveal_strlit("Balanced, English only");
            lemma_has_at(d, en, 10);
        },
        WhisperModel::MediumEn => {
            reveal_strlit("Accurate, English only (recommended)");
            lemma_has_at(d, en, 10);
        },
        WhisperModel::Tiny => {
            reveal_strlit("Fastest, multilingual");
            lemma_has_at(d, ml, 9);
            lemma_lacks_char(d, en);
        },
        WhisperModel::Base => {
            reveal_strlit("Fast, multilingual");
            lemma_has_at(d, ml, 6);
            lemma_lacks_char(d, en);
        },
        WhisperModel::Small => {
            reveal_strlit("Balanced, multilingual");
            lemma_has_at(d, ml, 10);
            lemma_lacks_char(d, en);
        },
        WhisperModel::Medium => {
            reveal_strlit("Accurate, multilingual");
            lemma_has_at(d, ml, 10);
            lemma_lacks_char(d, en);
        },
        WhisperModel::LargeV3 => {
            reveal_strlit("Most accurate, multilingual");
            lemma_has_at(d, ml, 15);
            lemma_lacks_char(d, en);
        },
    }
}

/// The user's base directories: home, cache and local data.
#[derive(Debug, Clone)]
pub struct BaseDirectories {
    pub home: String,
    pub cache: String,
    pub data_local: String,
}

/// The user's base directories as the `directories` crate finds them
/// (`BaseDirs::new`, then `home_dir`, `cache_dir`, `data_local_dir`).
///
/// Nothing is claimed of the result: it depends on the environment and the
/// operating system's user database.
#[verifier::external_body]
fn base_directories() -> (r: Option<BaseDirectories>) {
    match directories::BaseDirs::new() {
        Some(d) => Some(BaseDirectories {
            home: d.home_dir().to_string_lossy().into_owned(),
            cache: d.cache_dir().to_string_lossy().into_owned(),
            data_local: d.data_local_dir().to_string_lossy().into_owned(),
        }),
        None => None,
    }
}

/// `base` joined with the relative name `part` as `PathBuf::join` does on the
/// platform: with a backslash on Windows and `/` elsewhere, unless `base` is empty
/// or already ends in a separator.
pub open spec fn dir_join(platform: Platform, base: Seq<char>, part: Seq<char>) -> Seq<char> {
    match platform {
        Platform::Windows => if base.len() > 0 && base.last() != '\\' && base.last() != '/' {
            base + seq!['\\'] + part
        } else {
            base + part
        },
        _ => path_join(base, part),
    }
}

/// Joins a directory and a relative name with the platform's separator
/// (see `dir_join`).
pub fn join_dir(platform: Platform, base: &str, part: &str) -> (r: String)
    ensures
        r@ == dir_join(platform, base@, part@),
{
    match platform {
        Platform::Windows => {
            let mut out = String::new();
            push_str(&mut out, base);
            let bn = base.unicode_len();
            if bn > 0 && base.get_char(bn - 1) != '\\' && base.get_char(bn - 1) != '/' {
                push_char(&mut out, '\\');
            }
            push_str(&mut out, part);
            out
        },
        _ => join_path(base, part),
    }
}

/// Where Whisper models are kept on each platform: `omnirec` under the cache
/// directory on Linux, `Library/Caches/omnirec` under the home directory on
/// macOS, `omnirec` then `cache` under the local data directory (`%LOCALAPPDATA%`)
/// on Windows; the current directory when the base directories are unknown.
pub open spec fn spec_whisper_cache_dir(platform: Platform, dirs: Option<BaseDirectories>) -> Seq<char> {
    match dirs {
        None => "."@,
        Some(d) => match platform {
            Platform::MacOS => dir_join(platform, d.home@, "Library/Caches/omnirec"@),
            Platform::Windows => dir_join(platform, d.data_local@, "omnirec\\cache"@),
            Platform::Linux => dir_join(platform, d.cache@, "omnirec"@),
        },
    }
}

/// The Whisper model directory for the given base directories (see
/// `spec_whisper_cache_dir`).
pub fn whisper_cache_dir_in(platform: Platform, dirs: &Option<BaseDirectories>) -> (r: String)
    ensures
        r@ == spec_whisper_cache_dir(platform, *dirs),
{
    match dirs {
        None => ".".to_string(),
        Some(d) => match platform {
            Platform::MacOS => join_dir(platform, d.home.as_str(), "Library/Caches/omnirec"),
            Platform::Windows => join_dir(platform, d.data_local.as_str(), "omnirec\\cache"),
            Platform::Linux => join_dir(platform, d.cache.as_str(), "omnirec"),
        },
    }
}

/// Get the directory where Whisper models are cached on this machine.
pub fn get_whisper_cache_dir(platform: Platform) -> (r: String)
    ensures
        exists|dirs: Option<BaseDirectories>| r@ == spec_whisper_cache_dir(platform, dirs),
{
    let dirs = base_directories();
    whisper_cache_dir_in(platform, &dirs)
}

impl WhisperModel {
    /// The path of this model's file inside the model directory `cache_dir`
    /// on `platform`.
    pub fn model_path_in(&self, platform: Platform, cache_dir: &str) -> (r: String)
        ensures
            r@ == dir_join(platform, cache_dir@, spec_filename(*self)),
    {
        join_dir(platform, cache_dir, self.filename())
    }

    /// Get the path where this model should be stored on this machine.
    pub fn model_path(&self, platform: Platform) -> (r: String)
        ensures
            exists|dirs: Option<BaseDirectories>| r@ == dir_join(
                platform,
                spec_whisper_cache_dir(platform, dirs),
                spec_filename(*self),
            ),
    {
        let dir = get_whisper_cache_dir(platform);
        self.model_path_in(platform, dir.as_str())
    }
}

} // verus!
