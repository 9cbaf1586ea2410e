//! Values returned to the user interface.

use vstd::prelude::*;
use crate::config::{spec_theme_name, AppConfig};
use crate::thumbnail::ThumbnailResult;

verus! {

/// Thumbnail returned to the user interface.
#[derive(Debug, Clone)]
pub struct ThumbnailResponse {
    /// Base64-encoded JPEG image data
    pub data: String,
    /// Thumbnail width in pixels
    pub width: u32,
    /// Thumbnail height in pixels
    pub height: u32,
}

impl ThumbnailResponse {
    /// The response for a captured thumbnail.
    pub fn from_result(t: ThumbnailResult) -> (r: Self)
        ensures
            r.data == t.data && r.width == t.width && r.height == t.height,
    {
        ThumbnailResponse { data: t.data, width: t.width, height: t.height }
    }
}

/// Output settings as shown to the user interface.
#[derive(Debug, Clone)]
pub struct OutputConfigResponse {
    pub directory: Option<String>,
}

/// Audio settings as shown to the user interface.
#[derive(Debug, Clone)]
pub struct AudioConfigResponse {
    pub enabled: bool,
    pub source_id: Option<String>,
    pub microphone_id: Option<String>,
    pub echo_cancellation: bool,
}

/// Appearance settings as shown to the user interface: the theme's name.
#[derive(Debug, Clone)]
pub struct AppearanceConfigResponse {
    pub theme: String,
}

/// Configuration response for the user interface.
#[derive(Debug, Clone)]
pub struct ConfigResponse {
    pub output: OutputConfigResponse,
    pub audio: AudioConfigResponse,
    pub appearance: AppearanceConfigResponse,
}

/// The characters of an optional string.
pub open spec fn opt_chars(s: Option<String>) -> Option<Seq<char>> {
    match s {
        Some(x) => Some(x@),
        None => None,
    }
}

fn copy_opt(s: &Option<String>) -> (r: Option<String>)
    ensures
        opt_chars(r) == opt_chars(*s),
{
    match s {
        Some(x) => Some(x.clone()),
        None => None,
    }
}

impl ConfigResponse {
    /// The configuration as shown to the user interface: the same settings,
    /// with the theme by name.
    pub fn from_config(config: &AppConfig) -> (r: Self)
        ensures
            opt_chars(r.output.directory) == opt_chars(config.output.directory),
            r.audio.enabled == config.audio.enabled,
            opt_chars(r.audio.source_id) == opt_chars(config.audio.source_id),
            opt_chars(r.audio.microphone_id) == opt_chars(config.audio.microphone_id),
            r.audio.echo_cancellation == config.audio.echo_cancellation,
            r.appearance.theme@ == spec_theme_name(config.appearance.theme),
    {
        ConfigResponse {
            output: OutputConfigResponse { directory: copy_opt(&config.output.directory) },
            audio: AudioConfigResponse {
                enabled: config.audio.enabled,
                source_id: copy_opt(&config.audio.source_id),
                microphone_id: copy_opt(&config.audio.microphone_id),
                echo_cancellation: config.audio.echo_cancellation,
            },
            appearance: AppearanceConfigResponse {
                theme: config.appearance.theme.as_str().to_string(),
            },
        }
    }
}

} // verus!
