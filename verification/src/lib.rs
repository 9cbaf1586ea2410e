//! Verified core of a cross-platform screen recorder.
//!
//! - `config`: settings and the catalogue of Whisper models
//! - `frame`, `pixel`, `capture`: captured frames, pixel formats, cropping,
//!   content detection, region validation and capture streams
//! - `thumbnail`: scaled JPEG thumbnails
//! - `encoder`: FFmpeg command lines, encoder choice, frame pacing and audio timing
//! - `recording`: the recording lifecycle and its settings
//! - `queue`, `transcript`: transcription queue and transcript text
//! - `ipc`, `token`: picker messages, service framing and the approval token
//! - `platform`, `highlight`: desktop detection, monitors, audio sources, tray
//!   icon and the highlight border
//! - `models`, `responses`: model listing, downloads and user-interface values
//! - `text`: character-level string helpers

pub mod text;
pub mod config;
pub mod frame;
pub mod pixel;
pub mod queue;
pub mod recording;
pub mod transcript;
pub mod encoder;
pub mod thumbnail;
pub mod ipc;
pub mod token;
pub mod platform;
pub mod capture;
pub mod highlight;
pub mod models;
pub mod responses;
pub mod tray;
pub mod window_list;
