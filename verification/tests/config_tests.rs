use omnirec::config::{
    AppConfig, AppearanceConfig, AudioConfig, OutputConfig, ThemeMode, TranscriptionConfig,
    WhisperModel, BaseDirectories, whisper_cache_dir_in,
};
use omnirec::platform::Platform;

#[test]
fn test_default_config() {
    let config = AppConfig::default();
    assert!(config.output.directory.is_none());
    assert!(config.audio.enabled);
    assert!(config.audio.source_id.is_none());
    assert!(config.audio.microphone_id.is_none());
    assert!(config.audio.echo_cancellation);
}

#[test]
fn test_audio_config_defaults() {
    let config = AudioConfig::default();
    assert!(config.enabled);
    assert!(config.source_id.is_none());
    assert!(config.microphone_id.is_none());
    assert!(config.echo_cancellation);
}

#[test]
fn test_theme_mode_default() {
    let config = AppearanceConfig::default();
    assert_eq!(config.theme, ThemeMode::Auto);
}

#[test]
fn test_theme_mode_from_str() {
    assert_eq!(ThemeMode::from_str("auto"), Some(ThemeMode::Auto));
    assert_eq!(ThemeMode::from_str("light"), Some(ThemeMode::Light));
    assert_eq!(ThemeMode::from_str("dark"), Some(ThemeMode::Dark));
    assert_eq!(ThemeMode::from_str("AUTO"), Some(ThemeMode::Auto));
    assert_eq!(ThemeMode::from_str("invalid"), None);
}

#[test]
fn test_theme_mode_as_str() {
    assert_eq!(ThemeMode::Auto.as_str(), "auto");
    assert_eq!(ThemeMode::Light.as_str(), "light");
    assert_eq!(ThemeMode::Dark.as_str(), "dark");
}

#[test]
fn test_whisper_model_default() {
    let config = TranscriptionConfig::default();
    assert_eq!(config.model, WhisperModel::MediumEn);
    assert!(!config.enabled);
}

#[test]
fn test_whisper_model_metadata() {
    let model = WhisperModel::MediumEn;
    assert_eq!(model.filename(), "ggml-medium.en.bin");
    assert_eq!(model.display_name(), "medium.en");
    assert_eq!(model.size_display(), "1.5 GB");
    assert!(model.is_english_only());

    let model = WhisperModel::LargeV3;
    assert_eq!(model.filename(), "ggml-large-v3.bin");
    assert_eq!(model.display_name(), "large-v3");
    assert!(!model.is_english_only());
}

#[test]
fn test_whisper_model_from_str() {
    assert_eq!(WhisperModel::from_str("medium.en"), Some(WhisperModel::MediumEn));
    assert_eq!(WhisperModel::from_str("medium-en"), Some(WhisperModel::MediumEn));
    assert_eq!(WhisperModel::from_str("large-v3"), Some(WhisperModel::LargeV3));
    assert_eq!(WhisperModel::from_str("tiny"), Some(WhisperModel::Tiny));
    assert_eq!(WhisperModel::from_str("invalid"), None);
}

#[test]
fn test_whisper_model_all() {
    let all = WhisperModel::all();
    assert_eq!(all.len(), 9);
    assert!(all.contains(&WhisperModel::TinyEn));
    assert!(all.contains(&WhisperModel::LargeV3));
}

#[test]
fn test_whisper_model_download_url() {
    let model = WhisperModel::MediumEn;
    assert!(model.download_url().contains("huggingface.co"));
    assert!(model.download_url().contains("ggml-medium.en.bin"));
}

#[test]
fn display_names_parse_back_to_their_model() {
    for m in WhisperModel::all() {
        assert_eq!(WhisperModel::from_str(m.display_name()), Some(m));
    }
}

#[test]
fn model_sizes_are_exact_byte_counts() {
    assert_eq!(WhisperModel::TinyEn.size_bytes(), 75 * 1024 * 1024);
    assert_eq!(WhisperModel::LargeV3.size_bytes(), 2969 * 1024 * 1024);
}

#[test]
fn app_config_new_is_default() {
    let c = AppConfig::new();
    assert!(c.output.directory.is_none());
    assert_eq!(c.appearance.theme, ThemeMode::Auto);
    assert!(!c.transcription.enabled);
}

#[test]
fn empty_output_directory_clears_choice() {
    assert_eq!(OutputConfig::normalized_directory(Some(String::new())), None);
    assert_eq!(
        OutputConfig::normalized_directory(Some("/videos".to_string())),
        Some("/videos".to_string())
    );
    assert_eq!(OutputConfig::normalized_directory(None), None);
}

#[test]
fn whisper_cache_dir_per_platform() {
    let dirs = Some(BaseDirectories {
        home: "/home/u".to_string(),
        cache: "/home/u/.cache".to_string(),
        data_local: "C:\\Users\\u\\AppData\\Local".to_string(),
    });
    assert_eq!(whisper_cache_dir_in(Platform::Linux, &dirs), "/home/u/.cache/omnirec");
    assert_eq!(whisper_cache_dir_in(Platform::MacOS, &dirs), "/home/u/Library/Caches/omnirec");
    assert_eq!(
        whisper_cache_dir_in(Platform::Windows, &dirs),
        "C:\\Users\\u\\AppData\\Local\\omnirec\\cache"
    );
    assert_eq!(whisper_cache_dir_in(Platform::Linux, &None), ".");
    assert_eq!(
        WhisperModel::Base.model_path_in(Platform::Linux, "/models"),
        "/models/ggml-base.bin"
    );
}

#[test]
fn model_locations_follow_the_cache_table() {
    let dirs = Some(BaseDirectories {
        home: "/home/u".to_string(),
        cache: "/home/u/.cache".to_string(),
        data_local: "C:\\Users\\u\\AppData\\Local".to_string(),
    });
    let m = WhisperModel::MediumEn;
    let linux = whisper_cache_dir_in(Platform::Linux, &dirs);
    assert_eq!(m.model_path_in(Platform::Linux, &linux), "/home/u/.cache/omnirec/ggml-medium.en.bin");
    let mac = whisper_cache_dir_in(Platform::MacOS, &dirs);
    assert_eq!(
        m.model_path_in(Platform::MacOS, &mac),
        "/home/u/Library/Caches/omnirec/ggml-medium.en.bin"
    );
    let win = whisper_cache_dir_in(Platform::Windows, &dirs);
    assert_eq!(
        m.model_path_in(Platform::Windows, &win),
        "C:\\Users\\u\\AppData\\Local\\omnirec\\cache\\ggml-medium.en.bin"
    );
}

#[test]
fn config_response_names_the_theme() {
    let mut c = AppConfig::default();
    c.appearance.theme = ThemeMode::Dark;
    c.audio.source_id = Some("src".to_string());
    let r = omnirec::responses::ConfigResponse::from_config(&c);
    assert_eq!(r.appearance.theme, "dark");
    assert_eq!(r.audio.source_id, Some("src".to_string()));
    assert!(r.output.directory.is_none());
}

#[test]
fn model_path_ends_with_model_file() {
    let p = WhisperModel::Base.model_path(Platform::Linux);
    assert!(p.ends_with("/omnirec/ggml-base.bin") || p == "./ggml-base.bin");
}

#[test]
fn description_names_the_language() {
    for m in WhisperModel::all() {
        assert_eq!(m.description().contains("English only"), m.is_english_only());
        if !m.is_english_only() {
            assert!(m.description().contains("multilingual"));
        }
    }
}
