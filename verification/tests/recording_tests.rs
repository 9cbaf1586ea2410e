use omnirec::config::{AudioConfig, TranscriptionConfig, WhisperModel};
use omnirec::recording::{
    get_transcription_segments, plan_encoding, select_audio_source, OutputFormat,
    RecordingManager, RecordingState,
};

#[test]
fn settings_change_only_while_idle() {
    let mut m = RecordingManager::new();
    assert_eq!(m.get_state(), RecordingState::Idle);
    assert_eq!(m.set_output_format(OutputFormat::Gif), Ok(()));
    assert_eq!(m.get_output_format(), OutputFormat::Gif);
    assert_eq!(m.begin_recording(), Ok(()));
    assert_eq!(
        m.set_output_format(OutputFormat::Mkv),
        Err("Cannot change format while recording".to_string())
    );
    assert_eq!(
        m.set_audio_config(AudioConfig::default()),
        Err("Cannot change audio config while recording".to_string())
    );
    assert_eq!(
        m.set_transcription_config(TranscriptionConfig::default()),
        Err("Cannot change transcription config while recording".to_string())
    );
    assert_eq!(m.get_output_format(), OutputFormat::Gif);
}

#[test]
fn recording_lifecycle() {
    let mut m = RecordingManager::new();
    assert_eq!(m.begin_stop(), Err("Not currently recording".to_string()));
    assert_eq!(m.begin_recording(), Ok(()));
    assert_eq!(m.check_idle(), Err("Already recording or saving".to_string()));
    assert_eq!(m.begin_recording(), Err("Already recording or saving".to_string()));
    assert_eq!(m.begin_stop(), Ok(OutputFormat::Mp4));
    assert_eq!(m.get_state(), RecordingState::Saving);
    assert_eq!(m.begin_stop(), Err("Not currently recording".to_string()));
    m.finish();
    assert_eq!(m.get_state(), RecordingState::Idle);
    assert_eq!(m.check_idle(), Ok(()));
}

#[test]
fn output_formats_and_extensions() {
    assert_eq!(OutputFormat::default(), OutputFormat::Mp4);
    assert_eq!(OutputFormat::QuickTime.extension(), "mov");
    assert_eq!(OutputFormat::AnimatedWebp.extension(), "webp");
    assert!(!OutputFormat::Mp4.needs_transcode());
    assert!(OutputFormat::WebM.needs_transcode());
}

#[test]
fn encoding_plan_prefers_microphone_for_transcription() {
    let audio = AudioConfig {
        enabled: true,
        source_id: Some("sys".to_string()),
        microphone_id: Some("mic".to_string()),
        echo_cancellation: true,
    };
    let tr = TranscriptionConfig { enabled: true, model: WhisperModel::Base };
    let p = plan_encoding(&audio, &tr);
    assert!(p.has_system_audio && p.has_microphone && p.audio_enabled && p.transcription_enabled);
    assert_eq!(p.transcription_device, Some("mic".to_string()));

    let off = AudioConfig { enabled: false, ..audio.clone() };
    let p = plan_encoding(&off, &tr);
    assert!(!p.audio_enabled && !p.transcription_enabled);

    let sys_only = AudioConfig { microphone_id: None, ..audio };
    let p = plan_encoding(&sys_only, &tr);
    assert_eq!(p.transcription_device, Some("sys".to_string()));
}

#[test]
fn audio_source_selection() {
    assert_eq!(select_audio_source(Some("a"), Some("b")), Ok("a".to_string()));
    assert_eq!(select_audio_source(None, Some("b")), Ok("b".to_string()));
    assert_eq!(select_audio_source(None, None), Err("No audio source specified".to_string()));
}

#[test]
fn transcription_segments_since_index() {
    let segs = vec!["a".to_string(), "b".to_string(), "c".to_string()];
    assert_eq!(get_transcription_segments(&segs, 0), (segs.clone(), 3));
    assert_eq!(get_transcription_segments(&segs, 2), (vec!["c".to_string()], 3));
    assert_eq!(get_transcription_segments(&segs, 5), (Vec::<String>::new(), 3));
}

#[test]
fn stopping_returns_to_idle_with_the_result_paths() {
    let mut m = RecordingManager::new();
    assert_eq!(m.begin_recording(), Ok(()));
    assert_eq!(m.begin_stop(), Ok(OutputFormat::Mp4));
    let r = m.complete_stop(Some(Ok("/v/a.mp4".to_string())), Some("/v/a.gif".to_string())).unwrap();
    assert_eq!(r.source_path, "/v/a.mp4");
    assert_eq!(r.file_path, "/v/a.mp4");
    assert_eq!(m.get_state(), RecordingState::Idle);

    assert_eq!(m.set_output_format(OutputFormat::Gif), Ok(()));
    assert_eq!(m.begin_recording(), Ok(()));
    assert_eq!(m.begin_stop(), Ok(OutputFormat::Gif));
    let r = m.complete_stop(Some(Ok("/v/b.mp4".to_string())), Some("/v/b.gif".to_string())).unwrap();
    assert_eq!(r.file_path, "/v/b.gif");
    assert_eq!(r.source_path, "/v/b.mp4");

    assert_eq!(m.begin_recording(), Ok(()));
    assert_eq!(m.begin_stop(), Ok(OutputFormat::Gif));
    let r = m.complete_stop(Some(Ok("/v/c.mp4".to_string())), None).unwrap();
    assert_eq!(r.file_path, "/v/c.mp4");

    assert_eq!(m.begin_recording(), Ok(()));
    assert_eq!(m.begin_stop(), Ok(OutputFormat::Gif));
    assert_eq!(m.complete_stop(Some(Err("boom".to_string())), None).unwrap_err(), "boom");
    assert_eq!(m.get_state(), RecordingState::Idle);
    assert_eq!(m.begin_recording(), Ok(()));
    assert_eq!(m.begin_stop(), Ok(OutputFormat::Gif));
    assert_eq!(m.complete_stop(None, None).unwrap_err(), "No encoding task found");
    assert_eq!(m.get_state(), RecordingState::Idle);
}

#[test]
fn stopping_sets_the_stop_handle() {
    let mut m = RecordingManager::new();
    assert!(!m.is_stop_signalled());
    assert!(m.begin_stop().is_err());
    assert!(!m.is_stop_signalled());
    assert_eq!(m.begin_recording(), Ok(()));
    assert!(!m.is_stop_signalled());
    assert_eq!(m.begin_stop(), Ok(OutputFormat::Mp4));
    assert!(m.is_stop_signalled());
    let _ = m.complete_stop(Some(Ok("/v/a.mp4".to_string())), None);
    assert!(m.is_stop_signalled());
    assert_eq!(m.get_state(), RecordingState::Idle);
    assert_eq!(m.begin_recording(), Ok(()));
    assert!(!m.is_stop_signalled());
}
