use omnirec::config::WhisperModel;
use omnirec::models::{
    model_info, model_status, parse_model, DownloadGate, DownloadTracker, WhisperSamplingStrategy,
};

#[test]
fn model_listing_entries() {
    let info = model_info(WhisperModel::MediumEn, true);
    assert_eq!(info.id, "medium-en");
    assert_eq!(info.display_name, "medium.en");
    assert_eq!(info.size_display, "1.5 GB");
    assert!(info.english_only && info.downloaded);
    let info = model_info(WhisperModel::LargeV3, false);
    assert_eq!(info.id, "large-v3");
}

#[test]
fn model_status_ids() {
    let s = model_status(WhisperModel::MediumEn, "/m/x.bin".to_string(), false, None);
    assert_eq!(s.model, "medium-en");
    assert_eq!(s.expected_size, 1536 * 1024 * 1024);
    assert_eq!(model_status(WhisperModel::LargeV3, String::new(), true, Some(3)).model, "largev3");
    assert_eq!(parse_model("tiny-en"), Ok(WhisperModel::TinyEn));
    assert_eq!(parse_model("huge"), Err("Invalid model: huge".to_string()));
}

#[test]
fn download_progress_is_reported_when_it_grows() {
    let mut t = DownloadTracker::new(1000);
    assert_eq!(t.on_chunk(5), None);
    assert_eq!(t.on_chunk(5), Some(1));
    assert_eq!(t.on_chunk(5), None);
    assert_eq!(t.on_chunk(985), Some(100));
    let p = t.progress("tiny", "completed", 100);
    assert_eq!((p.bytes_downloaded, p.total_bytes, p.percentage), (1000, 1000, 100));
    let mut unknown = DownloadTracker::new(0);
    assert_eq!(unknown.on_chunk(500), None);
}

#[test]
fn only_one_download_at_a_time() {
    let mut g = DownloadGate::new();
    assert_eq!(g.request_cancel(), Err("No download in progress".to_string()));
    assert_eq!(g.begin(), Ok(()));
    assert_eq!(g.begin(), Err("A download is already in progress".to_string()));
    assert_eq!(g.request_cancel(), Ok(()));
    assert!(g.cancel_requested);
    g.finish();
    assert!(!g.in_progress);
}

#[test]
fn sampling_strategy_codes_match_native_numbering() {
    assert_eq!(WhisperSamplingStrategy::Greedy.code(), 0);
    assert_eq!(WhisperSamplingStrategy::BeamSearch.code(), 1);
}
