use omnirec::encoder::{
    catch_up_frames, encoder_args, encoder_dimensions, frame_time, new_recording_file_name,
    plan_audio_chunk, recording_file_name, samples_in, select_h264_encoder, transcode_args,
    transcode_failure_message, transcode_output_path, AudioChunkPlan,
};
use omnirec::recording::OutputFormat;
use omnirec::encoder::{audio_pipe_path, silence_bytes, timestamp_text, Pacer, PacerAction};
use omnirec::platform::Platform;

#[test]
fn frame_times_are_exact_thirtieths() {
    assert_eq!(frame_time(0, 0), 0);
    assert_eq!(frame_time(0, 1), 33_333_333);
    assert_eq!(frame_time(0, 3), 100_000_000);
    assert_eq!(frame_time(5, 30), 1_000_000_005);
    assert!(frame_time(0, 299) <= frame_time(0, 300));
}

#[test]
fn pacing_catches_up() {
    assert_eq!(catch_up_frames(10, 1_000_000_000), 30);
    assert_eq!(catch_up_frames(40, 1_000_000_000), 40);
}

#[test]
fn audio_chunks_fill_gaps_and_trim_overlap() {
    // A gap of 100 samples before the chunk.
    assert_eq!(
        plan_audio_chunk(1000, 1100, 0, 50),
        Some(AudioChunkPlan { silence: 100, skip_front: 0, write: 50 })
    );
    // Overlap of 30 samples.
    assert_eq!(
        plan_audio_chunk(1000, 970, 0, 50),
        Some(AudioChunkPlan { silence: 0, skip_front: 30, write: 20 })
    );
    // Entirely before the written position.
    assert_eq!(plan_audio_chunk(1000, 900, 0, 50), None);
    // Initial skip shifts the chunk earlier.
    assert_eq!(
        plan_audio_chunk(0, 4800, 4800, 10),
        Some(AudioChunkPlan { silence: 0, skip_front: 0, write: 10 })
    );
    assert_eq!(samples_in(500_000_000, 48_000), 24_000);
    assert_eq!(samples_in(10_417, 48_000), 1); // 0.5000 samples rounds up
}

#[test]
fn encoder_choice_follows_preferences() {
    let listing = " V....D libopenh264          OpenH264 H.264\n V....D h264_vaapi           H.264 (VAAPI)\n";
    assert_eq!(select_h264_encoder(listing), "libopenh264");
    assert_eq!(select_h264_encoder(" V..... libx264 H.264\n V..... h264_nvenc\n"), "libx264");
    assert_eq!(select_h264_encoder(" h264_qsv"), "h264_qsv");
    assert_eq!(select_h264_encoder(""), "libx264");
}

#[test]
fn recording_command_line() {
    let args = encoder_args(1920, 1080, "libx264", Some("/tmp/pipe"), "/out.mp4");
    let expected: Vec<&str> = vec![
        "-f", "rawvideo", "-pix_fmt", "bgra", "-s", "1920x1080", "-r", "30", "-i", "-",
        "-f", "s16le", "-ar", "48000", "-ac", "1", "-i", "/tmp/pipe",
        "-c:v", "libx264", "-preset", "ultrafast", "-crf", "23",
        "-pix_fmt", "yuv420p",
        "-c:a", "aac", "-b:a", "192k", "-map", "0:v", "-map", "1:a",
        "-y", "/out.mp4",
    ];
    assert_eq!(args, expected);
    let args = encoder_args(640, 480, "h264_amf", None, "o.mp4");
    let expected: Vec<&str> = vec![
        "-f", "rawvideo", "-pix_fmt", "bgra", "-s", "640x480", "-r", "30", "-i", "-",
        "-c:v", "h264_amf", "-preset", "p1", "-rc", "vbr", "-cq", "23",
        "-pix_fmt", "yuv420p", "-y", "o.mp4",
    ];
    assert_eq!(args, expected);
}

#[test]
fn transcode_command_lines() {
    assert_eq!(transcode_args("a.mp4", OutputFormat::Mp4, "a.mp4"), None);
    assert_eq!(
        transcode_args("a.mp4", OutputFormat::Mkv, "a.mkv"),
        Some(vec!["-i", "a.mp4", "-c:v", "copy", "-y", "a.mkv"].into_iter().map(String::from).collect())
    );
    assert_eq!(
        transcode_args("a.mp4", OutputFormat::AnimatedPng, "a.apng").unwrap(),
        vec!["-i", "a.mp4", "-plays", "0", "-f", "apng", "-y", "a.apng"]
    );
    assert_eq!(transcode_output_path("/v/rec.mp4", OutputFormat::WebM), "/v/rec.webm");
}

#[test]
fn transcode_failure_messages() {
    assert_eq!(
        transcode_failure_message("", Some(1)),
        "FFmpeg transcoding failed with exit code: Some(1)"
    );
    assert_eq!(
        transcode_failure_message("", None),
        "FFmpeg transcoding failed with exit code: None"
    );
    assert_eq!(
        transcode_failure_message("line one\nbad thing\r\n", Some(1)),
        "FFmpeg transcoding failed: bad thing"
    );
    assert_eq!(transcode_failure_message("only", Some(-2)), "FFmpeg transcoding failed: only");
}

#[test]
fn encoder_dimensions_are_even() {
    assert_eq!(encoder_dimensions(1921, 1081), Ok((1920, 1080)));
    assert_eq!(encoder_dimensions(1, 100), Err("Invalid dimensions: 0x100".to_string()));
}

#[test]
fn recording_file_names() {
    assert_eq!(recording_file_name("2024-01-15_143000"), "recording_2024-01-15_143000.mp4");
    let n = new_recording_file_name();
    assert!(n.starts_with("recording_") && n.ends_with(".mp4"));
    assert_eq!(n.len(), "recording_".len() + 17 + 4);
}

#[test]
fn audio_pipe_paths() {
    assert_eq!(audio_pipe_path(Platform::Linux, 42), "/tmp/omnirec_audio_42");
    assert_eq!(audio_pipe_path(Platform::Windows, 7), r"\\.\pipe\omnirec_audio_7");
    assert_eq!(silence_bytes(3), vec![0u8; 6]);
}

#[test]
fn pacer_sends_one_frame_per_slot() {
    let mut p = Pacer::new(0);
    assert_eq!(p.next_frame_nanos, 33_333_333);
    assert_eq!(p.tick(10_000_000, true), PacerAction::Wait);
    assert_eq!(p.frames_written, 1);
    assert_eq!(p.tick(33_333_333, true), PacerAction::Send);
    assert_eq!((p.frames_written, p.next_frame_nanos), (2, 66_666_666));
    assert_eq!(p.tick(70_000_000, false), PacerAction::Skip);
    assert_eq!((p.frames_written, p.next_frame_nanos), (3, 100_000_000));
    // Far behind: after sending, jump to the slot of "now" (1 s -> frame 30).
    assert_eq!(p.tick(1_000_000_000, true), PacerAction::Send);
    assert_eq!((p.frames_written, p.next_frame_nanos), (30, 1_000_000_000));
}

#[test]
fn timestamps_are_zero_padded() {
    assert_eq!(timestamp_text(2024, 1, 15, 14, 30, 0), "2024-01-15_143000");
    assert_eq!(timestamp_text(987, 12, 3, 4, 5, 60), "0987-12-03_040560");
    assert_eq!(timestamp_text(-5, 6, 7, 8, 9, 10), "-0005-06-07_080910");
    assert_eq!(timestamp_text(12345, 1, 1, 0, 0, 0), "+12345-01-01_000000");
    let n = new_recording_file_name();
    let ts = &n["recording_".len()..n.len() - 4];
    let b = ts.as_bytes();
    assert_eq!(b[4], b'-');
    assert_eq!(b[7], b'-');
    assert_eq!(b[10], b'_');
}
