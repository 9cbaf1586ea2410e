use omnirec::transcript::{
    format_timestamp, remove_repetition_loops, segment_line, transcript_file_name,
    transcript_filename_from_video, transcript_header,
};

#[test]
fn test_format_timestamp() {
    assert_eq!(format_timestamp((0.0f64).round() as u64), "00:00:00");
    assert_eq!(format_timestamp((59.0f64).round() as u64), "00:00:59");
    assert_eq!(format_timestamp((60.0f64).round() as u64), "00:01:00");
    assert_eq!(format_timestamp((3661.0f64).round() as u64), "01:01:01");
    assert_eq!(format_timestamp((7322.5f64).round() as u64), "02:02:03");
}

#[test]
fn format_timestamp_hours_grow_past_two_digits() {
    assert_eq!(format_timestamp(360_000), "100:00:00");
}

#[test]
fn test_transcript_filename() {
    let transcript = transcript_filename_from_video("/path/to/recording_2024-01-15.mp4");
    assert_eq!(transcript, "/path/to/recording_2024-01-15_transcript.md");
}

#[test]
fn transcript_file_name_defaults_to_recording() {
    assert_eq!(transcript_file_name(None), "recording_transcript.md");
    assert_eq!(transcript_file_name(Some("clip")), "clip_transcript.md");
    assert_eq!(transcript_filename_from_video("clip.mkv"), "clip_transcript.md");
}

#[test]
fn segment_lines_are_trimmed_and_stamped() {
    assert_eq!(segment_line(3723, "  hello there \n"), "[01:02:03] hello there\n\n");
    assert_eq!(transcript_header(), "# Recording Transcript\n\n");
}

#[test]
fn test_remove_repetition_loops_basic() {
    let input = "And I think that's a very important point. And I think that's a very important point. And I think that's a very important point. And I think that's a very important point.";
    let result = remove_repetition_loops(input);
    assert!(
        result.matches("And I think that's a very important point").count() == 1,
        "Expected single occurrence, got: {}",
        result
    );
}

#[test]
fn test_remove_repetition_loops_with_trailing() {
    let input = "This is important. This is important. This is important. And then something else.";
    let result = remove_repetition_loops(input);
    assert!(result.contains("This is important"));
    assert!(result.contains("something else"));
    assert!(
        result.matches("This is important").count() == 1,
        "Expected single occurrence, got: {}",
        result
    );
}

#[test]
fn test_remove_repetition_loops_no_repetition() {
    let input = "This is a normal sentence. And this is another one. Nothing repeating here.";
    let result = remove_repetition_loops(input);
    assert_eq!(result, input);
}

#[test]
fn test_remove_repetition_loops_short_text() {
    let input = "Short text.";
    let result = remove_repetition_loops(input);
    assert_eq!(result, input);
}

#[test]
fn test_remove_repetition_loops_two_occurrences_ok() {
    let input = "I agree. I agree.";
    let result = remove_repetition_loops(input);
    assert_eq!(result, input);
}

#[test]
fn repetition_loops_compare_case_insensitively_and_rejoin_words() {
    let input = "intro  words here one two three ONE TWO THREE One Two Three end";
    assert_eq!(remove_repetition_loops(input), "intro words here one two three end");
}
