use rs_summarizer::vtt_parser::{parse_cues, parse_timestamp_to_hms, parse_vtt, strip_vtt_tags};

#[test]
fn test_strip_vtt_tags() {
    assert_eq!(
        strip_vtt_tags("welcome<00:00:01.350><c> to</c><00:00:01.530><c> BASF</c>"),
        "welcome to BASF"
    );
    assert_eq!(strip_vtt_tags("plain text"), "plain text");
    assert_eq!(strip_vtt_tags(""), "");
}

#[test]
fn test_parse_timestamp_to_hms() {
    assert_eq!(parse_timestamp_to_hms("00:00:00.040"), "00:00:00");
    assert_eq!(parse_timestamp_to_hms("00:00:05.090"), "00:00:05");
    assert_eq!(parse_timestamp_to_hms("01:01:01.000"), "01:01:01");
    assert_eq!(parse_timestamp_to_hms("23:45.678"), "00:23:45");
}

#[test]
fn test_parse_vtt_empty_content() {
    let content = "WEBVTT\n\n";
    let result = parse_vtt(content);
    assert_eq!(result, "");
}

#[test]
fn stripping_tags_twice_changes_nothing() {
    let once = strip_vtt_tags("a<b>c</b>d<e");
    assert_eq!(once, "acd");
    assert_eq!(strip_vtt_tags(&once), once);
}

#[test]
fn malformed_timestamps_become_zero() {
    assert_eq!(parse_timestamp_to_hms("garbage"), "00:00:00");
    assert_eq!(parse_timestamp_to_hms("1:2:3:4"), "00:00:00");
    assert_eq!(parse_timestamp_to_hms("x:05.1"), "00:00:05");
}

#[test]
fn cues_need_a_timing_line_and_a_payload() {
    let vtt = "WEBVTT\n\nNOTE no timing\n\n00:00:01.000 --> 00:00:02.000\nhello\nworld\n\n00:00:03.000 --> 00:00:04.000\n";
    let cues = parse_cues(vtt);
    assert_eq!(cues.len(), 1);
    assert_eq!(cues[0].start_timestamp, "00:00:01");
    assert_eq!(cues[0].payload, "hello\nworld");
}

#[test]
fn repeated_captions_are_kept_once() {
    let vtt = "WEBVTT\n\n00:00:00.000 --> 00:00:01.000\nintro\n\n00:00:01.000 --> 00:00:02.000\nfirst line\n\n00:00:02.000 --> 00:00:03.000\nfirst line\n\n00:00:03.000 --> 00:00:04.000\nsecond <c>line</c>\n\n00:00:05.000 --> 00:00:06.000\nend\n";
    let out = parse_vtt(vtt);
    assert_eq!(out, "00:00:00 intro\n00:00:01 first line\n00:00:03 second line\n");
}
