use rs_summarizer::timestamp_linker::{link_timestamps, replace_timestamps_for_video,
    replace_timestamps_in_html, youtube_url_with_t};

#[test]
fn test_mm_ss_replacement() {
    let youtube = "https://www.youtube.com/watch?v=8S4a_LdHhsc";
    let html = "<p><strong>14:58 Paper 1:</strong></p>";
    let out = replace_timestamps_in_html(html, youtube);
    // 14*60 + 58 = 898
    assert!(out.contains("t=898s"));
    assert!(out.contains("<a href=\""));
    assert!(out.contains("14:58"));
}

#[test]
fn test_hh_mm_ss_replacement() {
    let youtube = "https://www.youtube.com/watch?v=8S4a_LdHhsc";
    let html = "<p><strong>01:03:05 Testing:</strong></p>";
    let out = replace_timestamps_in_html(html, youtube);
    // 1*3600 + 3*60 + 5 = 3785
    assert!(out.contains("t=3785s"));
    assert!(out.contains("<a href=\""));
    assert!(out.contains("01:03:05"));
}

#[test]
fn test_multiple_timestamps_and_url_normalization() {
    // Input URL contains an existing time param which should be ignored after normalization
    let youtube = "https://youtu.be/8S4a_LdHhsc?t=100";
    let html = "<p><strong>00:03:48 Debunking:</strong></p>\n<p><strong>14:58 Paper 1:</strong></p>\n<p><strong>01:06:01 Targeting Apoptosis:</strong></p>";
    let out = replace_timestamps_in_html(html, youtube);
    // 00:03:48 -> 3*60 + 48 = 228
    // 14:58 -> 14*60 + 58 = 898
    // 01:06:01 -> 1*3600 + 6*60 + 1 = 3961
    assert_eq!(out.matches("<a href=\"").count(), 3);
    assert!(out.contains("t=228s"));
    assert!(out.contains("t=898s"));
    assert!(out.contains("t=3961s"));
    // Ensure the original t=100s from input url is not present
    assert!(!out.contains("t=100s"));
    // Ensure links point to the canonical watch?v=ID form
    assert!(out.contains("watch?v=8S4a_LdHhsc"));
}

#[test]
fn test_invalid_url_no_change() {
    let bad = "https://example.com/watch?v=xxxx";
    let html = "<div><p><strong>01:00 Sample:</strong></p></div>";
    let out = replace_timestamps_in_html(html, bad);
    // Should be unchanged: no anchor tags and original timestamp text remains
    assert_eq!(out, html);
    assert!(!out.contains("<a href=\""));
    assert!(out.contains("01:00"));
}

#[test]
fn test_multiple_urls_timestamp_linking() {
    let youtube_urls = "https://www.youtube.com/watch?v=8S4a_LdHhsc https://www.youtube.com/watch?v=Dgj2jivpaJk";
    let html = r#"<h3>Summary for https://www.youtube.com/watch?v=8S4a_LdHhsc</h3>
<p><strong>01:30 Video 1 segment</strong></p>
<h3>Summary for https://www.youtube.com/watch?v=Dgj2jivpaJk</h3>
<p><strong>02:45 Video 2 segment</strong></p>"#;

    let out = replace_timestamps_in_html(html, youtube_urls);
    // Video 1 segment: 1*60 + 30 = 90
    assert!(out.contains("watch?v=8S4a_LdHhsc&t=90s"));
    // Video 2 segment: 2*60 + 45 = 165
    assert!(out.contains("watch?v=Dgj2jivpaJk&t=165s"));
}

#[test]
fn test_timestamp_regex_avoids_ratios_and_css() {
    let youtube = "https://www.youtube.com/watch?v=8S4a_LdHhsc";
    let html = "<div style=\"aspect-ratio: 16:9; width: 16:09px;\">Ratio text 16:9</div>";
    let out = replace_timestamps_in_html(html, youtube);
    assert_eq!(out, html);
}

#[test]
fn watch_links_carry_the_offset() {
    assert_eq!(youtube_url_with_t("abc", 90), "https://www.youtube.com/watch?v=abc&t=90s");
}

#[test]
fn text_without_timestamps_is_unchanged() {
    let html = "<p>No times here, only 3 numbers 4 and 5.</p>";
    assert_eq!(replace_timestamps_for_video(html, "8S4a_LdHhsc"), html);
}

#[test]
fn links_follow_given_spans_and_skip_blocked_ones() {
    let text = "at 01:30 and 2:05x";
    let spans = vec![(3, 8), (13, 17)];
    let out = link_timestamps(text, &spans, "ID");
    assert_eq!(out, "at <a href=\"https://www.youtube.com/watch?v=ID&t=90s\">01:30</a> and 2:05x");
}

#[test]
fn byte_spans_after_wide_characters_map_to_the_right_text() {
    let text = "é 00:10";
    let spans = vec![(3, 8)];
    let out = link_timestamps(text, &spans, "ID");
    assert_eq!(out, "é <a href=\"https://www.youtube.com/watch?v=ID&t=10s\">00:10</a>");
    assert_eq!(replace_timestamps_for_video(text, "ID"), out);
}
