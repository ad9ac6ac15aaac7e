use rs_summarizer::markdown_converter::{convert_markdown_to_youtube_format, youtube_bold_markers};
use rs_summarizer::markdown_renderer::render_markdown_to_html;

#[test]
fn test_convert_markdown_to_youtube_format() {
    let input = "**Title:**\nLet's **go** to http://www.google.com/search?q=hello.";
    let expected = "*Title:*\nLet's *go* to http://www.google-dot-com/search?q=hello.";
    let result = convert_markdown_to_youtube_format(input);
    assert_eq!(expected, result);
}

#[test]
fn test_double_asterisk_to_single() {
    let result = convert_markdown_to_youtube_format("**bold**");
    assert_eq!("*bold*", result);
}

#[test]
fn test_heading_conversion() {
    let result = convert_markdown_to_youtube_format("## My Heading");
    assert_eq!("*My Heading*", result);
}

#[test]
fn test_heading_multiline() {
    // ## after newline should also be converted with multiline flag
    let result = convert_markdown_to_youtube_format("Hello\n## Second heading");
    assert_eq!("Hello\n*Second heading*", result);
}

#[test]
fn test_url_dot_replacement() {
    let result = convert_markdown_to_youtube_format("Visit https://example.com today");
    assert_eq!("Visit https://example-dot-com today", result);
}

#[test]
fn test_punctuation_repositioning_colon() {
    let result = convert_markdown_to_youtube_format("**Word:**");
    assert_eq!("*Word:*", result);
}

#[test]
fn test_punctuation_repositioning_comma() {
    let result = convert_markdown_to_youtube_format("**Word,** next");
    assert_eq!("*Word,* next", result);
}

#[test]
fn test_no_urls_unchanged() {
    let result = convert_markdown_to_youtube_format("Just plain text here");
    assert_eq!("Just plain text here", result);
}

#[test]
fn test_basic_markdown() {
    let result = render_markdown_to_html("# Hello\n\nThis is **bold**.");
    assert!(result.contains("<h1>Hello</h1>"));
    assert!(result.contains("<strong>bold</strong>"));
}

#[test]
fn test_strikethrough() {
    let result = render_markdown_to_html("~~deleted~~");
    assert!(result.contains("<del>deleted</del>"));
}

#[test]
fn test_table() {
    let md = "| A | B |\n|---|---|\n| 1 | 2 |";
    let result = render_markdown_to_html(md);
    assert!(result.contains("<table>"));
    assert!(result.contains("<td>1</td>"));
}

#[test]
fn test_empty_input() {
    let result = render_markdown_to_html("");
    assert_eq!(result, "");
}

#[test]
fn test_timestamps_preserved() {
    let md = "**00:01:30 Introduction**\n\nSome content here.";
    let result = render_markdown_to_html(md);
    assert!(result.contains("00:01:30"));
    assert!(result.contains("<strong>"));
}

#[test]
fn star_runs_collapse_to_one() {
    assert_eq!(youtube_bold_markers("***a****b*c"), "*a*b*c");
    assert_eq!(youtube_bold_markers("**x**: y"), "*x:* y");
    assert_eq!(youtube_bold_markers("plain"), "plain");
}
