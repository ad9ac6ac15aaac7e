use rs_summarizer::url_validator::{normalize_hn_url, normalize_youtube_url, parse_source_url,
    split_urls, validate_hn_url, validate_youtube_url, ParsedSource};

#[test]
fn test_validate_hn_url() {
    assert_eq!(validate_hn_url("https://news.ycombinator.com/item?id=40000000"), Some(40000000));
    assert_eq!(validate_hn_url("http://news.ycombinator.com/item?id=123456"), Some(123456));
    assert_eq!(validate_hn_url("news.ycombinator.com/item?id=789012"), Some(789012));
    assert_eq!(validate_hn_url("item?id=999999"), Some(999999));
    assert_eq!(validate_hn_url("40000000"), Some(40000000));
    assert_eq!(validate_hn_url("https://example.com/not-hn"), None);
}

#[test]
fn test_normalize_hn_url() {
    assert_eq!(
        normalize_hn_url("item?id=40000000"),
        Some("https://news.ycombinator.com/item?id=40000000".to_string())
    );
}

#[test]
fn test_parse_source_url() {
    assert_eq!(
        parse_source_url("https://news.ycombinator.com/item?id=40000000"),
        ParsedSource::HackerNews(40000000, "https://news.ycombinator.com/item?id=40000000".to_string())
    );
    assert_eq!(
        parse_source_url("https://www.youtube.com/watch?v=Dgj2jivpaJk"),
        ParsedSource::YouTube("https://www.youtube.com/watch?v=Dgj2jivpaJk".to_string())
    );
    assert_eq!(
        parse_source_url("Dgj2jivpaJk"),
        ParsedSource::YouTube("https://www.youtube.com/watch?v=Dgj2jivpaJk".to_string())
    );
    assert_eq!(
        parse_source_url("invalid_random_string"),
        ParsedSource::Unknown("invalid_random_string".to_string())
    );
}

#[test]
fn test_live_url() {
    assert_eq!(
        Some("0123456789a".to_string()),
        validate_youtube_url("https://www.youtube.com/live/0123456789a")
    );
}

#[test]
fn test_live_url_with_params() {
    assert_eq!(
        Some("0123456789a".to_string()),
        validate_youtube_url("https://www.youtube.com/live/0123456789a&abc=123")
    );
}

#[test]
fn test_watch_url_with_params() {
    assert_eq!(
        Some("_123456789a".to_string()),
        validate_youtube_url("https://www.youtube.com/watch?v=_123456789a&abc=123")
    );
}

#[test]
fn test_watch_url_no_subdomain() {
    assert_eq!(
        Some("_123456789a".to_string()),
        validate_youtube_url("https://youtube.com/watch?v=_123456789a&abc=123")
    );
}

#[test]
fn test_youtu_be_with_www() {
    assert_eq!(
        Some("-123456789a".to_string()),
        validate_youtube_url("https://www.youtu.be/-123456789a&abc=123")
    );
}

#[test]
fn test_youtu_be_no_subdomain() {
    assert_eq!(
        Some("-123456789a".to_string()),
        validate_youtube_url("https://youtu.be/-123456789a&abc=123")
    );
}

#[test]
fn test_http_rejected() {
    assert_eq!(
        None,
        validate_youtube_url("http://www.youtube.com/live/0123456789a")
    );
}

#[test]
fn test_mobile_watch_url() {
    assert_eq!(
        Some("QbnkIdw0HJQ".to_string()),
        validate_youtube_url("https://m.youtube.com/watch?v=QbnkIdw0HJQ")
    );
}

#[test]
fn test_standard_watch_url() {
    assert_eq!(
        Some("Dgj2jivpaJk".to_string()),
        validate_youtube_url("https://www.youtube.com/watch?v=Dgj2jivpaJk")
    );
}

#[test]
fn test_shorts_url() {
    assert_eq!(
        Some("Dgj2jivpaJk".to_string()),
        validate_youtube_url("https://www.youtube.com/shorts/Dgj2jivpaJk")
    );
}

#[test]
fn test_raw_id() {
    assert_eq!(
        Some("_Qeur243coc".to_string()),
        validate_youtube_url("_Qeur243coc")
    );
}

#[test]
fn test_normalize_youtube_url() {
    assert_eq!(
        Some("https://www.youtube.com/watch?v=_Qeur243coc".to_string()),
        normalize_youtube_url("_Qeur243coc")
    );
    assert_eq!(
        Some("https://www.youtube.com/watch?v=Dgj2jivpaJk".to_string()),
        normalize_youtube_url("https://www.youtube.com/watch?v=Dgj2jivpaJk")
    );
    assert_eq!(
        None,
        normalize_youtube_url("not-an-id")
    );
}

#[test]
fn test_split_urls() {
    let input = "https://www.youtube.com/watch?v=123, _Qeur243coc\nhttps://youtu.be/abc   xyz12345678";
    let res = split_urls(input);
    assert_eq!(res, vec![
        "https://www.youtube.com/watch?v=123",
        "_Qeur243coc",
        "https://youtu.be/abc",
        "xyz12345678"
    ]);
}

#[test]
fn normalized_links_normalize_to_themselves() {
    let once = normalize_youtube_url("https://youtu.be/8S4a_LdHhsc?t=100").unwrap();
    assert_eq!(normalize_youtube_url(&once), Some(once.clone()));
    let hn = normalize_hn_url("https://news.ycombinator.com/item?id=42").unwrap();
    assert_eq!(hn, "https://news.ycombinator.com/item?id=42");
    assert_eq!(normalize_hn_url(&hn), Some(hn.clone()));
}

#[test]
fn split_urls_of_blank_input_is_empty() {
    assert!(split_urls("  ,\n ").is_empty());
    assert!(split_urls("   ").is_empty());
    assert_eq!(split_urls(",a,,b,"), vec!["a", "b"]);
}

#[test]
fn video_ids_must_be_exactly_eleven_characters() {
    assert_eq!(validate_youtube_url("https://www.youtube.com/watch?v=abcdefghijkl"), None);
    assert_eq!(validate_youtube_url("https://youtu.be/abcdefghijk-"), None);
    assert_eq!(validate_youtube_url("https://www.youtube.com/watch?v=abcdefghijk"), Some("abcdefghijk".to_string()));
    assert_eq!(validate_youtube_url("https://www.youtube.com/watch?v=abcdefghijk&t=10"), Some("abcdefghijk".to_string()));
    assert_eq!(validate_youtube_url("https://youtu.be/abcdefghijk?si=x"), Some("abcdefghijk".to_string()));
    assert_eq!(normalize_youtube_url("https://www.youtube.com/shorts/abcdefghijkl"), None);
}
