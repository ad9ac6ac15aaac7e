use rs_summarizer::submission::{browse_has_next, browse_offset, browse_page_bounds, extract_client_ip,
    group_duplicates, link_lookup_key, plan_submission, transcript_lookup_key};

#[test]
fn test_extract_client_ip_priority() {
    assert_eq!(extract_client_ip(Some("203.0.113.7, 10.0.0.1"), Some("198.51.100.2"), "127.0.0.1"), "203.0.113.7");
    assert_eq!(extract_client_ip(Some("  , 10.0.0.1"), Some(" 198.51.100.2 "), "127.0.0.1"), "198.51.100.2");
    assert_eq!(extract_client_ip(None, Some("  "), "127.0.0.1"), "127.0.0.1");
}

#[test]
fn submissions_are_split_into_items() {
    let items = plan_submission("https://youtu.be/8S4a_LdHhsc, item?id=42", Some("notes")).unwrap();
    assert_eq!(items.len(), 2);
    assert_eq!(items[0], ("https://www.youtube.com/watch?v=8S4a_LdHhsc".to_string(), Some("notes".to_string())));
    assert_eq!(items[1], ("https://news.ycombinator.com/item?id=42".to_string(), None));
    let pasted = plan_submission("  ", Some("only text")).unwrap();
    assert_eq!(pasted, vec![(String::new(), Some("only text".to_string()))]);
    assert_eq!(
        plan_submission(" ", None),
        Err("<p>Error: Please provide either a YouTube URL, Hacker News URL, or paste content.</p>".to_string())
    );
    assert_eq!(
        plan_submission("https://youtu.be/8S4a_LdHhsc bogus", None),
        Err("<p>Error: The provided value 'bogus' is neither a valid YouTube URL, video ID, nor a Hacker News URL.</p>".to_string())
    );
}

#[test]
fn duplicate_lookups_use_trimmed_text() {
    assert_eq!(transcript_lookup_key(Some("  t  ")), Some("t".to_string()));
    assert_eq!(transcript_lookup_key(Some("   ")), None);
    assert_eq!(transcript_lookup_key(None), None);
    assert_eq!(link_lookup_key(" https://x "), Some("https://x".to_string()));
    assert_eq!(link_lookup_key(""), None);
}

#[test]
fn browse_pages() {
    assert_eq!(browse_offset(3, 20), 60);
    assert!(browse_has_next(20, 20));
    assert!(!browse_has_next(19, 20));
    assert_eq!(browse_page_bounds(45, 0, 20), (0, 20, true));
    assert_eq!(browse_page_bounds(45, 2, 20), (40, 45, false));
    assert_eq!(browse_page_bounds(45, 3, 20), (0, 0, false));
    assert_eq!(browse_page_bounds(40, 1, 20), (20, 40, false));
}

#[test]
fn test_get_browse_page_basic() {
    let (start, end, has_next) = browse_page_bounds(25, 0, 20);
    assert_eq!(end - start, 20);
    assert!(has_next);
    let (start, end, has_next) = browse_page_bounds(25, 1, 20);
    assert_eq!(end - start, 5);
    assert!(!has_next);
}

#[test]
fn test_get_browse_page_beyond_end() {
    let (start, end, has_next) = browse_page_bounds(5, 1, 20);
    assert_eq!(end - start, 0);
    assert!(!has_next);
}

fn previews(texts: &[&str]) -> Vec<String> {
    texts.iter().map(|t| t.to_string()).collect()
}

#[test]
fn test_group_duplicates_no_duplicates() {
    let groups = group_duplicates(&previews(&["Summary A", "Summary B", "Summary C"]));
    assert_eq!(groups.len(), 3);
    assert_eq!(groups[0].1 - groups[0].0, 1);
    assert_eq!(groups[1].1 - groups[1].0, 1);
    assert_eq!(groups[2].1 - groups[2].0, 1);
}

#[test]
fn test_group_duplicates_consecutive() {
    // entry k has identifier k + 1
    let groups = group_duplicates(&previews(&["Summary A", "Summary A", "Summary A", "Summary B"]));
    assert_eq!(groups.len(), 2);
    assert_eq!(groups[0].1 - groups[0].0, 3);
    assert_eq!(groups[0].0 + 1, 1);
    assert_eq!(groups[0].1, 3);
    assert_eq!(groups[1].1 - groups[1].0, 1);
    assert_eq!(groups[1].0 + 1, 4);
}

#[test]
fn test_group_duplicates_non_consecutive_same_preview() {
    let groups = group_duplicates(&previews(&["Summary A", "Summary B", "Summary A"]));
    assert_eq!(groups.len(), 3);
}

#[test]
fn test_group_duplicates_empty_preview_not_grouped() {
    let groups = group_duplicates(&previews(&["", "", "Summary A"]));
    assert_eq!(groups.len(), 3);
}

#[test]
fn test_group_duplicates_empty_input() {
    let groups = group_duplicates(&Vec::new());
    assert_eq!(groups.len(), 0);
}

#[test]
fn group_duplicates_runs_and_empties() {
    let previews: Vec<String> = vec!["A".into(), "A".into(), "B".into(), "A".into(), "".into(), "".into()];
    assert_eq!(group_duplicates(&previews), vec![(0, 2), (2, 3), (3, 4), (4, 5), (5, 6)]);
}

#[test]
fn browse_bounds_never_overflow_past_the_end() {
    assert_eq!(browse_page_bounds(5, 1, usize::MAX), (0, 0, false));
    assert_eq!(browse_page_bounds(10, 0, usize::MAX), (0, 10, false));
    assert_eq!(browse_page_bounds(10, 3, 3), (9, 10, false));
}
