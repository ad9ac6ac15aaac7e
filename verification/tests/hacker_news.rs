use rs_summarizer::hacker_news::{article_text_from_html, article_to_fetch, assemble_submission,
    clean_html_to_text, decode_html_entities, hn_api_item_url, hn_discussion_url, story_title,
    tidy_lines, ArticleOutcome, CommentWalk, HnItem};

#[test]
fn test_clean_html_to_text_basic() {
    let html = "<p>Hello <b>World</b></p><p>Second paragraph</p>";
    let cleaned = clean_html_to_text(html);
    assert!(cleaned.contains("Hello World"));
    assert!(cleaned.contains("Second paragraph"));
}

#[test]
fn test_clean_html_to_text_links_and_entities() {
    let html = "<a href=\"https://example.com\">Example &amp; Link</a>";
    let cleaned = clean_html_to_text(html);
    assert_eq!(cleaned, "Example & Link (https://example.com)");
}

#[test]
fn entities_are_decoded_in_order() {
    assert_eq!(decode_html_entities("&lt;a&gt; &amp;amp; &#39;q&#x27; &quot;x&quot;&nbsp;&apos;"), "<a> &amp; 'q' \"x\" '");
}

#[test]
fn blank_lines_collapse_and_scripts_vanish() {
    let html = "<script>var x = 1;</script>line one<br><br><br>line two";
    assert_eq!(clean_html_to_text(html), "line one\n\nline two");
}

fn item(title: Option<&str>, url: Option<&str>, text: Option<&str>) -> HnItem {
    HnItem {
        id: 42,
        title: title.map(|s| s.to_string()),
        url: url.map(|s| s.to_string()),
        text: text.map(|s| s.to_string()),
        by: None,
        score: Some(7),
        kids: None,
        item_type: None,
    }
}

#[test]
fn story_links_and_titles() {
    assert_eq!(hn_api_item_url(42), "https://hacker-news.firebaseio.com/v0/item/42.json");
    assert_eq!(hn_discussion_url(42), "https://news.ycombinator.com/item?id=42");
    assert_eq!(story_title(&item(None, None, None), 42), "HN Item 42");
    assert_eq!(story_title(&item(Some("T"), None, None), 42), "T");
    assert!(article_to_fetch(&Some("https://example.com/a".to_string())));
    assert!(!article_to_fetch(&Some("https://news.ycombinator.com/item?id=1".to_string())));
    assert!(!article_to_fetch(&None));
}

#[test]
fn submission_text_has_every_section() {
    let it = item(Some("Title"), Some("https://example.com/a"), Some("<p>Self &amp; text</p>"));
    let r = assemble_submission(42, &it, ArticleOutcome::Failed("HTTP status 404".to_string()), Some("  pasted  "), String::new());
    assert_eq!(
        r.combined_text,
        "=== HACKER NEWS SUBMISSION ===\nTitle: Title\nHN Link: https://news.ycombinator.com/item?id=42\nArticle Link: https://example.com/a\nAuthor: anonymous | Points: 7\n\n--- Submission Text ---\n\nSelf & text\n\n=== ARTICLE CONTENT ===\n[Note: External article could not be downloaded via HTTP (HTTP status 404)].\n\n=== USER PASTED ARTICLE CONTENT ===\npasted\n\n=== HACKER NEWS DISCUSSION (COMMENTS) ===\n(No comments found on this post)\n"
    );
    assert!(r.article_fetch_failed);
    assert_eq!(r.article_fetch_error.as_deref(), Some("HTTP status 404"));
    let r = assemble_submission(42, &item(None, None, None), ArticleOutcome::NotFetched, None, "c\n".to_string());
    assert!(r.combined_text.contains("[No external article link for this submission].\n\n=== HACKER NEWS DISCUSSION (COMMENTS) ===\nc\n"));
}

#[test]
fn article_text_is_cut_to_words() {
    assert_eq!(article_text_from_html("<p>  </p>"), Err("Extracted text content was empty".to_string()));
    assert_eq!(article_text_from_html("<p>one\ntwo   three</p>"), Ok("one two three".to_string()));
    let long = "w ".repeat(25_010);
    let t = article_text_from_html(&long).unwrap();
    assert_eq!(t.split(' ').count(), 25_000);
}

#[test]
fn comment_walk_is_breadth_first_and_bounded() {
    let mut walk = CommentWalk::new(&vec![1, 2]);
    assert_eq!(walk.next_comment(), Some((1, 0)));
    walk.record(1, 0, Some("ann"), Some("<p>Hi</p>"), &vec![3]);
    assert_eq!(walk.next_comment(), Some((2, 0)));
    walk.record(2, 0, None, None, &vec![]);
    assert_eq!(walk.next_comment(), Some((3, 1)));
    walk.record(3, 1, Some("bob"), Some("a\nb"), &vec![]);
    assert_eq!(walk.next_comment(), None);
    assert_eq!(walk.discussion(), "[1] (by ann):\n  \n  Hi\n\n  [3] (by bob):\n    a\n    b\n\n");
}

#[test]
fn deep_comments_are_passed_over() {
    let mut walk = CommentWalk::new(&vec![1]);
    let mut depth = 0;
    while let Some((id, d)) = walk.next_comment() {
        assert!(walk.accepts(d));
        depth = d;
        walk.record(id, d, None, Some("x"), &vec![id + 1]);
    }
    assert_eq!(depth, 4);
    assert!(!walk.accepts(5));
}

#[test]
fn tidy_lines_trims_and_keeps_one_blank_line() {
    let text: Vec<char> = "  a  \n\n \n\t\nb\n".chars().collect();
    let out: String = tidy_lines(&text).into_iter().collect();
    assert_eq!(out, "a\n\nb");
}

#[test]
fn submission_carries_the_requested_id() {
    let r = assemble_submission(7, &item(None, None, None), ArticleOutcome::NotFetched, None, String::new());
    assert_eq!(r.story_id, 7);
    assert_eq!(r.hn_url, "https://news.ycombinator.com/item?id=7");
    assert_eq!(r.title, "HN Item 7");
    assert!(r.combined_text.contains("Title: HN Item 7\nHN Link: https://news.ycombinator.com/item?id=7\n"));
}
