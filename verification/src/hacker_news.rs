use vstd::prelude::*;
use crate::text::{to_chars, from_chars, trim, trim_chars, contains, str_contains, extend_chars,
    extend_str, is_blank, seqs};
use crate::split::{lines, lines_of, words, split_whitespace};
use crate::strops::{replace_all, replace_str};
use crate::num::{dec, push_dec, idec, push_idec};
use crate::pattern::{replaced_or_kept, replace_matches};
use crate::vtt_parser::join_lines;
use crate::transcript::join_spaces;

verus! {

// ---------------------------------------------------------------------
// HTML to text
// ---------------------------------------------------------------------

/// The eight HTML entities decoded, in this order of replacement.
pub open spec fn entities_decoded(s: Seq<char>) -> Seq<char> {
    let a = replace_all(s, "&amp;"@, "&"@);
    let b = replace_all(a, "&lt;"@, "<"@);
    let c = replace_all(b, "&gt;"@, ">"@);
    let d = replace_all(c, "&quot;"@, "\""@);
    let e = replace_all(d, "&#x27;"@, "'"@);
    let f = replace_all(e, "&#39;"@, "'"@);
    let g = replace_all(f, "&nbsp;"@, " "@);
    replace_all(g, "&apos;"@, "'"@)
}

/// Decodes the common HTML entities.
pub fn decode_html_entities(input: &str) -> (r: String)
    ensures
        r@ == entities_decoded(input@),
{
    proof {
        reveal_strlit("&amp;");
        reveal_strlit("&lt;");
        reveal_strlit("&gt;");
        reveal_strlit("&quot;");
        reveal_strlit("&#x27;");
        reveal_strlit("&#39;");
        reveal_strlit("&nbsp;");
        reveal_strlit("&apos;");
    }
    let v = to_chars(input);
    let a = replace_str(v.as_slice(), "&amp;", "&");
    let b = replace_str(a.as_slice(), "&lt;", "<");
    let c = replace_str(b.as_slice(), "&gt;", ">");
    let d = replace_str(c.as_slice(), "&quot;", "\"");
    let e = replace_str(d.as_slice(), "&#x27;", "'");
    let f = replace_str(e.as_slice(), "&#39;", "'");
    let g = replace_str(f.as_slice(), "&nbsp;", " ");
    let h = replace_str(g.as_slice(), "&apos;", "'");
    from_chars(h.as_slice())
}

/// Blocks dropped whole: scripts, styles, headers, footers, navigation.
pub const SCRIPT_BLOCK: &'static str = "(?is)<script\\b[^>]*>.*?</script>";

pub const STYLE_BLOCK: &'static str = "(?is)<style\\b[^>]*>.*?</style>";

pub const HEADER_BLOCK: &'static str = "(?is)<header\\b[^>]*>.*?</header>";

pub const FOOTER_BLOCK: &'static str = "(?is)<footer\\b[^>]*>.*?</footer>";

pub const NAV_BLOCK: &'static str = "(?is)<nav\\b[^>]*>.*?</nav>";

pub const NOSCRIPT_BLOCK: &'static str = "(?is)<noscript\\b[^>]*>.*?</noscript>";

/// Block-level opening tags, which become line breaks.
pub const LINE_BREAK_TAGS: &'static str = "(?i)<(?:p|br|h[1-6]|li|div|tr)\\b[^>]*>";

/// A link: its target and its text.
pub const LINK_TAG: &'static str = "(?i)<a\\b[^>]*href=[\"']([^\"']+)[\"'][^>]*>(.*?)</a>";

/// Any remaining tag.
pub const ANY_TAG: &'static str = "<[^>]+>";

/// The markup removed: dropped blocks, line breaks for block tags, links as
/// `text (target)`, other tags stripped.
pub open spec fn markup_removed(html: Seq<char>) -> Seq<char> {
    let a = replaced_or_kept(SCRIPT_BLOCK@, html, ""@);
    let b = replaced_or_kept(STYLE_BLOCK@, a, ""@);
    let c = replaced_or_kept(HEADER_BLOCK@, b, ""@);
    let d = replaced_or_kept(FOOTER_BLOCK@, c, ""@);
    let e = replaced_or_kept(NAV_BLOCK@, d, ""@);
    let f = replaced_or_kept(NOSCRIPT_BLOCK@, e, ""@);
    let g = replaced_or_kept(LINE_BREAK_TAGS@, f, "\n"@);
    let h = replaced_or_kept(LINK_TAG@, g, "$2 ($1)"@);
    replaced_or_kept(ANY_TAG@, h, ""@)
}

/// Lines trimmed, runs of blank lines reduced to one: the scan's count of
/// blank lines in a row, and the lines kept.
pub open spec fn blank_scan(ls: Seq<Seq<char>>) -> (nat, Seq<Seq<char>>)
    decreases ls.len(),
{
    if ls.len() == 0 {
        (0, seq![])
    } else {
        let prev = blank_scan(ls.drop_last());
        let t = trim(ls.last());
        if t.len() == 0 {
            let n = prev.0 + 1;
            if n <= 1 {
                (n, prev.1.push(Seq::empty()))
            } else {
                (n, prev.1)
            }
        } else {
            (0, prev.1.push(t))
        }
    }
}

/// The plain text of an HTML fragment.
pub open spec fn html_text(html: Seq<char>) -> Seq<char> {
    join_lines(blank_scan(lines(entities_decoded(markup_removed(html)))).1)
}

/// The last step of cleaning, after the markup is removed and the entities
/// decoded: every line trimmed, and a run of blank lines kept as one.
pub fn tidy_lines(text: &[char]) -> (r: Vec<char>)
    ensures
        r@ == join_lines(blank_scan(lines(text@)).1),
{
    let ls = lines_of(text);
    let ghost sl = seqs(ls@);
    let mut kept: Vec<Vec<char>> = Vec::new();
    let mut empty_count: usize = 0;
    let mut i: usize = 0;
    assert(sl.take(0) =~= Seq::<Seq<char>>::empty());
    assert(seqs(kept@) =~= Seq::<Seq<char>>::empty());
    while i < ls.len()
        invariant
            i <= ls@.len(),
            sl == seqs(ls@),
            empty_count <= i,
            blank_scan(sl.take(i as int)) == (empty_count as nat, seqs(kept@)),
        decreases ls@.len() - i,
    {
        let ghost t = sl.take(i + 1);
        assert(t.drop_last() == sl.take(i as int));
        assert(t.last() == ls@[i as int]@);
        let ghost before = seqs(kept@);
        let tr = trim_chars(ls[i].as_slice());
        if tr.len() == 0 {
            empty_count = empty_count + 1;
            if empty_count <= 1 {
                kept.push(Vec::new());
                assert(seqs(kept@) =~= before.push(Seq::empty()));
            }
        } else {
            empty_count = 0;
            let ghost tv = tr@;
            kept.push(tr);
            assert(seqs(kept@) =~= before.push(tv));
        }
        i = i + 1;
    }
    assert(sl.take(ls@.len() as int) == sl);
    let ghost sk = seqs(kept@);
    let mut out: Vec<char> = Vec::new();
    let mut j: usize = 0;
    assert(sk.take(0) =~= Seq::<Seq<char>>::empty());
    while j < kept.len()
        invariant
            j <= kept@.len(),
            sk == seqs(kept@),
            out@ == join_lines(sk.take(j as int)),
        decreases kept@.len() - j,
    {
        let ghost t = sk.take(j + 1);
        assert(t.drop_last() == sk.take(j as int));
        assert(t.last() == kept@[j as int]@);
        if j > 0 {
            out.push('\n');
        }
        extend_chars(&mut out, kept[j].as_slice());
        proof {
            if j == 0 {
                assert(t =~= seq![kept@[0]@]);
            }
        }
        assert(out@ =~= join_lines(t));
        j = j + 1;
    }
    assert(sk.take(kept@.len() as int) == sk);
    out
}

/// Strips HTML tags, turns block elements into line breaks and links into
/// `text (target)`, decodes entities, trims lines and keeps at most one blank
/// line in a row.
pub fn clean_html_to_text(html: &str) -> (r: String)
    ensures
        r@ == html_text(html@),
{
    let a = replace_matches(SCRIPT_BLOCK, html, "");
    let b = replace_matches(STYLE_BLOCK, a.as_str(), "");
    let c = replace_matches(HEADER_BLOCK, b.as_str(), "");
    let d = replace_matches(FOOTER_BLOCK, c.as_str(), "");
    let e = replace_matches(NAV_BLOCK, d.as_str(), "");
    let f = replace_matches(NOSCRIPT_BLOCK, e.as_str(), "");
    let g = replace_matches(LINE_BREAK_TAGS, f.as_str(), "\n");
    let h = replace_matches(LINK_TAG, g.as_str(), "$2 ($1)");
    let stripped = replace_matches(ANY_TAG, h.as_str(), "");
    let decoded = decode_html_entities(stripped.as_str());
    let dv = to_chars(decoded.as_str());
    let out = tidy_lines(dv.as_slice());
    from_chars(out.as_slice())
}

// ---------------------------------------------------------------------
// Stories and their articles
// ---------------------------------------------------------------------

/// A Hacker News item as the API describes it.
#[derive(Debug)]
pub struct HnItem {
    pub id: u64,
    pub title: Option<String>,
    pub url: Option<String>,
    pub text: Option<String>,
    pub by: Option<String>,
    pub score: Option<i64>,
    pub kids: Option<Vec<u64>>,
    pub item_type: Option<String>,
}

/// What became of a story's linked article.
#[derive(Debug)]
pub enum ArticleOutcome {
    /// Downloaded; its text.
    Fetched(String),
    /// The download failed; why.
    Failed(String),
    /// No external link (or one back to Hacker News itself).
    NotFetched,
}

/// A fetched submission: the story, its article, its discussion, and the text
/// that is summarized.
#[derive(Debug)]
pub struct HnFetchResult {
    pub story_id: u64,
    pub title: String,
    pub hn_url: String,
    pub article_url: Option<String>,
    pub article_text: Option<String>,
    pub article_fetch_failed: bool,
    pub article_fetch_error: Option<String>,
    pub discussion_text: String,
    pub combined_text: String,
}

pub open spec fn opt_string(o: Option<String>) -> Option<Seq<char>> {
    match o {
        Some(s) => Some(s@),
        None => None,
    }
}

/// The API address of an item.
pub open spec fn api_item_url(id: u64) -> Seq<char> {
    "https://hacker-news.firebaseio.com/v0/item/"@ + dec(id as nat) + ".json"@
}

pub fn hn_api_item_url(id: u64) -> (r: String)
    ensures
        r@ == api_item_url(id),
{
    let mut v = to_chars("https://hacker-news.firebaseio.com/v0/item/");
    push_dec(&mut v, id);
    extend_str(&mut v, ".json");
    from_chars(v.as_slice())
}

/// The discussion page of a story.
pub open spec fn discussion_url(id: u64) -> Seq<char> {
    "https://news.ycombinator.com/item?id="@ + dec(id as nat)
}

pub fn hn_discussion_url(id: u64) -> (r: String)
    ensures
        r@ == discussion_url(id),
{
    let mut v = to_chars("https://news.ycombinator.com/item?id=");
    push_dec(&mut v, id);
    from_chars(v.as_slice())
}

/// A story's title, or `HN Item <id>` when it has none.
pub open spec fn title_of(title: Option<Seq<char>>, id: u64) -> Seq<char> {
    match title {
        Some(t) => t,
        None => "HN Item "@ + dec(id as nat),
    }
}

/// The title of the story requested as `story_id`, or `HN Item <story_id>`
/// when the fetched item has none.
pub fn story_title(item: &HnItem, story_id: u64) -> (r: String)
    ensures
        r@ == title_of(opt_string(item.title), story_id),
{
    match &item.title {
        Some(t) => {
            let v = to_chars(t.as_str());
            from_chars(v.as_slice())
        },
        None => {
            let mut v = to_chars("HN Item ");
            push_dec(&mut v, story_id);
            from_chars(v.as_slice())
        },
    }
}

/// Whether a story's link leads to an article worth downloading: any link
/// that does not point back to Hacker News.
pub open spec fn fetches_article(url: Option<Seq<char>>) -> bool {
    match url {
        Some(u) => !contains(u, "news.ycombinator.com"@),
        None => false,
    }
}

pub fn article_to_fetch(url: &Option<String>) -> (r: bool)
    ensures
        r == fetches_article(opt_string(*url)),
{
    match url {
        Some(u) => {
            let v = to_chars(u.as_str());
            !str_contains(v.as_slice(), "news.ycombinator.com")
        },
        None => false,
    }
}

/// The text of a downloaded article page: its plain text, cut to the first
/// 25,000 words (joined by single spaces); an error when it has no text.
pub open spec fn article_text_of(html: Seq<char>) -> Result<Seq<char>, Seq<char>> {
    let c = html_text(html);
    if trim(c).len() == 0 {
        Err("Extracted text content was empty"@)
    } else {
        let ws = words(c);
        Ok(join_spaces(if ws.len() > 25000 { ws.take(25000) } else { ws }))
    }
}

pub fn article_text_from_html(html: &str) -> (r: Result<String, String>)
    ensures
        match r {
            Ok(s) => article_text_of(html@) == Ok::<Seq<char>, Seq<char>>(s@),
            Err(e) => article_text_of(html@) == Err::<Seq<char>, Seq<char>>(e@),
        },
{
    let c = clean_html_to_text(html);
    let cv = to_chars(c.as_str());
    if is_blank(cv.as_slice()) {
        let m = to_chars("Extracted text content was empty");
        return Err(from_chars(m.as_slice()));
    }
    let ws = split_whitespace(cv.as_slice());
    let ghost sw = seqs(ws@);
    let n: usize = if ws.len() > 25000 {
        25000
    } else {
        ws.len()
    };
    let ghost kept = if sw.len() > 25000 {
        sw.take(25000)
    } else {
        sw
    };
    assert(sw.len() == ws@.len());
    let mut out: Vec<char> = Vec::new();
    let mut i: usize = 0;
    assert(kept.take(0) =~= Seq::<Seq<char>>::empty());
    while i < n
        invariant
            i <= n <= ws@.len(),
            sw == seqs(ws@),
            kept.len() == n,
            forall|k: int| 0 <= k < n ==> kept[k] == #[trigger] sw[k],
            out@ == join_spaces(kept.take(i as int)),
        decreases n - i,
    {
        let ghost t = kept.take(i + 1);
        assert(t.drop_last() == kept.take(i as int));
        assert(kept[i as int] == sw[i as int]);
        assert(sw[i as int] == ws@[i as int]@);
        assert(t.last() == ws@[i as int]@);
        if i > 0 {
            out.push(' ');
        }
        extend_chars(&mut out, ws[i].as_slice());
        assert(out@ =~= join_spaces(t));
        i = i + 1;
    }
    assert(kept.take(n as int) == kept);
    Ok(from_chars(out.as_slice()))
}

/// The text handed to the model for a submission: a header with the title,
/// links, author and points; the submission's own text; the article (or why
/// there is none); text the user pasted; and the discussion.
pub open spec fn header_section(title: Seq<char>, hn_url: Seq<char>, article_url: Option<Seq<char>>) -> Seq<char> {
    let link = match article_url {
        Some(u) => "Article Link: "@ + u + "\n"@,
        None => Seq::empty(),
    };
    "=== HACKER NEWS SUBMISSION ===\n"@ + "Title: "@ + title + "\n"@ + "HN Link: "@ + hn_url + "\n"@
        + link
}

pub open spec fn byline_section(author: Seq<char>, score: int) -> Seq<char> {
    "Author: "@ + author + " | Points: "@ + idec(score) + "\n\n"@
}

pub open spec fn own_text_section(self_text: Option<Seq<char>>) -> Seq<char> {
    match self_text {
        Some(t) => if html_text(t).len() > 0 {
            "--- Submission Text ---\n"@ + html_text(t) + "\n\n"@
        } else {
            Seq::empty()
        },
        None => Seq::empty(),
    }
}

pub open spec fn article_section(article: ArticleOutcome) -> Seq<char> {
    "=== ARTICLE CONTENT ===\n"@ + match article {
        ArticleOutcome::Fetched(t) => t@ + "\n\n"@,
        ArticleOutcome::Failed(e) => "[Note: External article could not be downloaded via HTTP ("@
            + e@ + ")].\n\n"@,
        ArticleOutcome::NotFetched => "[No external article link for this submission].\n\n"@,
    }
}

pub open spec fn pasted_section(pasted: Option<Seq<char>>) -> Seq<char> {
    match pasted {
        Some(p) => if trim(p).len() > 0 {
            "=== USER PASTED ARTICLE CONTENT ===\n"@ + trim(p) + "\n\n"@
        } else {
            Seq::empty()
        },
        None => Seq::empty(),
    }
}

pub open spec fn discussion_section(discussion: Seq<char>) -> Seq<char> {
    "=== HACKER NEWS DISCUSSION (COMMENTS) ===\n"@ + if discussion.len() == 0 {
        "(No comments found on this post)\n"@
    } else {
        discussion
    }
}

/// The text handed to the model for a submission: a header with the title,
/// links, author and points; the submission's own text; the article (or why
/// there is none); text the user pasted; and the discussion.
pub open spec fn submission_text(
    title: Seq<char>,
    hn_url: Seq<char>,
    article_url: Option<Seq<char>>,
    author: Seq<char>,
    score: int,
    self_text: Option<Seq<char>>,
    article: ArticleOutcome,
    pasted: Option<Seq<char>>,
    discussion: Seq<char>,
) -> Seq<char> {
    header_section(title, hn_url, article_url) + byline_section(author, score) + own_text_section(
        self_text,
    ) + article_section(article) + pasted_section(pasted) + discussion_section(discussion)
}

pub open spec fn author_of(by: Option<Seq<char>>) -> Seq<char> {
    match by {
        Some(a) => a,
        None => "anonymous"@,
    }
}

pub open spec fn score_of(score: Option<i64>) -> int {
    match score {
        Some(s) => s as int,
        None => 0,
    }
}

pub open spec fn pasted_view(p: Option<&str>) -> Option<Seq<char>> {
    match p {
        Some(s) => Some(s@),
        None => None,
    }
}

fn copy_opt(o: &Option<String>) -> (r: Option<String>)
    ensures
        opt_string(r) == opt_string(*o),
{
    match o {
        Some(s) => {
            let v = to_chars(s.as_str());
            Some(from_chars(v.as_slice()))
        },
        None => None,
    }
}

fn header_part(title: &str, hn_url: &str, article_url: &Option<String>) -> (v: Vec<char>)
    ensures
        v@ == header_section(title@, hn_url@, opt_string(*article_url)),
{
    let mut v = to_chars("=== HACKER NEWS SUBMISSION ===\n");
    extend_str(&mut v, "Title: ");
    extend_str(&mut v, title);
    extend_str(&mut v, "\n");
    extend_str(&mut v, "HN Link: ");
    extend_str(&mut v, hn_url);
    extend_str(&mut v, "\n");
    if let Some(u) = article_url {
        extend_str(&mut v, "Article Link: ");
        extend_str(&mut v, u.as_str());
        extend_str(&mut v, "\n");
    }
    assert(v@ =~= header_section(title@, hn_url@, opt_string(*article_url)));
    v
}

fn byline_part(by: &Option<String>, score: Option<i64>) -> (v: Vec<char>)
    ensures
        v@ == byline_section(author_of(opt_string(*by)), score_of(score)),
{
    let mut v = to_chars("Author: ");
    match by {
        Some(a) => extend_str(&mut v, a.as_str()),
        None => extend_str(&mut v, "anonymous"),
    }
    extend_str(&mut v, " | Points: ");
    let n: i64 = match score {
        Some(s) => s,
        None => 0,
    };
    push_idec(&mut v, n);
    extend_str(&mut v, "\n\n");
    assert(v@ =~= byline_section(author_of(opt_string(*by)), score_of(score)));
    v
}

fn own_text_part(text: &Option<String>) -> (v: Vec<char>)
    ensures
        v@ == own_text_section(opt_string(*text)),
{
    let mut v: Vec<char> = Vec::new();
    if let Some(t) = text {
        let clean = clean_html_to_text(t.as_str());
        let cv = to_chars(clean.as_str());
        if cv.len() > 0 {
            extend_str(&mut v, "--- Submission Text ---\n");
            extend_chars(&mut v, cv.as_slice());
            extend_str(&mut v, "\n\n");
        }
    }
    assert(v@ =~= own_text_section(opt_string(*text)));
    v
}

fn article_part(article: &ArticleOutcome) -> (v: Vec<char>)
    ensures
        v@ == article_section(*article),
{
    let mut v = to_chars("=== ARTICLE CONTENT ===\n");
    match article {
        ArticleOutcome::Fetched(t) => {
            extend_str(&mut v, t.as_str());
            extend_str(&mut v, "\n\n");
        },
        ArticleOutcome::Failed(e) => {
            extend_str(&mut v, "[Note: External article could not be downloaded via HTTP (");
            extend_str(&mut v, e.as_str());
            extend_str(&mut v, ")].\n\n");
        },
        ArticleOutcome::NotFetched => {
            extend_str(&mut v, "[No external article link for this submission].\n\n");
        },
    }
    assert(v@ =~= article_section(*article));
    v
}

fn pasted_part(pasted: Option<&str>) -> (v: Vec<char>)
    ensures
        v@ == pasted_section(pasted_view(pasted)),
{
    let mut v: Vec<char> = Vec::new();
    if let Some(p) = pasted {
        let pv = to_chars(p);
        let tr = trim_chars(pv.as_slice());
        if tr.len() > 0 {
            extend_str(&mut v, "=== USER PASTED ARTICLE CONTENT ===\n");
            extend_chars(&mut v, tr.as_slice());
            extend_str(&mut v, "\n\n");
        }
    }
    assert(v@ =~= pasted_section(pasted_view(pasted)));
    v
}

fn discussion_part(discussion: &str) -> (v: Vec<char>)
    ensures
        v@ == discussion_section(discussion@),
{
    let mut v = to_chars("=== HACKER NEWS DISCUSSION (COMMENTS) ===\n");
    let dv = to_chars(discussion);
    if dv.len() == 0 {
        extend_str(&mut v, "(No comments found on this post)\n");
    } else {
        extend_chars(&mut v, dv.as_slice());
    }
    v
}

/// Puts together the submission requested as `story_id` from its fetched
/// item: the id, the discussion link and the fallback title are the
/// requested id's.
pub fn assemble_submission(
    story_id: u64,
    item: &HnItem,
    article: ArticleOutcome,
    user_pasted_content: Option<&str>,
    discussion_text: String,
) -> (r: HnFetchResult)
    ensures
        r.story_id == story_id,
        r.title@ == title_of(opt_string(item.title), story_id),
        r.hn_url@ == discussion_url(story_id),
        opt_string(r.article_url) == opt_string(item.url),
        opt_string(r.article_text) == match article {
            ArticleOutcome::Fetched(t) => Some(t@),
            _ => None,
        },
        r.article_fetch_failed == article is Failed,
        opt_string(r.article_fetch_error) == match article {
            ArticleOutcome::Failed(e) => Some(e@),
            _ => None,
        },
        r.discussion_text@ == discussion_text@,
        r.combined_text@ == submission_text(
            title_of(opt_string(item.title), story_id),
            discussion_url(story_id),
            opt_string(item.url),
            author_of(opt_string(item.by)),
            score_of(item.score),
            opt_string(item.text),
            article,
            pasted_view(user_pasted_content),
            discussion_text@,
        ),
{
    let title = story_title(item, story_id);
    let hn_url = hn_discussion_url(story_id);
    let mut v = header_part(title.as_str(), hn_url.as_str(), &item.url);
    let b = byline_part(&item.by, item.score);
    extend_chars(&mut v, b.as_slice());
    let o = own_text_part(&item.text);
    extend_chars(&mut v, o.as_slice());
    let a = article_part(&article);
    extend_chars(&mut v, a.as_slice());
    let p = pasted_part(user_pasted_content);
    extend_chars(&mut v, p.as_slice());
    let d = discussion_part(discussion_text.as_str());
    extend_chars(&mut v, d.as_slice());
    let ghost art_view = article;
    let (article_text, article_error, failed) = match article {
        ArticleOutcome::Fetched(t) => (Some(t), None, false),
        ArticleOutcome::Failed(e) => (None, Some(e), true),
        ArticleOutcome::NotFetched => (None, None, false),
    };
    HnFetchResult {
        story_id,
        title,
        hn_url,
        article_url: copy_opt(&item.url),
        article_text,
        article_fetch_failed: failed,
        article_fetch_error: article_error,
        discussion_text,
        combined_text: from_chars(v.as_slice()),
    }
}

// ---------------------------------------------------------------------
// The discussion
// ---------------------------------------------------------------------

/// Most comments gathered from a discussion.
pub const MAX_COMMENTS: usize = 80;

/// Deepest reply level gathered.
pub const MAX_COMMENT_DEPTH: usize = 4;

/// Two spaces per reply level.
pub open spec fn indent(depth: nat) -> Seq<char>
    decreases depth,
{
    if depth == 0 {
        Seq::empty()
    } else {
        indent((depth - 1) as nat) + "  "@
    }
}

pub open spec fn indented_lines(ind: Seq<char>, ls: Seq<Seq<char>>) -> Seq<char>
    decreases ls.len(),
{
    if ls.len() == 0 {
        Seq::empty()
    } else {
        indented_lines(ind, ls.drop_last()) + ind + "  "@ + ls.last() + "\n"@
    }
}

/// How one comment appears in the discussion text: a line naming it and its
/// author, its lines indented one step further, and a blank line.
pub open spec fn comment_block(id: u64, depth: nat, author: Seq<char>, text: Seq<char>) -> Seq<char> {
    indent(depth) + "["@ + dec(id as nat) + "] (by "@ + author + "):\n"@ + indented_lines(
        indent(depth),
        lines(text),
    ) + "\n"@
}

/// A comment is fetched while fewer than 80 have been gathered and it is at
/// most four replies deep.
pub open spec fn eligible(fetched: nat, depth: nat) -> bool {
    fetched < 80 && depth <= 4
}

fn push_indent(v: &mut Vec<char>, depth: usize)
    ensures
        final(v)@ == old(v)@ + indent(depth as nat),
{
    let mut k: usize = 0;
    while k < depth
        invariant
            k <= depth,
            v@ == old(v)@ + indent(k as nat),
        decreases depth - k,
    {
        extend_str(v, "  ");
        k = k + 1;
        assert(v@ =~= old(v)@ + indent(k as nat));
    }
}

fn comment_block_exec(id: u64, depth: usize, author: &str, text: &[char]) -> (v: Vec<char>)
    ensures
        v@ == comment_block(id, depth as nat, author@, text@),
{
    let mut ind: Vec<char> = Vec::new();
    push_indent(&mut ind, depth);
    assert(ind@ =~= indent(depth as nat));
    let mut v: Vec<char> = Vec::new();
    extend_chars(&mut v, ind.as_slice());
    extend_str(&mut v, "[");
    push_dec(&mut v, id);
    extend_str(&mut v, "] (by ");
    extend_str(&mut v, author);
    extend_str(&mut v, "):\n");
    let ghost head = v@;
    let ls = lines_of(text);
    let ghost sl = seqs(ls@);
    let mut body: Vec<char> = Vec::new();
    let mut i: usize = 0;
    assert(sl.take(0) =~= Seq::<Seq<char>>::empty());
    while i < ls.len()
        invariant
            i <= ls@.len(),
            sl == seqs(ls@),
            ind@ == indent(depth as nat),
            body@ == indented_lines(ind@, sl.take(i as int)),
        decreases ls@.len() - i,
    {
        let ghost t = sl.take(i + 1);
        assert(t.drop_last() == sl.take(i as int));
        assert(t.last() == ls@[i as int]@);
        extend_chars(&mut body, ind.as_slice());
        extend_str(&mut body, "  ");
        extend_chars(&mut body, ls[i].as_slice());
        extend_str(&mut body, "\n");
        assert(body@ =~= indented_lines(ind@, t));
        i = i + 1;
    }
    assert(sl.take(ls@.len() as int) == sl);
    extend_chars(&mut v, body.as_slice());
    extend_str(&mut v, "\n");
    assert(v@ =~= comment_block(id, depth as nat, author@, text@));
    v
}

/// The breadth-first walk over a story's comment tree.
pub struct CommentWalk {
    pending: Vec<(u64, usize)>,
    next: usize,
    fetched: usize,
    text: Vec<char>,
}

impl CommentWalk {
    /// Comments queued so far, with their reply depth, in visiting order.
    pub closed spec fn pending(&self) -> Seq<(u64, usize)> {
        self.pending@
    }

    /// How many queued comments have been visited.
    pub closed spec fn visited(&self) -> nat {
        self.next as nat
    }

    /// Comments gathered.
    pub closed spec fn fetched(&self) -> nat {
        self.fetched as nat
    }

    /// The discussion text gathered.
    pub closed spec fn text(&self) -> Seq<char> {
        self.text@
    }

    /// The walk never visits past its queue and gathers at most 80 comments.
    #[verifier::type_invariant]
    closed spec fn walk_invariant(&self) -> bool {
        &&& self.next <= self.pending@.len()
        &&& self.fetched <= 80
    }

    /// Whether a comment at `depth` may be recorded now.
    pub fn accepts(&self, depth: usize) -> (r: bool)
        ensures
            r == eligible(self.fetched(), depth as nat),
    {
        self.fetched < MAX_COMMENTS && depth <= MAX_COMMENT_DEPTH
    }

    /// Starts at the story's top-level comments.
    pub fn new(kids: &Vec<u64>) -> (r: Self)
        ensures
            r.pending() == kids@.map_values(|k: u64| (k, 0usize)),
            r.visited() == 0,
            r.fetched() == 0,
            r.text() == Seq::<char>::empty(),
    {
        let mut pending: Vec<(u64, usize)> = Vec::new();
        let mut i: usize = 0;
        while i < kids.len()
            invariant
                i <= kids@.len(),
                pending@ == kids@.map_values(|k: u64| (k, 0usize)).take(i as int),
            decreases kids@.len() - i,
        {
            pending.push((kids[i], 0));
            assert(pending@ =~= kids@.map_values(|k: u64| (k, 0usize)).take(i + 1));
            i = i + 1;
        }
        assert(kids@.map_values(|k: u64| (k, 0usize)).take(kids@.len() as int)
            == kids@.map_values(|k: u64| (k, 0usize)));
        CommentWalk { pending, next: 0, fetched: 0, text: Vec::new() }
    }

    /// The next comment to fetch: the first queued one still eligible; the
    /// ones passed over are dropped.  `None` once the queue is used up.
    pub fn next_comment(&mut self) -> (r: Option<(u64, usize)>)
        ensures
            final(self).visited() <= final(self).pending().len(),
            final(self).fetched() <= 80,
            final(self).pending() == old(self).pending(),
            final(self).fetched() == old(self).fetched(),
            final(self).text() == old(self).text(),
            final(self).visited() >= old(self).visited(),
            forall|j: int|
                old(self).visited() <= j < final(self).visited() - (if r is Some {
                    1int
                } else {
                    0int
                }) ==> !eligible(old(self).fetched(), (#[trigger] old(self).pending()[j]).1 as nat),
            r is None ==> final(self).visited() == old(self).pending().len(),
            r matches Some(c) ==> {
                &&& final(self).visited() > old(self).visited()
                &&& c == old(self).pending()[final(self).visited() - 1]
                &&& eligible(old(self).fetched(), c.1 as nat)
            },
    {
        proof {
            use_type_invariant(&*self);
        }
        while self.next < self.pending.len()
            invariant
                self.next <= self.pending@.len(),
                self.fetched <= 80,
                self.pending@ == old(self).pending@,
                self.fetched == old(self).fetched,
                self.text@ == old(self).text@,
                old(self).next <= self.next,
                forall|j: int|
                    old(self).next <= j < self.next ==> !eligible(
                        old(self).fetched as nat,
                        (#[trigger] old(self).pending@[j]).1 as nat,
                    ),
            decreases self.pending@.len() - self.next,
        {
            let c = self.pending[self.next];
            self.next = self.next + 1;
            if self.fetched < MAX_COMMENTS && c.1 <= MAX_COMMENT_DEPTH {
                return Some(c);
            }
        }
        None
    }

    /// Takes a fetched comment: its text (when non-empty once cleaned) goes
    /// into the discussion under its author, and its replies join the queue
    /// one level deeper.
    pub fn record(
        &mut self,
        id: u64,
        depth: usize,
        author: Option<&str>,
        text: Option<&str>,
        kids: &Vec<u64>,
    )
        requires
            eligible(old(self).fetched(), depth as nat),
        ensures
            final(self).visited() <= final(self).pending().len(),
            final(self).fetched() <= 80,
            final(self).visited() == old(self).visited(),
            final(self).pending() == old(self).pending() + kids@.map_values(
                |k: u64| (k, (depth + 1) as usize),
            ),
            match text {
                Some(t) => if html_text(t@).len() > 0 {
                    &&& final(self).text() == old(self).text() + comment_block(
                        id,
                        depth as nat,
                        author_of(pasted_view(author)),
                        html_text(t@),
                    )
                    &&& final(self).fetched() == old(self).fetched() + 1
                } else {
                    &&& final(self).text() == old(self).text()
                    &&& final(self).fetched() == old(self).fetched()
                },
                None => {
                    &&& final(self).text() == old(self).text()
                    &&& final(self).fetched() == old(self).fetched()
                },
            },
    {
        proof {
            use_type_invariant(&*self);
        }
        let mut taken = CommentWalk { pending: Vec::new(), next: 0, fetched: 0, text: Vec::new() };
        std::mem::swap(self, &mut taken);
        let CommentWalk { mut pending, next, mut fetched, text: mut gathered } = taken;
        if let Some(t) = text {
            let clean = clean_html_to_text(t);
            let cv = to_chars(clean.as_str());
            if cv.len() > 0 {
                let block = match author {
                    Some(a) => comment_block_exec(id, depth, a, cv.as_slice()),
                    None => comment_block_exec(id, depth, "anonymous", cv.as_slice()),
                };
                extend_chars(&mut gathered, block.as_slice());
                fetched = fetched + 1;
            }
        }
        let ghost before = pending@;
        let mut i: usize = 0;
        while i < kids.len()
            invariant
                i <= kids@.len(),
                depth <= 4,
                next <= before.len(),
                pending@ == before + kids@.map_values(|k: u64| (k, (depth + 1) as usize)).take(
                    i as int,
                ),
            decreases kids@.len() - i,
        {
            pending.push((kids[i], depth + 1));
            assert(pending@ =~= before + kids@.map_values(
                |k: u64| (k, (depth + 1) as usize),
            ).take(i + 1));
            i = i + 1;
        }
        assert(kids@.map_values(|k: u64| (k, (depth + 1) as usize)).take(kids@.len() as int)
            == kids@.map_values(|k: u64| (k, (depth + 1) as usize)));
        *self = CommentWalk { pending, next, fetched, text: gathered };
    }

    /// The discussion gathered so far.
    pub fn discussion(&self) -> (r: String)
        ensures
            r@ == self.text(),
    {
        from_chars(self.text.as_slice())
    }
}

} // verus!
