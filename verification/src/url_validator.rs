use vstd::prelude::*;
use crate::text::{to_chars, from_chars, trim_range, slice_range, starts_with, occurs_at_exec,
    is_ws, char_is_ws, trim, lead_ws, trail_ws, extend_str, str_contains, contains};
use crate::num::{is_digit, digits_value, all_digits, dec, push_dec, digit_val};

verus! {

/// A character allowed in a YouTube video id: `[A-Za-z0-9_-]`.
pub open spec fn is_id_char(c: char) -> bool {
    ('A' <= c && c <= 'Z') || ('a' <= c && c <= 'z') || ('0' <= c && c <= '9') || c == '_'
        || c == '-'
}

/// Eleven id characters start at `i`.
pub open spec fn id_at(t: Seq<char>, i: int) -> bool {
    0 <= i && i + 11 <= t.len() && forall|k: int| i <= k < i + 11 ==> is_id_char(#[trigger] t[k])
}

/// The eleven characters at `i` are the whole id: the text ends after them
/// or goes on with a character that cannot be part of an id.
pub open spec fn id_ends(t: Seq<char>, i: int) -> bool {
    i + 11 == t.len() || !is_id_char(t[i + 11])
}

/// The id that follows the prefix `p`, when `t` starts with `p` and exactly
/// eleven id characters come next.
pub open spec fn id_after(t: Seq<char>, p: Seq<char>) -> Option<Seq<char>> {
    if starts_with(t, p) && id_at(t, p.len() as int) && id_ends(t, p.len() as int) {
        Some(t.subrange(p.len() as int, p.len() + 11int))
    } else {
        None
    }
}

pub open spec fn or_else<T>(a: Option<T>, b: Option<T>) -> Option<T> {
    if a is Some {
        a
    } else {
        b
    }
}

/// The video id recognised in the trimmed text `t`: the accepted URL forms
/// (watch, live, youtu.be and shorts, over https only, with the host variants
/// that each accepts), tried in this order, and then a bare eleven-character id.
pub open spec fn youtube_id_of_trimmed(t: Seq<char>) -> Option<Seq<char>> {
    or_else(
        id_after(t, "https://www.youtube.com/watch?v="@),
        or_else(
            id_after(t, "https://m.youtube.com/watch?v="@),
            or_else(
                id_after(t, "https://youtube.com/watch?v="@),
                or_else(
                    id_after(t, "https://www.youtube.com/live/"@),
                    or_else(
                        id_after(t, "https://m.youtube.com/live/"@),
                        or_else(
                            id_after(t, "https://youtube.com/live/"@),
                            or_else(
                                id_after(t, "https://www.youtu.be/"@),
                                or_else(
                                    id_after(t, "https://youtu.be/"@),
                                    or_else(
                                        id_after(t, "https://www.youtube.com/shorts/"@),
                                        or_else(
                                            id_after(t, "https://m.youtube.com/shorts/"@),
                                            or_else(
                                                id_after(t, "https://youtube.com/shorts/"@),
                                                if t.len() == 11 && id_at(t, 0) {
                                                    Some(t)
                                                } else {
                                                    None
                                                },
                                            ),
                                        ),
                                    ),
                                ),
                            ),
                        ),
                    ),
                ),
            ),
        ),
    )
}

/// The video id of a YouTube URL or bare id (surrounding whitespace ignored).
pub open spec fn youtube_id(url: Seq<char>) -> Option<Seq<char>> {
    youtube_id_of_trimmed(trim(url))
}

pub fn is_id_char_exec(c: char) -> (b: bool)
    ensures
        b == is_id_char(c),
{
    ('A' <= c && c <= 'Z') || ('a' <= c && c <= 'z') || ('0' <= c && c <= '9') || c == '_'
        || c == '-'
}

fn id_at_exec(t: &[char], i: usize) -> (b: bool)
    ensures
        b == id_at(t@, i as int),
{
    if i > t.len() || t.len() - i < 11 {
        return false;
    }
    let mut k: usize = i;
    while k < i + 11
        invariant
            i <= k <= i + 11,
            t@.len() == t.len(),
            i + 11 <= t@.len(),
            forall|m: int| i <= m < k ==> is_id_char(#[trigger] t@[m]),
        decreases i + 11 - k,
    {
        if !is_id_char_exec(t[k]) {
            return false;
        }
        k = k + 1;
    }
    true
}

fn id_after_exec(t: &[char], p: &str) -> (r: Option<Vec<char>>)
    ensures
        r is Some <==> id_after(t@, p@) is Some,
        r matches Some(v) ==> Some(v@) == id_after(t@, p@),
{
    let pv = to_chars(p);
    if occurs_at_exec(t, pv.as_slice(), 0) && id_at_exec(t, pv.len()) {
        assert(t@.len() == t.len());
        let end = pv.len() + 11;
        if end < t.len() && is_id_char_exec(t[end]) {
            return None;
        }
        Some(slice_range(t, pv.len(), end))
    } else {
        None
    }
}

fn youtube_id_of_trimmed_exec(t: &[char]) -> (r: Option<Vec<char>>)
    ensures
        r is Some <==> youtube_id_of_trimmed(t@) is Some,
        r matches Some(v) ==> Some(v@) == youtube_id_of_trimmed(t@),
{
    if let Some(v) = id_after_exec(t, "https://www.youtube.com/watch?v=") {
        return Some(v);
    }
    if let Some(v) = id_after_exec(t, "https://m.youtube.com/watch?v=") {
        return Some(v);
    }
    if let Some(v) = id_after_exec(t, "https://youtube.com/watch?v=") {
        return Some(v);
    }
    if let Some(v) = id_after_exec(t, "https://www.youtube.com/live/") {
        return Some(v);
    }
    if let Some(v) = id_after_exec(t, "https://m.youtube.com/live/") {
        return Some(v);
    }
    if let Some(v) = id_after_exec(t, "https://youtube.com/live/") {
        return Some(v);
    }
    if let Some(v) = id_after_exec(t, "https://www.youtu.be/") {
        return Some(v);
    }
    if let Some(v) = id_after_exec(t, "https://youtu.be/") {
        return Some(v);
    }
    if let Some(v) = id_after_exec(t, "https://www.youtube.com/shorts/") {
        return Some(v);
    }
    if let Some(v) = id_after_exec(t, "https://m.youtube.com/shorts/") {
        return Some(v);
    }
    if let Some(v) = id_after_exec(t, "https://youtube.com/shorts/") {
        return Some(v);
    }
    if t.len() == 11 && id_at_exec(t, 0) {
        let v = slice_range(t, 0, 11);
        assert(v@ == t@);
        return Some(v);
    }
    None
}

/// Validates the YouTube URL forms (watch, live, youtu.be, shorts; https only)
/// and bare ids, and extracts the video id, which must be exactly eleven id
/// characters.
pub fn validate_youtube_url(url: &str) -> (r: Option<String>)
    ensures
        r is Some <==> youtube_id(url@) is Some,
        r matches Some(id) ==> Some(id@) == youtube_id(url@),
{
    let v = to_chars(url);
    let (a, b) = trim_range(v.as_slice());
    let t = slice_range(v.as_slice(), a, b);
    match youtube_id_of_trimmed_exec(t.as_slice()) {
        Some(id) => Some(from_chars(id.as_slice())),
        None => None,
    }
}

pub open spec fn youtube_watch_prefix() -> Seq<char> {
    "https://www.youtube.com/watch?v="@
}

/// The canonical watch URL of a video id.
pub open spec fn youtube_canonical(id: Seq<char>) -> Seq<char> {
    youtube_watch_prefix() + id
}

/// Normalizes a YouTube URL or bare id to `https://www.youtube.com/watch?v=ID`.
pub fn normalize_youtube_url(url: &str) -> (r: Option<String>)
    ensures
        r is Some <==> youtube_id(url@) is Some,
        r matches Some(s) ==> s@ == youtube_canonical(youtube_id(url@)->0),
{
    match validate_youtube_url(url) {
        Some(id) => {
            let mut out: Vec<char> = Vec::new();
            extend_str(&mut out, "https://www.youtube.com/watch?v=");
            extend_str(&mut out, id.as_str());
            Some(from_chars(out.as_slice()))
        },
        None => None,
    }
}

/// A separator between the items of a multi-URL field: whitespace or a comma.
pub open spec fn is_url_sep(c: char) -> bool {
    is_ws(c) || c == ','
}

/// The maximal runs of non-separator characters, in order.
pub open spec fn url_items(s: Seq<char>) -> Seq<Seq<char>>
    decreases s.len(),
{
    if s.len() == 0 {
        seq![]
    } else {
        let prev = url_items(s.drop_last());
        let c = s.last();
        if is_url_sep(c) {
            prev
        } else if s.len() == 1 || is_url_sep(s[s.len() - 2]) {
            prev.push(seq![c])
        } else {
            prev.update(prev.len() - 1, prev.last().push(c))
        }
    }
}

/// Splits a field of URLs or ids separated by whitespace or commas; empty
/// items are dropped.
pub fn split_urls(input: &str) -> (r: Vec<String>)
    ensures
        r@.map_values(|s: String| s@) == url_items(input@),
{
    let v = to_chars(input);
    let mut r: Vec<String> = Vec::new();
    let mut cur: Vec<char> = Vec::new();
    let mut in_item = false;
    let mut i: usize = 0;
    assert(v@.take(0) == Seq::<char>::empty());
    assert(r@.map_values(|s: String| s@) =~= url_items(v@.take(0)));
    while i < v.len()
        invariant
            i <= v@.len(),
            v@ == input@,
            in_item == (i > 0 && !is_url_sep(v@[i - 1])),
            in_item ==> r@.map_values(|s: String| s@).push(cur@) == url_items(v@.take(i as int)),
            !in_item ==> r@.map_values(|s: String| s@) == url_items(v@.take(i as int)),
        decreases v@.len() - i,
    {
        let ghost t = v@.take(i + 1);
        assert(t.drop_last() == v@.take(i as int));
        assert(t.last() == v@[i as int]);
        if i > 0 {
            assert(t[t.len() - 2] == v@[i - 1]);
        }
        let ghost rb = r@.map_values(|s: String| s@);
        let c = v[i];
        if char_is_ws(c) || c == ',' {
            if in_item {
                let s = from_chars(cur.as_slice());
                r.push(s);
                assert(r@.map_values(|s: String| s@) =~= rb.push(cur@));
                cur = Vec::new();
            }
            in_item = false;
        } else {
            if in_item {
                cur.push(c);
                assert(r@.map_values(|s: String| s@).push(cur@) =~= url_items(t));
            } else {
                cur = Vec::new();
                cur.push(c);
                assert(r@.map_values(|s: String| s@).push(cur@) =~= url_items(t));
            }
            in_item = true;
        }
        i = i + 1;
    }
    if in_item {
        let ghost rb = r@.map_values(|s: String| s@);
        let s = from_chars(cur.as_slice());
        r.push(s);
        assert(r@.map_values(|s: String| s@) =~= rb.push(cur@));
    }
    assert(v@.take(v@.len() as int) == v@);
    r
}

// ---------------------------------------------------------------------
// Hacker News
// ---------------------------------------------------------------------

/// Number of consecutive ASCII digits of `t` starting at `i`.
pub open spec fn digit_run(t: Seq<char>, i: int) -> nat
    decreases t.len() - i,
{
    if 0 <= i < t.len() && is_digit(t[i]) {
        1 + digit_run(t, i + 1)
    } else {
        0
    }
}

/// The item id that follows the prefix `p`: a non-empty run of digits whose
/// value fits in a `u64`.
pub open spec fn item_after(t: Seq<char>, p: Seq<char>) -> Option<u64> {
    if starts_with(t, p) && digit_run(t, p.len() as int) > 0 {
        let v = digits_value(t.subrange(p.len() as int, (p.len() + digit_run(t, p.len() as int)) as int));
        if v <= u64::MAX {
            Some(v as u64)
        } else {
            None
        }
    } else {
        None
    }
}

/// The item id of `t`, for one of the six `item?id=` URL prefixes
/// (`http`, `https` or no scheme; `news.` or not).
pub open spec fn item_query_id(t: Seq<char>) -> Option<u64> {
    or_else(
        item_after(t, "https://news.ycombinator.com/item?id="@),
        or_else(
            item_after(t, "https://ycombinator.com/item?id="@),
            or_else(
                item_after(t, "http://news.ycombinator.com/item?id="@),
                or_else(
                    item_after(t, "http://ycombinator.com/item?id="@),
                    or_else(
                        item_after(t, "news.ycombinator.com/item?id="@),
                        item_after(t, "ycombinator.com/item?id="@),
                    ),
                ),
            ),
        ),
    )
}

/// The same, for the six `item/` URL prefixes.
pub open spec fn item_path_id(t: Seq<char>) -> Option<u64> {
    or_else(
        item_after(t, "https://news.ycombinator.com/item/"@),
        or_else(
            item_after(t, "https://ycombinator.com/item/"@),
            or_else(
                item_after(t, "http://news.ycombinator.com/item/"@),
                or_else(
                    item_after(t, "http://ycombinator.com/item/"@),
                    or_else(
                        item_after(t, "news.ycombinator.com/item/"@),
                        item_after(t, "ycombinator.com/item/"@),
                    ),
                ),
            ),
        ),
    )
}

/// The Hacker News item id recognised in the trimmed text `t`: an item URL
/// (query or path form), a bare `item?id=` reference, or a bare number of six
/// to ten digits.
pub open spec fn hn_id_of_trimmed(t: Seq<char>) -> Option<u64> {
    or_else(
        item_query_id(t),
        or_else(
            item_path_id(t),
            or_else(
                item_after(t, "item?id="@),
                if 6 <= t.len() <= 10 && all_digits(t) {
                    Some(digits_value(t) as u64)
                } else {
                    None
                },
            ),
        ),
    )
}

pub open spec fn hn_id(url: Seq<char>) -> Option<u64> {
    hn_id_of_trimmed(trim(url))
}

fn digit_run_exec(t: &[char], i: usize) -> (n: usize)
    requires
        i <= t@.len(),
    ensures
        n == digit_run(t@, i as int),
        i + n <= t@.len(),
        all_digits(t@.subrange(i as int, i + n)),
{
    let mut j: usize = t.len();
    // scan from i
    let mut k: usize = i;
    while k < t.len() && '0' <= t[k] && t[k] <= '9'
        invariant
            i <= k <= t@.len(),
            forall|m: int| i <= m < k ==> is_digit(#[trigger] t@[m]),
        decreases t@.len() - k,
    {
        k = k + 1;
    }
    proof {
        lemma_digit_run(t@, i as int, k as int);
        assert forall|m: int| 0 <= m < k - i implies is_digit(
            #[trigger] t@.subrange(i as int, k as int)[m],
        ) by {
            assert(t@.subrange(i as int, k as int)[m] == t@[i + m]);
        }
    }
    k - i
}

proof fn lemma_digit_run(t: Seq<char>, i: int, k: int)
    requires
        0 <= i <= k <= t.len(),
        forall|m: int| i <= m < k ==> is_digit(#[trigger] t[m]),
        k == t.len() || !is_digit(t[k]),
    ensures
        digit_run(t, i) == k - i,
    decreases k - i,
{
    if i < k {
        lemma_digit_run(t, i + 1, k);
    }
}

fn digits_value_exec(s: &[char]) -> (r: Option<u64>)
    requires
        all_digits(s@),
    ensures
        r matches Some(v) ==> v == digits_value(s@),
        r is None ==> digits_value(s@) > u64::MAX,
{
    let mut acc: u64 = 0;
    let mut i: usize = 0;
    assert(s@.take(0) == Seq::<char>::empty());
    while i < s.len()
        invariant
            i <= s@.len(),
            all_digits(s@),
            acc as nat == digits_value(s@.take(i as int)),
        decreases s@.len() - i,
    {
        let c = s[i];
        assert(crate::num::is_digit(s@[i as int]));
        let d = (c as u32 - '0' as u32) as u64;
        assert(s@.take(i + 1).drop_last() == s@.take(i as int));
        if acc > (u64::MAX - d) / 10 {
            proof {
                assert(acc * 10 + d > u64::MAX) by (nonlinear_arith)
                    requires
                        acc > (u64::MAX - d) / 10,
                        d <= 9,
                ;
                crate::num::lemma_digits_value_mono(s@, i + 1);
            }
            return None;
        }
        acc = acc * 10 + d;
        i = i + 1;
    }
    assert(s@.take(s@.len() as int) == s@);
    Some(acc)
}

fn item_after_exec(t: &[char], p: &str) -> (r: Option<u64>)
    ensures
        r == item_after(t@, p@),
{
    let pv = to_chars(p);
    if !occurs_at_exec(t, pv.as_slice(), 0) {
        return None;
    }
    let n = digit_run_exec(t, pv.len());
    if n == 0 {
        return None;
    }
    assert(t@.len() == t.len());
    let d = slice_range(t, pv.len(), pv.len() + n);
    digits_value_exec(d.as_slice())
}

fn hn_id_of_trimmed_exec(t: &[char]) -> (r: Option<u64>)
    ensures
        r == hn_id_of_trimmed(t@),
{
    let ps: [&str; 13] = [
        "https://news.ycombinator.com/item?id=",
        "https://ycombinator.com/item?id=",
        "http://news.ycombinator.com/item?id=",
        "http://ycombinator.com/item?id=",
        "news.ycombinator.com/item?id=",
        "ycombinator.com/item?id=",
        "https://news.ycombinator.com/item/",
        "https://ycombinator.com/item/",
        "http://news.ycombinator.com/item/",
        "http://ycombinator.com/item/",
        "news.ycombinator.com/item/",
        "ycombinator.com/item/",
        "item?id=",
    ];
    if let Some(v) = item_after_exec(t, ps[0]) {
        return Some(v);
    }
    if let Some(v) = item_after_exec(t, ps[1]) {
        return Some(v);
    }
    if let Some(v) = item_after_exec(t, ps[2]) {
        return Some(v);
    }
    if let Some(v) = item_after_exec(t, ps[3]) {
        return Some(v);
    }
    if let Some(v) = item_after_exec(t, ps[4]) {
        return Some(v);
    }
    if let Some(v) = item_after_exec(t, ps[5]) {
        return Some(v);
    }
    if let Some(v) = item_after_exec(t, ps[6]) {
        return Some(v);
    }
    if let Some(v) = item_after_exec(t, ps[7]) {
        return Some(v);
    }
    if let Some(v) = item_after_exec(t, ps[8]) {
        return Some(v);
    }
    if let Some(v) = item_after_exec(t, ps[9]) {
        return Some(v);
    }
    if let Some(v) = item_after_exec(t, ps[10]) {
        return Some(v);
    }
    if let Some(v) = item_after_exec(t, ps[11]) {
        return Some(v);
    }
    if let Some(v) = item_after_exec(t, ps[12]) {
        return Some(v);
    }
    if 6 <= t.len() && t.len() <= 10 {
        let n = digit_run_exec(t, 0);
        if n == t.len() {
            assert(t@.subrange(0, n as int) == t@);
            proof {
                lemma_digits_value_small(t@);
            }
            let r = digits_value_exec(t);
            return r;
        } else {
            proof {
                let m = n as int;
                lemma_digit_run_stops(t@, 0, m);
            }
        }
    }
    None
}

proof fn lemma_digit_run_stops(t: Seq<char>, i: int, m: int)
    requires
        0 <= i <= t.len(),
        m == digit_run(t, i),
        i + m < t.len(),
    ensures
        !is_digit(t[i + m]),
    decreases t.len() - i,
{
    if 0 <= i < t.len() && is_digit(t[i]) {
        lemma_digit_run_stops(t, i + 1, m - 1);
    }
}

proof fn lemma_digits_value_small(s: Seq<char>)
    requires
        s.len() <= 10,
        all_digits(s),
    ensures
        digits_value(s) < 10000000000,
{
    crate::num::lemma_digits_value_lt_pow10(s);
    reveal_with_fuel(crate::num::pow10, 11);
    lemma_pow10_mono(s.len(), 10);
}

proof fn lemma_pow10_mono(a: nat, b: nat)
    requires
        a <= b,
    ensures
        crate::num::pow10(a) <= crate::num::pow10(b),
    decreases b,
{
    if a < b {
        lemma_pow10_mono(a, (b - 1) as nat);
    }
}

/// Validates the Hacker News URL forms and bare item references, and extracts
/// the item id.
pub fn validate_hn_url(url: &str) -> (r: Option<u64>)
    ensures
        r == hn_id(url@),
{
    let v = to_chars(url);
    let (a, b) = trim_range(v.as_slice());
    let t = slice_range(v.as_slice(), a, b);
    hn_id_of_trimmed_exec(t.as_slice())
}

} // verus!

verus! {

pub open spec fn hn_item_prefix() -> Seq<char> {
    "https://news.ycombinator.com/item?id="@
}

/// The canonical URL of a Hacker News item.
pub open spec fn hn_canonical(id: u64) -> Seq<char> {
    hn_item_prefix() + dec(id as nat)
}

fn hn_canonical_exec(id: u64) -> (s: String)
    ensures
        s@ == hn_canonical(id),
{
    let mut out: Vec<char> = Vec::new();
    extend_str(&mut out, "https://news.ycombinator.com/item?id=");
    push_dec(&mut out, id);
    from_chars(out.as_slice())
}

/// Normalizes a Hacker News URL or item reference to
/// `https://news.ycombinator.com/item?id=ID`.
pub fn normalize_hn_url(url: &str) -> (r: Option<String>)
    ensures
        r is Some <==> hn_id(url@) is Some,
        r matches Some(s) ==> s@ == hn_canonical(hn_id(url@)->0),
{
    match validate_hn_url(url) {
        Some(id) => Some(hn_canonical_exec(id)),
        None => None,
    }
}

/// What a submitted link or id refers to.
#[derive(Debug, PartialEq, Eq, Clone)]
pub enum ParsedSource {
    YouTube(String),
    HackerNews(u64, String),
    Unknown(String),
}

/// `ParsedSource` with its strings taken as character sequences.
pub enum SourceView {
    YouTube(Seq<char>),
    HackerNews(u64, Seq<char>),
    Unknown(Seq<char>),
}

impl View for ParsedSource {
    type V = SourceView;

    open spec fn view(&self) -> SourceView {
        match self {
            ParsedSource::YouTube(s) => SourceView::YouTube(s@),
            ParsedSource::HackerNews(id, s) => SourceView::HackerNews(*id, s@),
            ParsedSource::Unknown(s) => SourceView::Unknown(s@),
        }
    }
}

/// The input mentions Hacker News: it names `ycombinator.com` or starts with
/// `item?id=` once trimmed.
pub open spec fn looks_like_hn(url: Seq<char>) -> bool {
    contains(trim(url), "ycombinator.com"@) || starts_with(trim(url), "item?id="@)
}

/// Classification of a link: a link that mentions Hacker News is an item when
/// it parses as one; otherwise a YouTube video is preferred, then a Hacker News
/// item; anything else is unknown and kept as given.
pub open spec fn classify_source(url: Seq<char>) -> SourceView {
    if looks_like_hn(url) && hn_id(url) is Some {
        SourceView::HackerNews(hn_id(url)->0, hn_canonical(hn_id(url)->0))
    } else if youtube_id(url) is Some {
        SourceView::YouTube(youtube_canonical(youtube_id(url)->0))
    } else if hn_id(url) is Some {
        SourceView::HackerNews(hn_id(url)->0, hn_canonical(hn_id(url)->0))
    } else {
        SourceView::Unknown(url)
    }
}

/// Identifies whether a link or id is a YouTube video or a Hacker News item.
pub fn parse_source_url(url: &str) -> (r: ParsedSource)
    ensures
        r@ == classify_source(url@),
{
    let v = to_chars(url);
    let (a, b) = trim_range(v.as_slice());
    let t = slice_range(v.as_slice(), a, b);
    let item = to_chars("item?id=");
    let looks = str_contains(t.as_slice(), "ycombinator.com") || occurs_at_exec(
        t.as_slice(),
        item.as_slice(),
        0,
    );
    if looks {
        if let Some(id) = validate_hn_url(url) {
            return ParsedSource::HackerNews(id, hn_canonical_exec(id));
        }
    }
    if let Some(norm) = normalize_youtube_url(url) {
        return ParsedSource::YouTube(norm);
    }
    if let Some(id) = validate_hn_url(url) {
        return ParsedSource::HackerNews(id, hn_canonical_exec(id));
    }
    ParsedSource::Unknown(from_chars(v.as_slice()))
}

// ---------------------------------------------------------------------
// Laws
// ---------------------------------------------------------------------

proof fn lemma_id_char_not_ws(c: char)
    requires
        is_id_char(c),
    ensures
        !is_ws(c),
{
}

proof fn lemma_no_ws_ends_trim(s: Seq<char>)
    requires
        s.len() > 0,
        !is_ws(s[0]),
        !is_ws(s.last()),
    ensures
        trim(s) == s,
{
    crate::text::lemma_lead_ws(s, 0);
    crate::text::lemma_trail_ws(s.skip(0), s.len() as int);
    assert(s.skip(0) == s);
    assert(s.take(s.len() as int) == s);
}

proof fn lemma_id_after_some(t: Seq<char>, p: Seq<char>)
    requires
        id_after(t, p) is Some,
    ensures
        id_after(t, p)->0.len() == 11,
        id_at(id_after(t, p)->0, 0),
        t.subrange(p.len() as int, p.len() + 11int) == id_after(t, p)->0,
        id_ends(t, p.len() as int),
{
    let x = id_after(t, p)->0;
    assert forall|k: int| 0 <= k < 11 implies is_id_char(#[trigger] x[k]) by {
        assert(x[k] == t[p.len() + k]);
    }
}

proof fn lemma_prefix_conflict(t: Seq<char>, p: Seq<char>, q: Seq<char>, i: int)
    requires
        starts_with(t, p),
        0 <= i < p.len(),
        i < q.len(),
        p[i] != q[i],
    ensures
        !starts_with(t, q),
        id_after(t, q) is None,
{
    assert(t[i] == t.subrange(0, p.len() as int)[i]);
    if starts_with(t, q) {
        assert(t[i] == t.subrange(0, q.len() as int)[i]);
    }
}

proof fn lemma_prefix_id(p: Seq<char>, id: Seq<char>, rest: Seq<char>)
    requires
        id.len() == 11,
        forall|k: int| 0 <= k < 11 ==> is_id_char(#[trigger] id[k]),
        rest.len() == 0 || !is_id_char(rest[0]),
    ensures
        starts_with(p + id + rest, p),
        id_after(p + id + rest, p) == Some(id),
{
    let t = p + id + rest;
    assert(t.subrange(0, p.len() as int) =~= p);
    assert forall|k: int| p.len() <= k < p.len() + 11 implies is_id_char(#[trigger] t[k]) by {
        assert(t[k] == id[k - p.len()]);
    }
    if rest.len() > 0 {
        assert(t[p.len() + 11int] == rest[0]);
    }
    assert(t.subrange(p.len() as int, p.len() + 11int) =~= id);
}

/// Every documented link form is recognised: `https://` with host
/// `www.youtube.com`, `m.youtube.com` or `youtube.com` and path `watch?v=`,
/// `live/` or `shorts/`, or with `www.youtu.be/` or `youtu.be/`, followed by
/// eleven id characters that end the id, gives those eleven characters,
/// whatever follows them.
pub proof fn lemma_youtube_link_forms(p: Seq<char>, id: Seq<char>, rest: Seq<char>)
    requires
        p == "https://www.youtube.com/watch?v="@ ||
            p == "https://m.youtube.com/watch?v="@ ||
            p == "https://youtube.com/watch?v="@ ||
            p == "https://www.youtube.com/live/"@ ||
            p == "https://m.youtube.com/live/"@ ||
            p == "https://youtube.com/live/"@ ||
            p == "https://www.youtu.be/"@ ||
            p == "https://youtu.be/"@ ||
            p == "https://www.youtube.com/shorts/"@ ||
            p == "https://m.youtube.com/shorts/"@ ||
            p == "https://youtube.com/shorts/"@,
        id.len() == 11,
        forall|k: int| 0 <= k < 11 ==> is_id_char(#[trigger] id[k]),
        rest.len() == 0 || !is_id_char(rest[0]),
    ensures
        youtube_id_of_trimmed(p + id + rest) == Some(id),
        rest.len() == 0 || !is_ws(rest.last()) ==> youtube_id(p + id + rest) == Some(id),
{
    let t = p + id + rest;
    if rest.len() == 0 || !is_ws(rest.last()) {
        assert(p.len() > 0 && p[0] == 'h') by {
            reveal_strlit("https://www.youtube.com/watch?v=");
            reveal_strlit("https://m.youtube.com/watch?v=");
            reveal_strlit("https://youtube.com/watch?v=");
            reveal_strlit("https://www.youtube.com/live/");
            reveal_strlit("https://m.youtube.com/live/");
            reveal_strlit("https://youtube.com/live/");
            reveal_strlit("https://www.youtu.be/");
            reveal_strlit("https://youtu.be/");
            reveal_strlit("https://www.youtube.com/shorts/");
            reveal_strlit("https://m.youtube.com/shorts/");
            reveal_strlit("https://youtube.com/shorts/");
        }
        assert(t[0] == p[0]);
        assert(lead_ws(t) == 0);
        if rest.len() == 0 {
            assert(t.last() == id[10]);
        } else {
            assert(t.last() == rest.last());
        }
        assert(trail_ws(t) == 0);
        assert(trim(t) =~= t);
    }
    reveal_strlit("https://www.youtube.com/watch?v=");
    reveal_strlit("https://m.youtube.com/watch?v=");
    reveal_strlit("https://youtube.com/watch?v=");
    reveal_strlit("https://www.youtube.com/live/");
    reveal_strlit("https://m.youtube.com/live/");
    reveal_strlit("https://youtube.com/live/");
    reveal_strlit("https://www.youtu.be/");
    reveal_strlit("https://youtu.be/");
    reveal_strlit("https://www.youtube.com/shorts/");
    reveal_strlit("https://m.youtube.com/shorts/");
    reveal_strlit("https://youtube.com/shorts/");
    lemma_prefix_id(p, id, rest);
    if p == "https://www.youtube.com/watch?v="@ {
        lemma_prefix_conflict(p + id + rest, p, "https://m.youtube.com/watch?v="@, 8);
        lemma_prefix_conflict(p + id + rest, p, "https://youtube.com/watch?v="@, 8);
        lemma_prefix_conflict(p + id + rest, p, "https://www.youtube.com/live/"@, 24);
        lemma_prefix_conflict(p + id + rest, p, "https://m.youtube.com/live/"@, 8);
        lemma_prefix_conflict(p + id + rest, p, "https://youtube.com/live/"@, 8);
        lemma_prefix_conflict(p + id + rest, p, "https://www.youtu.be/"@, 17);
        lemma_prefix_conflict(p + id + rest, p, "https://youtu.be/"@, 8);
        lemma_prefix_conflict(p + id + rest, p, "https://www.youtube.com/shorts/"@, 24);
        lemma_prefix_conflict(p + id + rest, p, "https://m.youtube.com/shorts/"@, 8);
        lemma_prefix_conflict(p + id + rest, p, "https://youtube.com/shorts/"@, 8);
    } else if p == "https://m.youtube.com/watch?v="@ {
        lemma_prefix_conflict(p + id + rest, p, "https://www.youtube.com/watch?v="@, 8);
        lemma_prefix_conflict(p + id + rest, p, "https://youtube.com/watch?v="@, 8);
        lemma_prefix_conflict(p + id + rest, p, "https://www.youtube.com/live/"@, 8);
        lemma_prefix_conflict(p + id + rest, p, "https://m.youtube.com/live/"@, 22);
        lemma_prefix_conflict(p + id + rest, p, "https://youtube.com/live/"@, 8);
        lemma_prefix_conflict(p + id + rest, p, "https://www.youtu.be/"@, 8);
        lemma_prefix_conflict(p + id + rest, p, "https://youtu.be/"@, 8);
        lemma_prefix_conflict(p + id + rest, p, "https://www.youtube.com/shorts/"@, 8);
        lemma_prefix_conflict(p + id + rest, p, "https://m.youtube.com/shorts/"@, 22);
        lemma_prefix_conflict(p + id + rest, p, "https://youtube.com/shorts/"@, 8);
    } else if p == "https://youtube.com/watch?v="@ {
        lemma_prefix_conflict(p + id + rest, p, "https://www.youtube.com/watch?v="@, 8);
        lemma_prefix_conflict(p + id + rest, p, "https://m.youtube.com/watch?v="@, 8);
        lemma_prefix_conflict(p + id + rest, p, "https://www.youtube.com/live/"@, 8);
        lemma_prefix_conflict(p + id + rest, p, "https://m.youtube.com/live/"@, 8);
        lemma_prefix_conflict(p + id + rest, p, "https://youtube.com/live/"@, 20);
        lemma_prefix_conflict(p + id + rest, p, "https://www.youtu.be/"@, 8);
        lemma_prefix_conflict(p + id + rest, p, "https://youtu.be/"@, 13);
        lemma_prefix_conflict(p + id + rest, p, "https://www.youtube.com/shorts/"@, 8);
        lemma_prefix_conflict(p + id + rest, p, "https://m.youtube.com/shorts/"@, 8);
        lemma_prefix_conflict(p + id + rest, p, "https://youtube.com/shorts/"@, 20);
    } else if p == "https://www.youtube.com/live/"@ {
        lemma_prefix_conflict(p + id + rest, p, "https://www.youtube.com/watch?v="@, 24);
        lemma_prefix_conflict(p + id + rest, p, "https://m.youtube.com/watch?v="@, 8);
        lemma_prefix_conflict(p + id + rest, p, "https://youtube.com/watch?v="@, 8);
        lemma_prefix_conflict(p + id + rest, p, "https://m.youtube.com/live/"@, 8);
        lemma_prefix_conflict(p + id + rest, p, "https://youtube.com/live/"@, 8);
        lemma_prefix_conflict(p + id + rest, p, "https://www.youtu.be/"@, 17);
        lemma_prefix_conflict(p + id + rest, p, "https://youtu.be/"@, 8);
        lemma_prefix_conflict(p + id + rest, p, "https://www.youtube.com/shorts/"@, 24);
        lemma_prefix_conflict(p + id + rest, p, "https://m.youtube.com/shorts/"@, 8);
        lemma_prefix_conflict(p + id + rest, p, "https://youtube.com/shorts/"@, 8);
    } else if p == "https://m.youtube.com/live/"@ {
        lemma_prefix_conflict(p + id + rest, p, "https://www.youtube.com/watch?v="@, 8);
        lemma_prefix_conflict(p + id + rest, p, "https://m.youtube.com/watch?v="@, 22);
        lemma_prefix_conflict(p + id + rest, p, "https://youtube.com/watch?v="@, 8);
        lemma_prefix_conflict(p + id + rest, p, "https://www.youtube.com/live/"@, 8);
        lemma_prefix_conflict(p + id + rest, p, "https://youtube.com/live/"@, 8);
        lemma_prefix_conflict(p + id + rest, p, "https://www.youtu.be/"@, 8);
        lemma_prefix_conflict(p + id + rest, p, "https://youtu.be/"@, 8);
        lemma_prefix_conflict(p + id + rest, p, "https://www.youtube.com/shorts/"@, 8);
        lemma_prefix_conflict(p + id + rest, p, "https://m.youtube.com/shorts/"@, 22);
        lemma_prefix_conflict(p + id + rest, p, "https://youtube.com/shorts/"@, 8);
    } else if p == "https://youtube.com/live/"@ {
        lemma_prefix_conflict(p + id + rest, p, "https://www.youtube.com/watch?v="@, 8);
        lemma_prefix_conflict(p + id + rest, p, "https://m.youtube.com/watch?v="@, 8);
        lemma_prefix_conflict(p + id + rest, p, "https://youtube.com/watch?v="@, 20);
        lemma_prefix_conflict(p + id + rest, p, "https://www.youtube.com/live/"@, 8);
        lemma_prefix_conflict(p + id + rest, p, "https://m.youtube.com/live/"@, 8);
        lemma_prefix_conflict(p + id + rest, p, "https://www.youtu.be/"@, 8);
        lemma_prefix_conflict(p + id + rest, p, "https://youtu.be/"@, 13);
        lemma_prefix_conflict(p + id + rest, p, "https://www.youtube.com/shorts/"@, 8);
        lemma_prefix_conflict(p + id + rest, p, "https://m.youtube.com/shorts/"@, 8);
        lemma_prefix_conflict(p + id + rest, p, "https://youtube.com/shorts/"@, 20);
    } else if p == "https://www.youtu.be/"@ {
        lemma_prefix_conflict(p + id + rest, p, "https://www.youtube.com/watch?v="@, 17);
        lemma_prefix_conflict(p + id + rest, p, "https://m.youtube.com/watch?v="@, 8);
        lemma_prefix_conflict(p + id + rest, p, "https://youtube.com/watch?v="@, 8);
        lemma_prefix_conflict(p + id + rest, p, "https://www.youtube.com/live/"@, 17);
        lemma_prefix_conflict(p + id + rest, p, "https://m.youtube.com/live/"@, 8);
        lemma_prefix_conflict(p + id + rest, p, "https://youtube.com/live/"@, 8);
        lemma_prefix_conflict(p + id + rest, p, "https://youtu.be/"@, 8);
        lemma_prefix_conflict(p + id + rest, p, "https://www.youtube.com/shorts/"@, 17);
        lemma_prefix_conflict(p + id + rest, p, "https://m.youtube.com/shorts/"@, 8);
        lemma_prefix_conflict(p + id + rest, p, "https://youtube.com/shorts/"@, 8);
    } else if p == "https://youtu.be/"@ {
        lemma_prefix_conflict(p + id + rest, p, "https://www.youtube.com/watch?v="@, 8);
        lemma_prefix_conflict(p + id + rest, p, "https://m.youtube.com/watch?v="@, 8);
        lemma_prefix_conflict(p + id + rest, p, "https://youtube.com/watch?v="@, 13);
        lemma_prefix_conflict(p + id + rest, p, "https://www.youtube.com/live/"@, 8);
        lemma_prefix_conflict(p + id + rest, p, "https://m.youtube.com/live/"@, 8);
        lemma_prefix_conflict(p + id + rest, p, "https://youtube.com/live/"@, 13);
        lemma_prefix_conflict(p + id + rest, p, "https://www.youtu.be/"@, 8);
        lemma_prefix_conflict(p + id + rest, p, "https://www.youtube.com/shorts/"@, 8);
        lemma_prefix_conflict(p + id + rest, p, "https://m.youtube.com/shorts/"@, 8);
        lemma_prefix_conflict(p + id + rest, p, "https://youtube.com/shorts/"@, 13);
    } else if p == "https://www.youtube.com/shorts/"@ {
        lemma_prefix_conflict(p + id + rest, p, "https://www.youtube.com/watch?v="@, 24);
        lemma_prefix_conflict(p + id + rest, p, "https://m.youtube.com/watch?v="@, 8);
        lemma_prefix_conflict(p + id + rest, p, "https://youtube.com/watch?v="@, 8);
        lemma_prefix_conflict(p + id + rest, p, "https://www.youtube.com/live/"@, 24);
        lemma_prefix_conflict(p + id + rest, p, "https://m.youtube.com/live/"@, 8);
        lemma_prefix_conflict(p + id + rest, p, "https://youtube.com/live/"@, 8);
        lemma_prefix_conflict(p + id + rest, p, "https://www.youtu.be/"@, 17);
        lemma_prefix_conflict(p + id + rest, p, "https://youtu.be/"@, 8);
        lemma_prefix_conflict(p + id + rest, p, "https://m.youtube.com/shorts/"@, 8);
        lemma_prefix_conflict(p + id + rest, p, "https://youtube.com/shorts/"@, 8);
    } else if p == "https://m.youtube.com/shorts/"@ {
        lemma_prefix_conflict(p + id + rest, p, "https://www.youtube.com/watch?v="@, 8);
        lemma_prefix_conflict(p + id + rest, p, "https://m.youtube.com/watch?v="@, 22);
        lemma_prefix_conflict(p + id + rest, p, "https://youtube.com/watch?v="@, 8);
        lemma_prefix_conflict(p + id + rest, p, "https://www.youtube.com/live/"@, 8);
        lemma_prefix_conflict(p + id + rest, p, "https://m.youtube.com/live/"@, 22);
        lemma_prefix_conflict(p + id + rest, p, "https://youtube.com/live/"@, 8);
        lemma_prefix_conflict(p + id + rest, p, "https://www.youtu.be/"@, 8);
        lemma_prefix_conflict(p + id + rest, p, "https://youtu.be/"@, 8);
        lemma_prefix_conflict(p + id + rest, p, "https://www.youtube.com/shorts/"@, 8);
        lemma_prefix_conflict(p + id + rest, p, "https://youtube.com/shorts/"@, 8);
    } else if p == "https://youtube.com/shorts/"@ {
        lemma_prefix_conflict(p + id + rest, p, "https://www.youtube.com/watch?v="@, 8);
        lemma_prefix_conflict(p + id + rest, p, "https://m.youtube.com/watch?v="@, 8);
        lemma_prefix_conflict(p + id + rest, p, "https://youtube.com/watch?v="@, 20);
        lemma_prefix_conflict(p + id + rest, p, "https://www.youtube.com/live/"@, 8);
        lemma_prefix_conflict(p + id + rest, p, "https://m.youtube.com/live/"@, 8);
        lemma_prefix_conflict(p + id + rest, p, "https://youtube.com/live/"@, 20);
        lemma_prefix_conflict(p + id + rest, p, "https://www.youtu.be/"@, 8);
        lemma_prefix_conflict(p + id + rest, p, "https://youtu.be/"@, 13);
        lemma_prefix_conflict(p + id + rest, p, "https://www.youtube.com/shorts/"@, 8);
        lemma_prefix_conflict(p + id + rest, p, "https://m.youtube.com/shorts/"@, 8);
    }
}

proof fn lemma_https_prefix(t: Seq<char>, q: Seq<char>)
    requires
        q.len() >= 8,
        q.subrange(0, 8) == "https://"@,
    ensures
        id_after(t, q) is Some ==> starts_with(t, "https://"@),
{
    if id_after(t, q) is Some {
        assert(t.subrange(0, 8) =~= t.subrange(0, q.len() as int).subrange(0, 8));
    }
}

/// Only `https://` links and bare ids are recognised: a recognised text that
/// is not an eleven-character id starts with `https://`.
pub proof fn lemma_youtube_https_only(t: Seq<char>)
    ensures
        youtube_id_of_trimmed(t) is Some ==> starts_with(t, "https://"@) || (t.len() == 11 && id_at(
            t,
            0,
        )),
{
    reveal_strlit("https://");
    reveal_strlit("https://www.youtube.com/watch?v=");
    assert("https://www.youtube.com/watch?v="@.subrange(0, 8) =~= "https://"@);
    lemma_https_prefix(t, "https://www.youtube.com/watch?v="@);
    reveal_strlit("https://m.youtube.com/watch?v=");
    assert("https://m.youtube.com/watch?v="@.subrange(0, 8) =~= "https://"@);
    lemma_https_prefix(t, "https://m.youtube.com/watch?v="@);
    reveal_strlit("https://youtube.com/watch?v=");
    assert("https://youtube.com/watch?v="@.subrange(0, 8) =~= "https://"@);
    lemma_https_prefix(t, "https://youtube.com/watch?v="@);
    reveal_strlit("https://www.youtube.com/live/");
    assert("https://www.youtube.com/live/"@.subrange(0, 8) =~= "https://"@);
    lemma_https_prefix(t, "https://www.youtube.com/live/"@);
    reveal_strlit("https://m.youtube.com/live/");
    assert("https://m.youtube.com/live/"@.subrange(0, 8) =~= "https://"@);
    lemma_https_prefix(t, "https://m.youtube.com/live/"@);
    reveal_strlit("https://youtube.com/live/");
    assert("https://youtube.com/live/"@.subrange(0, 8) =~= "https://"@);
    lemma_https_prefix(t, "https://youtube.com/live/"@);
    reveal_strlit("https://www.youtu.be/");
    assert("https://www.youtu.be/"@.subrange(0, 8) =~= "https://"@);
    lemma_https_prefix(t, "https://www.youtu.be/"@);
    reveal_strlit("https://youtu.be/");
    assert("https://youtu.be/"@.subrange(0, 8) =~= "https://"@);
    lemma_https_prefix(t, "https://youtu.be/"@);
    reveal_strlit("https://www.youtube.com/shorts/");
    assert("https://www.youtube.com/shorts/"@.subrange(0, 8) =~= "https://"@);
    lemma_https_prefix(t, "https://www.youtube.com/shorts/"@);
    reveal_strlit("https://m.youtube.com/shorts/");
    assert("https://m.youtube.com/shorts/"@.subrange(0, 8) =~= "https://"@);
    lemma_https_prefix(t, "https://m.youtube.com/shorts/"@);
    reveal_strlit("https://youtube.com/shorts/");
    assert("https://youtube.com/shorts/"@.subrange(0, 8) =~= "https://"@);
    lemma_https_prefix(t, "https://youtube.com/shorts/"@);
}

/// A recognised video id is eleven id characters, and it is the whole id the
/// text gives: no id character follows it.
pub proof fn lemma_youtube_id_shape(t: Seq<char>)
    requires
        youtube_id_of_trimmed(t) is Some,
    ensures
        youtube_id_of_trimmed(t)->0.len() == 11,
        id_at(youtube_id_of_trimmed(t)->0, 0),
        exists|i: int|
            0 <= i && i + 11 <= t.len() && #[trigger] t.subrange(i, i + 11) == youtube_id_of_trimmed(t)->0
                && id_ends(t, i),
{
    let ps = seq![
        "https://www.youtube.com/watch?v="@,
        "https://m.youtube.com/watch?v="@,
        "https://youtube.com/watch?v="@,
        "https://www.youtube.com/live/"@,
        "https://m.youtube.com/live/"@,
        "https://youtube.com/live/"@,
        "https://www.youtu.be/"@,
        "https://youtu.be/"@,
        "https://www.youtube.com/shorts/"@,
        "https://m.youtube.com/shorts/"@,
        "https://youtube.com/shorts/"@,
    ];
    if id_after(t, ps[0]) is Some {
        lemma_id_after_some(t, ps[0]);
        assert(t.subrange(ps[0].len() as int, ps[0].len() + 11int) == youtube_id_of_trimmed(t)->0);
    } else if id_after(t, ps[1]) is Some {
        lemma_id_after_some(t, ps[1]);
        assert(t.subrange(ps[1].len() as int, ps[1].len() + 11int) == youtube_id_of_trimmed(t)->0);
    } else if id_after(t, ps[2]) is Some {
        lemma_id_after_some(t, ps[2]);
        assert(t.subrange(ps[2].len() as int, ps[2].len() + 11int) == youtube_id_of_trimmed(t)->0);
    } else if id_after(t, ps[3]) is Some {
        lemma_id_after_some(t, ps[3]);
        assert(t.subrange(ps[3].len() as int, ps[3].len() + 11int) == youtube_id_of_trimmed(t)->0);
    } else if id_after(t, ps[4]) is Some {
        lemma_id_after_some(t, ps[4]);
        assert(t.subrange(ps[4].len() as int, ps[4].len() + 11int) == youtube_id_of_trimmed(t)->0);
    } else if id_after(t, ps[5]) is Some {
        lemma_id_after_some(t, ps[5]);
        assert(t.subrange(ps[5].len() as int, ps[5].len() + 11int) == youtube_id_of_trimmed(t)->0);
    } else if id_after(t, ps[6]) is Some {
        lemma_id_after_some(t, ps[6]);
        assert(t.subrange(ps[6].len() as int, ps[6].len() + 11int) == youtube_id_of_trimmed(t)->0);
    } else if id_after(t, ps[7]) is Some {
        lemma_id_after_some(t, ps[7]);
        assert(t.subrange(ps[7].len() as int, ps[7].len() + 11int) == youtube_id_of_trimmed(t)->0);
    } else if id_after(t, ps[8]) is Some {
        lemma_id_after_some(t, ps[8]);
        assert(t.subrange(ps[8].len() as int, ps[8].len() + 11int) == youtube_id_of_trimmed(t)->0);
    } else if id_after(t, ps[9]) is Some {
        lemma_id_after_some(t, ps[9]);
        assert(t.subrange(ps[9].len() as int, ps[9].len() + 11int) == youtube_id_of_trimmed(t)->0);
    } else if id_after(t, ps[10]) is Some {
        lemma_id_after_some(t, ps[10]);
        assert(t.subrange(ps[10].len() as int, ps[10].len() + 11int) == youtube_id_of_trimmed(t)->0);
    } else {
        assert(t.subrange(0, 11) =~= t);
    }
}

/// Normalizing a YouTube link is idempotent: the canonical watch URL of a
/// recognised id is recognised again with the same id.
pub proof fn lemma_normalize_youtube_idempotent(url: Seq<char>)
    requires
        youtube_id(url) is Some,
    ensures
        youtube_id(youtube_canonical(youtube_id(url)->0)) == youtube_id(url),
{
    let id = youtube_id(url)->0;
    lemma_youtube_id_shape(trim(url));
    let c = youtube_canonical(id);
    let p = youtube_watch_prefix();
    reveal_strlit("https://www.youtube.com/watch?v=");
    assert(p.len() == 32);
    assert(c[0] == 'h');
    assert(c.last() == id[10]);
    lemma_id_char_not_ws(id[10]);
    lemma_no_ws_ends_trim(c);
    assert(c.subrange(0, 32) =~= p);
    assert forall|k: int| 32 <= k < 43 implies is_id_char(#[trigger] c[k]) by {
        assert(c[k] == id[k - 32]);
    }
    assert(c.subrange(32, 43) =~= id);
}

/// `dec(n)` is a non-empty run of digits worth `n`.
pub proof fn lemma_dec_digits(n: nat)
    ensures
        dec(n).len() > 0,
        all_digits(dec(n)),
        digits_value(dec(n)) == n,
    decreases n,
{
    lemma_digit_char_val(n % 10);
    if n < 10 {
        assert(dec(n).drop_last() =~= Seq::<char>::empty());
        assert(dec(n).last() == crate::num::digit_char(n));
        assert(digits_value(dec(n)) == digits_value(dec(n).drop_last()) * 10 + digit_val(dec(n).last()));
    } else {
        lemma_dec_digits(n / 10);
        let s = dec(n);
        assert(s.drop_last() == dec(n / 10));
        assert((n / 10) * 10 + n % 10 == n) by (nonlinear_arith);
        assert(s.last() == crate::num::digit_char(n % 10));
        assert(digits_value(s) == digits_value(s.drop_last()) * 10 + digit_val(s.last()));
        assert forall|i: int| 0 <= i < s.len() implies is_digit(#[trigger] s[i]) by {
            if i < s.len() - 1 {
                assert(s[i] == dec(n / 10)[i]);
            }
        }
    }
}

proof fn lemma_digit_char_val(d: nat)
    requires
        d < 10,
    ensures
        digit_val(crate::num::digit_char(d)) == d,
        is_digit(crate::num::digit_char(d)),
{
}

proof fn lemma_digit_run_all(t: Seq<char>, i: int)
    requires
        0 <= i <= t.len(),
        forall|k: int| i <= k < t.len() ==> is_digit(#[trigger] t[k]),
    ensures
        digit_run(t, i) == t.len() - i,
    decreases t.len() - i,
{
    if i < t.len() {
        lemma_digit_run_all(t, i + 1);
    }
}

/// Normalizing a Hacker News link is idempotent: the canonical item URL is
/// recognised again with the same item id.
pub proof fn lemma_normalize_hn_idempotent(id: u64)
    ensures
        hn_id(hn_canonical(id)) == Some(id),
{
    let c = hn_canonical(id);
    let p = hn_item_prefix();
    let d = dec(id as nat);
    reveal_strlit("https://news.ycombinator.com/item?id=");
    assert(p.len() == 37);
    lemma_dec_digits(id as nat);
    assert(c[0] == 'h');
    assert(c.last() == d.last());
    assert(is_digit(d[d.len() - 1]));
    lemma_no_ws_ends_trim(c);
    assert(c.subrange(0, 37) =~= p);
    assert forall|k: int| 37 <= k < c.len() implies is_digit(#[trigger] c[k]) by {
        assert(c[k] == d[k - 37]);
    }
    lemma_digit_run_all(c, 37);
    assert(c.subrange(37, c.len() as int) =~= d);
}

} // verus!
