use vstd::prelude::*;
use crate::text::{to_chars, from_chars, contains, contains_exec, extend_chars, extend_str,
    slice_range, seqs};
use crate::split::{split_char, split_on, lines, lines_of, lemma_split_char_len};
use crate::strops::{utf8_len, char_utf8_len, lemma_utf8_len_bound};
use crate::num::{parse_u32_or0, parse_u32_or_zero, dec, push_dec};
use crate::url_validator::{url_items, youtube_id, split_urls, validate_youtube_url};
use crate::vtt_parser::join_lines;

verus! {

// ---------------------------------------------------------------------
// Finding timestamps
// ---------------------------------------------------------------------

/// `MM:SS` or `HH:MM:SS` (minutes and seconds below 60) between word
/// boundaries.
pub const TIMESTAMP_PATTERN: &'static str = "\\b(?:\\d{1,2}:)?[0-5]\\d:[0-5]\\d\\b";

/// The UTF-8 byte offset of the character at index `i`.
pub open spec fn byte_offset(t: Seq<char>, i: int) -> nat {
    utf8_len(t.take(i))
}

/// Byte offset `b` falls between two characters of `t` (or at an end).
pub open spec fn on_boundary(t: Seq<char>, b: int) -> bool {
    exists|i: int| 0 <= i <= t.len() && #[trigger] byte_offset(t, i) == b
}

/// Byte ranges that are each well ordered, come one after the other without
/// overlapping, and start and end on character boundaries.
pub open spec fn spans_ok(t: Seq<char>, s: Seq<(usize, usize)>) -> bool {
    &&& forall|k: int| 0 <= k < s.len() ==> (#[trigger] s[k]).0 <= s[k].1
    &&& forall|k: int, l: int| 0 <= k < l < s.len() ==> (#[trigger] s[k]).1 <= (#[trigger] s[l]).0
    &&& forall|k: int|
        0 <= k < s.len() ==> on_boundary(t, (#[trigger] s[k]).0 as int) && on_boundary(
            t,
            s[k].1 as int,
        )
}

/// The byte ranges of the successive non-overlapping matches of a pattern in
/// a text, as the regex crate finds them; nothing when the pattern does not
/// compile.
pub uninterp spec fn regex_matches(pattern: Seq<char>, text: Seq<char>) -> Option<Seq<(usize, usize)>>;

/// `regex::Regex::new` then `Regex::find_iter`: the byte ranges of the
/// successive non-overlapping matches, or `None` when the pattern does not
/// compile.  The crate documents that each range is ordered, that they follow
/// one another, and that every offset falls on a character boundary; which
/// ranges match is left to the name.
#[verifier::external_body]
fn find_matches(pattern: &str, text: &str) -> (r: Option<Vec<(usize, usize)>>)
    ensures
        r matches Some(v) ==> regex_matches(pattern@, text@) == Some(v@) && spans_ok(text@, v@),
        r is None ==> regex_matches(pattern@, text@) is None,
{
    match regex::Regex::new(pattern) {
        Ok(re) => Some(re.find_iter(text).map(|m| (m.start(), m.end())).collect()),
        Err(_) => None,
    }
}

/// The Unicode `Alphabetic` property.
pub uninterp spec fn alphabetic(c: char) -> bool;

/// `char::is_alphabetic`.
#[verifier::external_body]
fn is_alphabetic(c: char) -> (r: bool)
    ensures
        r == alphabetic(c),
{
    c.is_alphabetic()
}

// ---------------------------------------------------------------------
// Byte offsets and character indices
// ---------------------------------------------------------------------

proof fn lemma_byte_offset_step(t: Seq<char>, i: int)
    requires
        0 <= i < t.len(),
    ensures
        byte_offset(t, i + 1) == byte_offset(t, i) + char_utf8_len(t[i]),
        char_utf8_len(t[i]) >= 1,
{
    assert(t.take(i + 1).drop_last() == t.take(i));
    assert(t.take(i + 1).last() == t[i]);
}

proof fn lemma_byte_offset_mono(t: Seq<char>, i: int, j: int)
    requires
        0 <= i <= j <= t.len(),
    ensures
        byte_offset(t, i) <= byte_offset(t, j),
        i < j ==> byte_offset(t, i) < byte_offset(t, j),
    decreases j - i,
{
    if i < j {
        lemma_byte_offset_step(t, j - 1);
        lemma_byte_offset_mono(t, i, j - 1);
    }
}

/// The character index at byte offset `b`.
pub open spec fn char_index(t: Seq<char>, b: int) -> int {
    choose|i: int| 0 <= i <= t.len() && #[trigger] byte_offset(t, i) == b
}

proof fn lemma_char_index(t: Seq<char>, i: int)
    requires
        0 <= i <= t.len(),
    ensures
        char_index(t, byte_offset(t, i) as int) == i,
{
    let b = byte_offset(t, i) as int;
    assert(0 <= i <= t.len() && byte_offset(t, i) == b);
    let j = char_index(t, b);
    if j < i {
        lemma_byte_offset_mono(t, j, i);
    }
    if i < j {
        lemma_byte_offset_mono(t, i, j);
    }
}

/// The byte ranges as ranges of character indices.
pub open spec fn char_spans(t: Seq<char>, s: Seq<(usize, usize)>) -> Seq<(int, int)> {
    s.map_values(|p: (usize, usize)| (char_index(t, p.0 as int), char_index(t, p.1 as int)))
}

/// Ranges of character indices that lie within `t`, in order, not overlapping.
pub open spec fn char_spans_ok(t: Seq<char>, cs: Seq<(int, int)>) -> bool {
    &&& forall|k: int| 0 <= k < cs.len() ==> 0 <= (#[trigger] cs[k]).0 <= cs[k].1 <= t.len()
    &&& forall|k: int, l: int| 0 <= k < l < cs.len() ==> (#[trigger] cs[k]).1 <= (#[trigger] cs[l]).0
}

pub open spec fn index_spans(v: Seq<(usize, usize)>) -> Seq<(int, int)> {
    v.map_values(|p: (usize, usize)| (p.0 as int, p.1 as int))
}

fn char_len_bytes(c: char) -> (n: u128)
    ensures
        n == char_utf8_len(c),
{
    let u = c as u32;
    if u < 0x80 {
        1
    } else if u < 0x800 {
        2
    } else if u < 0x10000 {
        3
    } else {
        4
    }
}

/// Walks forward from character `i` (at byte `b`) to the character at byte
/// `target`, a boundary at or after `b`.
fn walk_to(t: &[char], start: usize, b0: u128, target: usize) -> (r: (usize, u128))
    requires
        start <= t@.len(),
        b0 == byte_offset(t@, start as int),
        b0 <= target,
        on_boundary(t@, target as int),
    ensures
        start <= r.0 <= t@.len(),
        r.1 == target,
        r.1 == byte_offset(t@, r.0 as int),
{
    let mut i = start;
    let mut b = b0;
    while b < target as u128
        invariant
            start <= i <= t@.len(),
            b == byte_offset(t@, i as int),
            b <= target,
            on_boundary(t@, target as int),
        decreases t@.len() - i,
    {
        let ghost w = choose|x: int| 0 <= x <= t@.len() && #[trigger] byte_offset(t@, x) == target;
        proof {
            if w <= i {
                lemma_byte_offset_mono(t@, w, i as int);
            }
            lemma_byte_offset_step(t@, i as int);
            lemma_byte_offset_mono(t@, i + 1, w);
            lemma_utf8_len_bound(t@.take(i as int));
        }
        let n = char_len_bytes(t[i]);
        b = b + n;
        i = i + 1;
    }
    (i, b)
}

/// The character ranges of byte ranges that fall on boundaries.
fn to_char_spans(t: &[char], spans: &Vec<(usize, usize)>) -> (r: Vec<(usize, usize)>)
    requires
        spans_ok(t@, spans@),
    ensures
        index_spans(r@) == char_spans(t@, spans@),
        char_spans_ok(t@, index_spans(r@)),
{
    let mut r: Vec<(usize, usize)> = Vec::new();
    let mut i: usize = 0;
    let mut b: u128 = 0;
    let mut k: usize = 0;
    assert(t@.take(0) =~= Seq::<char>::empty());
    while k < spans.len()
        invariant
            k <= spans@.len(),
            spans_ok(t@, spans@),
            r@.len() == k,
            i <= t@.len(),
            b == byte_offset(t@, i as int),
            k == 0 ==> i == 0,
            k > 0 ==> b == spans@[k - 1].1,
            forall|j: int|
                0 <= j < k ==> (#[trigger] r@[j]).0 as int == char_index(t@, spans@[j].0 as int)
                    && r@[j].1 as int == char_index(t@, spans@[j].1 as int),
            forall|j: int| 0 <= j < k ==> (#[trigger] r@[j]).0 <= r@[j].1 <= i,
            forall|j: int, l: int| 0 <= j < l < k ==> (#[trigger] r@[j]).1 <= (#[trigger] r@[l]).0,
        decreases spans@.len() - k,
    {
        let (s, e) = spans[k];
        assert(spans@[k as int].0 <= spans@[k as int].1);
        if k > 0 {
            assert(spans@[k - 1].1 <= spans@[k as int].0);
        }
        let (si, bs) = walk_to(t, i, b, s);
        let (ei, be) = walk_to(t, si, bs, e);
        proof {
            lemma_char_index(t@, si as int);
            lemma_char_index(t@, ei as int);
        }
        r.push((si, ei));
        i = ei;
        b = be;
        k = k + 1;
    }
    assert(index_spans(r@) =~= char_spans(t@, spans@));
    r
}

// ---------------------------------------------------------------------
// Linking
// ---------------------------------------------------------------------

/// Characters that, next to a match, show it is part of something else
/// (a ratio, a date, a path, a decimal).
pub open spec fn is_stop(c: char) -> bool {
    c == '-' || c == '/' || c == ':' || c == '.'
}

/// Seconds of a matched timestamp: `H:M:S` or `M:S`, fields that do not
/// parse counting as zero.
pub open spec fn ts_seconds(m: Seq<char>) -> nat {
    let p = split_char(m, ':');
    if p.len() == 3 {
        (parse_u32_or0(p[0]) * 3600 + parse_u32_or0(p[1]) * 60 + parse_u32_or0(p[2])) as nat
    } else if p.len() == 2 {
        (parse_u32_or0(p[0]) * 60 + parse_u32_or0(p[1])) as nat
    } else {
        0
    }
}

/// A canonical watch URL for a video, starting at `secs` seconds.
pub open spec fn watch_url_at(video_id: Seq<char>, secs: nat) -> Seq<char> {
    "https://www.youtube.com/watch?v="@ + video_id + "&t="@ + dec(secs) + "s"@
}

/// What a match becomes: a link to the video at that time, or the text
/// itself when a stop character precedes it or a stop character or a letter
/// follows it.
pub open spec fn rendered(t: Seq<char>, s: int, e: int, video_id: Seq<char>) -> Seq<char> {
    let m = t.subrange(s, e);
    let blocked = (s > 0 && is_stop(t[s - 1])) || (e < t.len() && (is_stop(t[e]) || alphabetic(
        t[e],
    )));
    if blocked {
        m
    } else {
        "<a href=\""@ + watch_url_at(video_id, ts_seconds(m)) + "\">"@ + m + "</a>"@
    }
}

/// The text up to the end of the last match, with every match rendered.
pub open spec fn linked_prefix(t: Seq<char>, cs: Seq<(int, int)>, video_id: Seq<char>) -> Seq<char>
    decreases cs.len(),
{
    if cs.len() == 0 {
        Seq::empty()
    } else {
        let p = cs.drop_last();
        let from = if p.len() == 0 {
            0
        } else {
            p.last().1
        };
        linked_prefix(t, p, video_id) + t.subrange(from, cs.last().0) + rendered(
            t,
            cs.last().0,
            cs.last().1,
            video_id,
        )
    }
}

/// The text with every match rendered and everything else kept.
pub open spec fn linked(t: Seq<char>, cs: Seq<(int, int)>, video_id: Seq<char>) -> Seq<char> {
    let from = if cs.len() == 0 {
        0
    } else {
        cs.last().1
    };
    linked_prefix(t, cs, video_id) + t.subrange(from, t.len() as int)
}

/// A text with the matches of `TIMESTAMP_PATTERN` linked to a video (the
/// text unchanged should the pattern not compile).
pub open spec fn link_text(t: Seq<char>, video_id: Seq<char>) -> Seq<char> {
    match regex_matches(TIMESTAMP_PATTERN@, t) {
        Some(spans) => linked(t, char_spans(t, spans), video_id),
        None => t,
    }
}

/// Builds a canonical YouTube URL with a time offset parameter.
pub fn youtube_url_with_t(video_id: &str, seconds: u32) -> (r: String)
    ensures
        r@ == watch_url_at(video_id@, seconds as nat),
{
    let mut v = to_chars("https://www.youtube.com/watch?v=");
    extend_str(&mut v, video_id);
    extend_str(&mut v, "&t=");
    push_dec(&mut v, seconds as u64);
    extend_str(&mut v, "s");
    from_chars(v.as_slice())
}

fn ts_seconds_exec(m: &[char]) -> (r: u64)
    ensures
        r == ts_seconds(m@),
{
    let p = split_on(m, ':');
    let ghost sp = seqs(p@);
    assert(sp.len() == p@.len());
    if p.len() == 3 {
        assert(sp[0] == p@[0]@ && sp[1] == p@[1]@ && sp[2] == p@[2]@);
        let h = parse_u32_or_zero(p[0].as_slice()) as u64;
        let mm = parse_u32_or_zero(p[1].as_slice()) as u64;
        let ss = parse_u32_or_zero(p[2].as_slice()) as u64;
        h * 3600 + mm * 60 + ss
    } else if p.len() == 2 {
        assert(sp[0] == p@[0]@ && sp[1] == p@[1]@);
        let mm = parse_u32_or_zero(p[0].as_slice()) as u64;
        let ss = parse_u32_or_zero(p[1].as_slice()) as u64;
        mm * 60 + ss
    } else {
        0
    }
}

fn render_match(t: &[char], s: usize, e: usize, video_id: &[char], out: &mut Vec<char>)
    requires
        s <= e <= t@.len(),
    ensures
        final(out)@ == old(out)@ + rendered(t@, s as int, e as int, video_id@),
{
    let m = slice_range(t, s, e);
    let stop_before = s > 0 && (t[s - 1] == '-' || t[s - 1] == '/' || t[s - 1] == ':' || t[s - 1]
        == '.');
    let stop_after = e < t.len() && (t[e] == '-' || t[e] == '/' || t[e] == ':' || t[e] == '.'
        || is_alphabetic(t[e]));
    if stop_before || stop_after {
        extend_chars(out, m.as_slice());
    } else {
        let secs = ts_seconds_exec(m.as_slice());
        extend_str(out, "<a href=\"");
        extend_str(out, "https://www.youtube.com/watch?v=");
        extend_chars(out, video_id);
        extend_str(out, "&t=");
        push_dec(out, secs);
        extend_str(out, "s");
        extend_str(out, "\">");
        extend_chars(out, m.as_slice());
        extend_str(out, "</a>");
        assert(final(out)@ =~= old(out)@ + rendered(t@, s as int, e as int, video_id@));
    }
}

fn link_chars(t: &[char], cs: &Vec<(usize, usize)>, video_id: &[char]) -> (r: Vec<char>)
    requires
        char_spans_ok(t@, index_spans(cs@)),
    ensures
        r@ == linked(t@, index_spans(cs@), video_id@),
{
    let ghost ic = index_spans(cs@);
    let mut out: Vec<char> = Vec::new();
    let mut pos: usize = 0;
    let mut k: usize = 0;
    assert(ic.take(0) =~= Seq::<(int, int)>::empty());
    while k < cs.len()
        invariant
            k <= cs@.len(),
            ic == index_spans(cs@),
            char_spans_ok(t@, ic),
            pos <= t@.len(),
            k == 0 ==> pos == 0,
            k > 0 ==> pos == cs@[k - 1].1,
            out@ == linked_prefix(t@, ic.take(k as int), video_id@),
        decreases cs@.len() - k,
    {
        let (s, e) = cs[k];
        assert(ic[k as int] == (s as int, e as int));
        if k > 0 {
            assert(ic[k - 1] == (cs@[k - 1].0 as int, cs@[k - 1].1 as int));
        }
        let ghost tk = ic.take(k + 1);
        assert(tk.drop_last() == ic.take(k as int));
        assert(tk.last() == ic[k as int]);
        if k > 0 {
            assert(ic.take(k as int).last() == ic[k - 1]);
        }
        let gap = slice_range(t, pos, s);
        extend_chars(&mut out, gap.as_slice());
        render_match(t, s, e, video_id, &mut out);
        assert(out@ =~= linked_prefix(t@, tk, video_id@));
        pos = e;
        k = k + 1;
    }
    assert(ic.take(cs@.len() as int) == ic);
    if cs.len() > 0 {
        assert(ic.last() == (cs@[cs@.len() - 1].0 as int, cs@[cs@.len() - 1].1 as int));
    }
    let rest = slice_range(t, pos, t.len());
    extend_chars(&mut out, rest.as_slice());
    out
}

/// Links the timestamps in a text, given the byte ranges where the pattern
/// matched (as `find_iter` reports them).
pub fn link_timestamps(text: &str, spans: &Vec<(usize, usize)>, video_id: &str) -> (r: String)
    requires
        spans_ok(text@, spans@),
    ensures
        r@ == linked(text@, char_spans(text@, spans@), video_id@),
{
    let t = to_chars(text);
    let cs = to_char_spans(t.as_slice(), spans);
    let id = to_chars(video_id);
    let out = link_chars(t.as_slice(), &cs, id.as_slice());
    from_chars(out.as_slice())
}

/// Replaces the timestamps in a text with links to the video at that time.
pub fn replace_timestamps_for_video(html: &str, video_id: &str) -> (r: String)
    ensures
        r@ == link_text(html@, video_id@),
{
    match find_matches(TIMESTAMP_PATTERN, html) {
        Some(spans) => link_timestamps(html, &spans, video_id),
        None => {
            let t = to_chars(html);
            from_chars(t.as_slice())
        },
    }
}

/// No match, no change.
pub proof fn lemma_no_matches_unchanged(t: Seq<char>, video_id: Seq<char>)
    ensures
        linked(t, Seq::empty(), video_id) == t,
{
    assert(t.subrange(0, t.len() as int) =~= t);
}

// ---------------------------------------------------------------------
// Summaries of one or several videos
// ---------------------------------------------------------------------

/// The links of a source that are YouTube videos, with their video ids.
pub open spec fn video_mappings(urls: Seq<Seq<char>>) -> Seq<(Seq<char>, Seq<char>)>
    decreases urls.len(),
{
    if urls.len() == 0 {
        seq![]
    } else {
        let p = video_mappings(urls.drop_last());
        match youtube_id(urls.last()) {
            Some(id) => p.push((urls.last(), id)),
            None => p,
        }
    }
}

/// The video of the first mapping whose link occurs in the line.
pub open spec fn matching_video(line: Seq<char>, maps: Seq<(Seq<char>, Seq<char>)>) -> Option<
    Seq<char>,
>
    decreases maps.len(),
{
    if maps.len() == 0 {
        None
    } else {
        let prev = matching_video(line, maps.drop_last());
        if prev is Some {
            prev
        } else if contains(line, maps.last().0) {
            Some(maps.last().1)
        } else {
            None
        }
    }
}

/// The video that is active after reading the lines: the one last named by a
/// line, or `first` when none names one.
pub open spec fn active_after(
    ls: Seq<Seq<char>>,
    maps: Seq<(Seq<char>, Seq<char>)>,
    first: Seq<char>,
) -> Seq<char>
    decreases ls.len(),
{
    if ls.len() == 0 {
        first
    } else {
        match matching_video(ls.last(), maps) {
            Some(v) => v,
            None => active_after(ls.drop_last(), maps, first),
        }
    }
}

/// Each line with its timestamps linked to the video active at that line.
pub open spec fn linked_lines(
    ls: Seq<Seq<char>>,
    maps: Seq<(Seq<char>, Seq<char>)>,
    first: Seq<char>,
) -> Seq<Seq<char>>
    decreases ls.len(),
{
    if ls.len() == 0 {
        seq![]
    } else {
        linked_lines(ls.drop_last(), maps, first).push(
            link_text(ls.last(), active_after(ls, maps, first)),
        )
    }
}

/// The rendered summary with its timestamps linked: to the one video of the
/// source; or, for a source of several links, line by line to the video
/// whose link the summary last mentioned (the first video until one is
/// mentioned).  Without a YouTube link the text is unchanged.
pub open spec fn timestamps_linked(html: Seq<char>, source: Seq<char>) -> Seq<char> {
    let urls = url_items(source);
    if urls.len() == 0 {
        html
    } else if urls.len() == 1 {
        match youtube_id(urls[0]) {
            Some(id) => link_text(html, id),
            None => html,
        }
    } else {
        let maps = video_mappings(urls);
        if maps.len() == 0 {
            html
        } else {
            join_lines(linked_lines(lines(html), maps, maps[0].1))
        }
    }
}

pub open spec fn mapping_views(v: Seq<(String, String)>) -> Seq<(Seq<char>, Seq<char>)> {
    v.map_values(|p: (String, String)| (p.0@, p.1@))
}

fn copy_string(s: &String) -> (r: String)
    ensures
        r@ == s@,
{
    let v = to_chars(s.as_str());
    from_chars(v.as_slice())
}

fn video_mappings_exec(urls: &Vec<String>) -> (r: Vec<(String, String)>)
    ensures
        mapping_views(r@) == video_mappings(urls@.map_values(|s: String| s@)),
{
    let ghost us = urls@.map_values(|s: String| s@);
    let mut r: Vec<(String, String)> = Vec::new();
    let mut i: usize = 0;
    assert(us.take(0) =~= Seq::<Seq<char>>::empty());
    while i < urls.len()
        invariant
            i <= urls@.len(),
            us == urls@.map_values(|s: String| s@),
            mapping_views(r@) == video_mappings(us.take(i as int)),
        decreases urls@.len() - i,
    {
        let ghost t = us.take(i + 1);
        assert(t.drop_last() == us.take(i as int));
        assert(t.last() == urls@[i as int]@);
        let ghost before = mapping_views(r@);
        match validate_youtube_url(urls[i].as_str()) {
            Some(id) => {
                r.push((copy_string(&urls[i]), id));
                assert(mapping_views(r@) =~= before.push((urls@[i as int]@, id@)));
            },
            None => {},
        }
        i = i + 1;
    }
    assert(us.take(urls@.len() as int) == us);
    r
}

fn matching_video_exec(line: &[char], maps: &Vec<(String, String)>) -> (r: Option<usize>)
    ensures
        r matches Some(k) ==> k < maps@.len() && matching_video(line@, mapping_views(maps@)) == Some(
            maps@[k as int].1@,
        ),
        r is None ==> matching_video(line@, mapping_views(maps@)) is None,
{
    let ghost mv = mapping_views(maps@);
    let mut k: usize = 0;
    assert(mv.take(0) =~= Seq::<(Seq<char>, Seq<char>)>::empty());
    while k < maps.len()
        invariant
            k <= maps@.len(),
            mv == mapping_views(maps@),
            matching_video(line@, mv.take(k as int)) is None,
        decreases maps@.len() - k,
    {
        let ghost t = mv.take(k + 1);
        assert(t.drop_last() == mv.take(k as int));
        assert(t.last() == (maps@[k as int].0@, maps@[k as int].1@));
        let u = to_chars(maps[k].0.as_str());
        if contains_exec(line, u.as_slice()) {
            proof {
                lemma_matching_video_prefix(line@, mv, k as int + 1);
            }
            return Some(k);
        }
        k = k + 1;
    }
    assert(mv.take(maps@.len() as int) == mv);
    None
}

/// The first match among a prefix of the mappings stays the first match.
proof fn lemma_matching_video_prefix(line: Seq<char>, maps: Seq<(Seq<char>, Seq<char>)>, n: int)
    requires
        0 <= n <= maps.len(),
        matching_video(line, maps.take(n)) is Some,
    ensures
        matching_video(line, maps) == matching_video(line, maps.take(n)),
    decreases maps.len() - n,
{
    if n < maps.len() {
        let t = maps.take(n + 1);
        assert(t.drop_last() == maps.take(n));
        lemma_matching_video_prefix(line, maps, n + 1);
    } else {
        assert(maps.take(n) == maps);
    }
}

/// Replaces the timestamps (`MM:SS` or `HH:MM:SS`) of a rendered summary with
/// links to the YouTube video at that time; with several videos, each line
/// links to the video it falls under.  Without a valid YouTube URL the text
/// is returned unchanged.
pub fn replace_timestamps_in_html(html: &str, youtube_url: &str) -> (r: String)
    ensures
        r@ == timestamps_linked(html@, youtube_url@),
{
    let urls = split_urls(youtube_url);
    let ghost us = urls@.map_values(|s: String| s@);
    assert(us.len() == urls@.len());
    if urls.len() == 0 {
        let v = to_chars(html);
        return from_chars(v.as_slice());
    }
    if urls.len() == 1 {
        assert(us[0] == urls@[0]@);
        return match validate_youtube_url(urls[0].as_str()) {
            Some(id) => replace_timestamps_for_video(html, id.as_str()),
            None => {
                let v = to_chars(html);
                from_chars(v.as_slice())
            },
        };
    }
    let maps = video_mappings_exec(&urls);
    let ghost mv = mapping_views(maps@);
    assert(mv.len() == maps@.len());
    if maps.len() == 0 {
        let v = to_chars(html);
        return from_chars(v.as_slice());
    }
    assert(mv[0] == (maps@[0].0@, maps@[0].1@));
    let mut active = copy_string(&maps[0].1);
    let ghost first = maps@[0].1@;
    let hv = to_chars(html);
    let ls = lines_of(hv.as_slice());
    let ghost sl = seqs(ls@);
    let mut out: Vec<char> = Vec::new();
    let mut i: usize = 0;
    assert(sl.take(0) =~= Seq::<Seq<char>>::empty());
    while i < ls.len()
        invariant
            i <= ls@.len(),
            sl == seqs(ls@),
            mv == mapping_views(maps@),
            active@ == active_after(sl.take(i as int), mv, first),
            out@ == join_lines(linked_lines(sl.take(i as int), mv, first)),
        decreases ls@.len() - i,
    {
        let ghost t = sl.take(i + 1);
        assert(t.drop_last() == sl.take(i as int));
        assert(t.last() == ls@[i as int]@);
        match matching_video_exec(ls[i].as_slice(), &maps) {
            Some(k) => {
                active = copy_string(&maps[k].1);
            },
            None => {},
        }
        assert(active@ == active_after(t, mv, first));
        let line = from_chars(ls[i].as_slice());
        let linked_line = replace_timestamps_for_video(line.as_str(), active.as_str());
        let ghost prev = linked_lines(sl.take(i as int), mv, first);
        assert(linked_lines(t, mv, first) == prev.push(linked_line@));
        if i > 0 {
            out.push('\n');
        }
        extend_str(&mut out, linked_line.as_str());
        proof {
            lemma_linked_lines_len(sl.take(i as int), mv, first);
            assert(prev.len() == i);
            if i == 0 {
                assert(prev.push(linked_line@) =~= seq![linked_line@]);
            } else {
                assert(prev.push(linked_line@).drop_last() == prev);
            }
        }
        assert(out@ =~= join_lines(linked_lines(t, mv, first)));
        i = i + 1;
    }
    assert(sl.take(ls@.len() as int) == sl);
    from_chars(out.as_slice())
}

proof fn lemma_linked_lines_len(ls: Seq<Seq<char>>, maps: Seq<(Seq<char>, Seq<char>)>, first: Seq<char>)
    ensures
        linked_lines(ls, maps, first).len() == ls.len(),
    decreases ls.len(),
{
    if ls.len() > 0 {
        lemma_linked_lines_len(ls.drop_last(), maps, first);
    }
}

proof fn lemma_no_videos(urls: Seq<Seq<char>>)
    requires
        forall|i: int| 0 <= i < urls.len() ==> youtube_id(#[trigger] urls[i]) is None,
    ensures
        video_mappings(urls).len() == 0,
    decreases urls.len(),
{
    if urls.len() > 0 {
        let p = urls.drop_last();
        assert forall|i: int| 0 <= i < p.len() implies youtube_id(#[trigger] p[i]) is None by {
            assert(p[i] == urls[i]);
        }
        lemma_no_videos(p);
        assert(youtube_id(urls[urls.len() - 1]) is None);
    }
}

/// When no link of the source is a YouTube video, the summary is unchanged.
pub proof fn lemma_no_video_unchanged(html: Seq<char>, source: Seq<char>)
    requires
        forall|i: int|
            0 <= i < url_items(source).len() ==> youtube_id(#[trigger] url_items(source)[i]) is None,
    ensures
        timestamps_linked(html, source) == html,
{
    let urls = url_items(source);
    if urls.len() == 1 {
        assert(youtube_id(urls[0]) is None);
    }
    if urls.len() > 1 {
        lemma_no_videos(urls);
    }
}

/// Every mapping is a YouTube link of the source with its video id.
proof fn lemma_video_mappings_entries(urls: Seq<Seq<char>>)
    ensures
        forall|m: int|
            0 <= m < video_mappings(urls).len() ==> urls.contains(
                (#[trigger] video_mappings(urls)[m]).0,
            ) && youtube_id(video_mappings(urls)[m].0) == Some(video_mappings(urls)[m].1),
    decreases urls.len(),
{
    if urls.len() > 0 {
        let d = urls.drop_last();
        lemma_video_mappings_entries(d);
        let p = video_mappings(d);
        let maps = video_mappings(urls);
        assert forall|m: int| 0 <= m < maps.len() implies urls.contains(
            (#[trigger] maps[m]).0,
        ) && youtube_id(maps[m].0) == Some(maps[m].1) by {
            if m < p.len() {
                assert(maps[m] == p[m]);
                let j = choose|j: int| 0 <= j < d.len() && d[j] == p[m].0;
                assert(urls[j] == d[j]);
            } else {
                assert(urls[urls.len() - 1] == urls.last());
            }
        }
    }
}

/// The first mapping is the first link of the source that is a YouTube video.
proof fn lemma_video_mappings_first(urls: Seq<Seq<char>>, k: int)
    requires
        0 <= k < urls.len(),
        youtube_id(urls[k]) is Some,
        forall|j: int| 0 <= j < k ==> youtube_id(#[trigger] urls[j]) is None,
    ensures
        video_mappings(urls).len() > 0,
        video_mappings(urls)[0] == (urls[k], youtube_id(urls[k])->0),
    decreases urls.len(),
{
    let d = urls.drop_last();
    if k < urls.len() - 1 {
        assert(d[k] == urls[k]);
        assert forall|j: int| 0 <= j < k implies youtube_id(#[trigger] d[j]) is None by {
            assert(d[j] == urls[j]);
        }
        lemma_video_mappings_first(d, k);
    } else {
        assert forall|j: int| 0 <= j < d.len() implies youtube_id(#[trigger] d[j]) is None by {
            assert(d[j] == urls[j]);
        }
        lemma_no_videos(d);
        assert(urls.last() == urls[k]);
    }
}

/// A line naming none of the mapped links switches to no video.
proof fn lemma_matching_video_none(line: Seq<char>, maps: Seq<(Seq<char>, Seq<char>)>)
    requires
        forall|m: int| 0 <= m < maps.len() ==> !contains(line, (#[trigger] maps[m]).0),
    ensures
        matching_video(line, maps) is None,
    decreases maps.len(),
{
    if maps.len() > 0 {
        let d = maps.drop_last();
        assert forall|m: int| 0 <= m < d.len() implies !contains(line, (#[trigger] d[m]).0) by {
            assert(d[m] == maps[m]);
        }
        lemma_matching_video_none(line, d);
        assert(maps.last() == maps[maps.len() - 1]);
    }
}

/// Each linked line is its line linked to the video active once it is read.
proof fn lemma_linked_lines_at(
    ls: Seq<Seq<char>>,
    maps: Seq<(Seq<char>, Seq<char>)>,
    first: Seq<char>,
    i: int,
)
    requires
        0 <= i < ls.len(),
    ensures
        linked_lines(ls, maps, first).len() == ls.len(),
        linked_lines(ls, maps, first)[i] == link_text(ls[i], active_after(ls.take(i + 1), maps, first)),
    decreases ls.len(),
{
    lemma_linked_lines_len(ls, maps, first);
    if i < ls.len() - 1 {
        let d = ls.drop_last();
        lemma_linked_lines_at(d, maps, first, i);
        assert(d[i] == ls[i]);
        assert(d.take(i + 1) == ls.take(i + 1));
    } else {
        assert(ls.take(i + 1) == ls);
    }
}

/// While no line read so far names a mapped link, the first video stays
/// active.
proof fn lemma_active_stays_first(
    ls: Seq<Seq<char>>,
    maps: Seq<(Seq<char>, Seq<char>)>,
    first: Seq<char>,
)
    requires
        forall|l: int, m: int|
            0 <= l < ls.len() && 0 <= m < maps.len() ==> !contains(#[trigger] ls[l], (#[trigger] maps[m]).0),
    ensures
        active_after(ls, maps, first) == first,
    decreases ls.len(),
{
    if ls.len() > 0 {
        let d = ls.drop_last();
        assert forall|l: int, m: int|
            0 <= l < d.len() && 0 <= m < maps.len() implies !contains(#[trigger] d[l], (#[trigger] maps[m]).0) by {
            assert(d[l] == ls[l]);
        }
        lemma_active_stays_first(d, maps, first);
        assert forall|m: int| 0 <= m < maps.len() implies !contains(ls.last(), (#[trigger] maps[m]).0) by {
            assert(ls.last() == ls[ls.len() - 1]);
        }
        lemma_matching_video_none(ls.last(), maps);
    }
}

/// For a source of several links, the summary starts out linked to the video
/// of the first YouTube link of the source: the result is the lines linked
/// one by one starting from that video, and every line up to the first line
/// that names one of the source's YouTube links is linked to it.
pub proof fn lemma_first_video_until_mentioned(html: Seq<char>, source: Seq<char>, k: int)
    requires
        url_items(source).len() >= 2,
        0 <= k < url_items(source).len(),
        youtube_id(url_items(source)[k]) is Some,
        forall|j: int| 0 <= j < k ==> youtube_id(#[trigger] url_items(source)[j]) is None,
    ensures
        timestamps_linked(html, source) == join_lines(
            linked_lines(
                lines(html),
                video_mappings(url_items(source)),
                youtube_id(url_items(source)[k])->0,
            ),
        ),
        forall|i: int|
            0 <= i < lines(html).len() && (forall|l: int, u: int|
                0 <= l <= i && 0 <= u < url_items(source).len() && youtube_id(url_items(source)[u])
                    is Some ==> !contains(#[trigger] lines(html)[l], #[trigger] url_items(source)[u]))
                ==> #[trigger] linked_lines(
                lines(html),
                video_mappings(url_items(source)),
                youtube_id(url_items(source)[k])->0,
            )[i] == link_text(lines(html)[i], youtube_id(url_items(source)[k])->0),
{
    let urls = url_items(source);
    let maps = video_mappings(urls);
    let first = youtube_id(urls[k])->0;
    let ls = lines(html);
    lemma_video_mappings_first(urls, k);
    lemma_video_mappings_entries(urls);
    assert forall|i: int|
        0 <= i < ls.len() && (forall|l: int, u: int|
            0 <= l <= i && 0 <= u < urls.len() && youtube_id(urls[u]) is Some ==> !contains(
                #[trigger] ls[l],
                #[trigger] urls[u],
            )) implies #[trigger] linked_lines(ls, maps, first)[i] == link_text(ls[i], first) by {
        lemma_linked_lines_at(ls, maps, first, i);
        let t = ls.take(i + 1);
        assert forall|l: int, m: int|
            0 <= l < t.len() && 0 <= m < maps.len() implies !contains(#[trigger] t[l], (#[trigger] maps[m]).0) by {
            assert(t[l] == ls[l]);
            let u = choose|u: int| 0 <= u < urls.len() && urls[u] == maps[m].0;
            assert(youtube_id(urls[u]) is Some);
        }
        lemma_active_stays_first(t, maps, first);
    }
}

/// A line names no mapped link when it names none of the source's YouTube
/// links.
proof fn lemma_no_mention_no_match(line: Seq<char>, urls: Seq<Seq<char>>)
    requires
        forall|v: int|
            0 <= v < urls.len() && youtube_id(urls[v]) is Some ==> !contains(line, #[trigger] urls[v]),
    ensures
        matching_video(line, video_mappings(urls)) is None,
{
    let maps = video_mappings(urls);
    lemma_video_mappings_entries(urls);
    assert forall|m: int| 0 <= m < maps.len() implies !contains(line, (#[trigger] maps[m]).0) by {
        let v = choose|v: int| 0 <= v < urls.len() && urls[v] == maps[m].0;
        assert(youtube_id(urls[v]) is Some);
    }
    lemma_matching_video_none(line, maps);
}

/// The video a line switches to is that of the first YouTube link of the
/// source, in source order, that the line names.
proof fn lemma_matching_first_mentioned(line: Seq<char>, urls: Seq<Seq<char>>, u: int)
    requires
        0 <= u < urls.len(),
        youtube_id(urls[u]) is Some,
        contains(line, urls[u]),
        forall|v: int|
            0 <= v < u && youtube_id(urls[v]) is Some ==> !contains(line, #[trigger] urls[v]),
    ensures
        matching_video(line, video_mappings(urls)) == Some(youtube_id(urls[u])->0),
    decreases urls.len(),
{
    let d = urls.drop_last();
    let pd = video_mappings(d);
    if u < d.len() {
        assert(d[u] == urls[u]);
        assert forall|v: int|
            0 <= v < u && youtube_id(d[v]) is Some implies !contains(line, #[trigger] d[v]) by {
            assert(d[v] == urls[v]);
        }
        lemma_matching_first_mentioned(line, d, u);
        match youtube_id(urls.last()) {
            Some(id) => {
                assert(pd.push((urls.last(), id)).drop_last() == pd);
            },
            None => {},
        }
    } else {
        assert forall|v: int|
            0 <= v < d.len() && youtube_id(d[v]) is Some implies !contains(line, #[trigger] d[v]) by {
            assert(d[v] == urls[v]);
        }
        lemma_no_mention_no_match(line, d);
        assert(urls.last() == urls[u]);
        let id = youtube_id(urls[u])->0;
        assert(pd.push((urls.last(), id)).drop_last() == pd);
    }
}

/// After a naming line and lines that name nothing, the video is the one the
/// naming line switched to.
proof fn lemma_active_after_mention(
    ls: Seq<Seq<char>>,
    urls: Seq<Seq<char>>,
    first: Seq<char>,
    j: int,
    u: int,
)
    requires
        0 <= j < ls.len(),
        0 <= u < urls.len(),
        youtube_id(urls[u]) is Some,
        contains(ls[j], urls[u]),
        forall|v: int|
            0 <= v < u && youtube_id(urls[v]) is Some ==> !contains(ls[j], #[trigger] urls[v]),
        forall|l: int, v: int|
            j < l < ls.len() && 0 <= v < urls.len() && youtube_id(urls[v]) is Some ==> !contains(
                #[trigger] ls[l],
                #[trigger] urls[v],
            ),
    ensures
        active_after(ls, video_mappings(urls), first) == youtube_id(urls[u])->0,
    decreases ls.len(),
{
    let d = ls.drop_last();
    if j == ls.len() - 1 {
        assert(ls.last() == ls[j]);
        lemma_matching_first_mentioned(ls.last(), urls, u);
    } else {
        assert(ls.last() == ls[ls.len() - 1]);
        assert forall|v: int|
            0 <= v < urls.len() && youtube_id(urls[v]) is Some implies !contains(
                ls.last(),
                #[trigger] urls[v],
            ) by {
            assert(!contains(ls[ls.len() - 1], urls[v]));
        }
        lemma_no_mention_no_match(ls.last(), urls);
        assert(d[j] == ls[j]);
        assert forall|l: int, v: int|
            j < l < d.len() && 0 <= v < urls.len() && youtube_id(urls[v]) is Some implies !contains(
                #[trigger] d[l],
                #[trigger] urls[v],
            ) by {
            assert(d[l] == ls[l]);
        }
        lemma_active_after_mention(d, urls, first, j, u);
    }
}

/// A line that names one of the source's YouTube links switches the linking
/// to the video of the first such link it names (in source order), and the
/// lines after it keep that video until another line names a link.
pub proof fn lemma_video_of_last_mention(
    html: Seq<char>,
    source: Seq<char>,
    first: Seq<char>,
    i: int,
    j: int,
    u: int,
)
    requires
        0 <= j <= i < lines(html).len(),
        0 <= u < url_items(source).len(),
        youtube_id(url_items(source)[u]) is Some,
        contains(lines(html)[j], url_items(source)[u]),
        forall|v: int|
            0 <= v < u && youtube_id(url_items(source)[v]) is Some ==> !contains(
                lines(html)[j],
                #[trigger] url_items(source)[v],
            ),
        forall|l: int, v: int|
            j < l <= i && 0 <= v < url_items(source).len() && youtube_id(url_items(source)[v])
                is Some ==> !contains(#[trigger] lines(html)[l], #[trigger] url_items(source)[v]),
    ensures
        linked_lines(lines(html), video_mappings(url_items(source)), first)[i] == link_text(
            lines(html)[i],
            youtube_id(url_items(source)[u])->0,
        ),
{
    let ls = lines(html);
    let urls = url_items(source);
    lemma_linked_lines_at(ls, video_mappings(urls), first, i);
    let t = ls.take(i + 1);
    assert(t[j] == ls[j]);
    assert forall|l: int, v: int|
        j < l < t.len() && 0 <= v < urls.len() && youtube_id(urls[v]) is Some implies !contains(
            #[trigger] t[l],
            #[trigger] urls[v],
        ) by {
        assert(t[l] == ls[l]);
    }
    lemma_active_after_mention(t, urls, first, j, u);
}

} // verus!
