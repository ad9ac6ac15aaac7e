use vstd::prelude::*;
use crate::text::{to_chars, from_chars, trim, trim_range, slice_range, contains, str_contains,
    find_from, occurs_at, first_occurrence_from, is_blank, all_ws, seqs, extend_chars,
    lemma_trim_empty, chars_eq};
use crate::split::{split_char, split_on, lines, lines_of, lemma_split_char_len, lemma_split_char_last};
use crate::num::{parse_u64_or0, parse_u64_or_zero, dec2, push_dec2};

verus! {

// ---------------------------------------------------------------------
// Tag stripping
// ---------------------------------------------------------------------

/// Scanning state after `s`: whether a tag is open, and the text kept so far.
pub open spec fn tag_scan(s: Seq<char>) -> (bool, Seq<char>)
    decreases s.len(),
{
    if s.len() == 0 {
        (false, Seq::empty())
    } else {
        let (in_tag, out) = tag_scan(s.drop_last());
        let c = s.last();
        if c == '<' {
            (true, out)
        } else if c == '>' {
            (false, out)
        } else if !in_tag {
            (false, out.push(c))
        } else {
            (true, out)
        }
    }
}

/// The text with every `<...>` cue tag removed: characters between a `<` and
/// the next `>` are dropped, and so are the brackets.
pub open spec fn strip_tags(s: Seq<char>) -> Seq<char> {
    tag_scan(s).1
}

fn strip_vtt_tags_chars(text: &[char]) -> (r: Vec<char>)
    ensures
        r@ == strip_tags(text@),
{
    let mut result: Vec<char> = Vec::new();
    let mut in_tag = false;
    let mut i: usize = 0;
    assert(text@.take(0) == Seq::<char>::empty());
    while i < text.len()
        invariant
            i <= text@.len(),
            tag_scan(text@.take(i as int)) == (in_tag, result@),
        decreases text@.len() - i,
    {
        let ch = text[i];
        assert(text@.take(i + 1).drop_last() == text@.take(i as int));
        assert(text@.take(i + 1).last() == ch);
        if ch == '<' {
            in_tag = true;
        } else if ch == '>' {
            in_tag = false;
        } else if !in_tag {
            result.push(ch);
        }
        i = i + 1;
    }
    assert(text@.take(text@.len() as int) == text@);
    result
}

/// Strips WebVTT cue tags (e.g. `<00:00:01.350>`, `<c>`, `</c>`) from text.
pub fn strip_vtt_tags(text: &str) -> (r: String)
    ensures
        r@ == strip_tags(text@),
{
    let v = to_chars(text);
    let r = strip_vtt_tags_chars(v.as_slice());
    from_chars(r.as_slice())
}

/// Stripping tags leaves no angle bracket behind, and stripping twice is the
/// same as stripping once.
pub proof fn lemma_strip_tags_clean(s: Seq<char>)
    ensures
        forall|i: int| 0 <= i < strip_tags(s).len() ==> #[trigger] strip_tags(s)[i] != '<'
            && strip_tags(s)[i] != '>',
        strip_tags(strip_tags(s)) == strip_tags(s),
    decreases s.len(),
{
    if s.len() > 0 {
        lemma_strip_tags_clean(s.drop_last());
    }
    lemma_strip_plain(strip_tags(s));
}

proof fn lemma_strip_plain(s: Seq<char>)
    requires
        forall|i: int| 0 <= i < s.len() ==> #[trigger] s[i] != '<' && s[i] != '>',
    ensures
        tag_scan(s) == (false, s),
    decreases s.len(),
{
    if s.len() > 0 {
        lemma_strip_plain(s.drop_last());
        assert(s.drop_last().push(s.last()) == s);
    }
}

// ---------------------------------------------------------------------
// Timestamps
// ---------------------------------------------------------------------

/// `HH:MM:SS` for the start of a cue: the hour, minute and second fields of a
/// `HH:MM:SS.mmm` or `MM:SS.mmm` timestamp (an unparsable field counts as 0,
/// milliseconds are dropped), each printed with at least two digits; any
/// other shape gives `00:00:00`.
pub open spec fn hms(ts: Seq<char>) -> Seq<char> {
    let parts = split_char(ts, ':');
    if parts.len() == 3 || parts.len() == 2 {
        let h: u64 = if parts.len() == 3 {
            parse_u64_or0(parts[0])
        } else {
            0
        };
        let m: u64 = if parts.len() == 3 {
            parse_u64_or0(parts[1])
        } else {
            parse_u64_or0(parts[0])
        };
        let sec_part = if parts.len() == 3 {
            parts[2]
        } else {
            parts[1]
        };
        let s: u64 = parse_u64_or0(split_char(sec_part, '.')[0]);
        dec2(h as nat) + seq![':'] + dec2(m as nat) + seq![':'] + dec2(s as nat)
    } else {
        "00:00:00"@
    }
}

fn parse_timestamp_chars(ts: &[char]) -> (r: Vec<char>)
    ensures
        r@ == hms(ts@),
{
    let parts = split_on(ts, ':');
    proof {
        lemma_split_char_len(ts@, ':');
    }
    assert(seqs(parts@).len() == parts@.len());
    let n = parts.len();
    if n == 3 || n == 2 {
        let h: u64 = if n == 3 {
            parse_u64_or_zero(parts[0].as_slice())
        } else {
            0
        };
        let m: u64 = if n == 3 {
            parse_u64_or_zero(parts[1].as_slice())
        } else {
            parse_u64_or_zero(parts[0].as_slice())
        };
        let sec_part: &Vec<char> = if n == 3 {
            &parts[2]
        } else {
            &parts[1]
        };
        let sp = split_on(sec_part.as_slice(), '.');
        proof {
            lemma_split_char_len(sec_part@, '.');
        }
        assert(seqs(sp@)[0] == sp@[0]@);
        let s: u64 = parse_u64_or_zero(sp[0].as_slice());
        let mut out: Vec<char> = Vec::new();
        push_dec2(&mut out, h);
        out.push(':');
        push_dec2(&mut out, m);
        out.push(':');
        push_dec2(&mut out, s);
        proof {
            let p = split_char(ts@, ':');
            assert(p == seqs(parts@));
            assert(p[0] == parts@[0]@);
            assert(p[1] == parts@[1]@);
            if n == 3 {
                assert(p[2] == parts@[2]@);
            }
        }
        assert(out@ =~= hms(ts@));
        out
    } else {
        let r = to_chars("00:00:00");
        r
    }
}

/// Parses a VTT timestamp (`HH:MM:SS.mmm` or `MM:SS.mmm`) into `HH:MM:SS`.
pub fn parse_timestamp_to_hms(ts_str: &str) -> (r: String)
    ensures
        r@ == hms(ts_str@),
{
    let v = to_chars(ts_str);
    let r = parse_timestamp_chars(v.as_slice());
    from_chars(r.as_slice())
}

} // verus!

verus! {

// ---------------------------------------------------------------------
// Cues
// ---------------------------------------------------------------------

pub open spec fn is_blank_line(l: Seq<char>) -> bool {
    trim(l).len() == 0
}

/// The blocks of a VTT file: maximal groups of consecutive non-blank lines.
pub open spec fn blocks(ls: Seq<Seq<char>>) -> Seq<Seq<Seq<char>>>
    decreases ls.len(),
{
    if ls.len() == 0 {
        seq![]
    } else {
        let prev = blocks(ls.drop_last());
        let l = ls.last();
        if is_blank_line(l) {
            prev
        } else if ls.len() == 1 || is_blank_line(ls[ls.len() - 2]) {
            prev.push(seq![l])
        } else {
            prev.update(prev.len() - 1, prev.last().push(l))
        }
    }
}

pub open spec fn seqs2(v: Seq<Vec<Vec<char>>>) -> Seq<Seq<Seq<char>>> {
    v.map_values(|b: Vec<Vec<char>>| seqs(b@))
}

proof fn lemma_blocks_nonempty(ls: Seq<Seq<char>>)
    requires
        ls.len() > 0,
        !is_blank_line(ls.last()),
    ensures
        blocks(ls).len() > 0,
    decreases ls.len(),
{
    if ls.len() > 1 && !is_blank_line(ls[ls.len() - 2]) {
        assert(ls.drop_last().last() == ls[ls.len() - 2]);
        lemma_blocks_nonempty(ls.drop_last());
    }
}

fn copy_chars(v: &Vec<char>) -> (r: Vec<char>)
    ensures
        r@ == v@,
{
    let r = slice_range(v.as_slice(), 0, v.len());
    assert(r@ =~= v@);
    r
}

fn group_blocks(ls: &Vec<Vec<char>>) -> (r: Vec<Vec<Vec<char>>>)
    ensures
        seqs2(r@) == blocks(seqs(ls@)),
{
    let ghost s = seqs(ls@);
    let mut r: Vec<Vec<Vec<char>>> = Vec::new();
    let mut cur: Vec<Vec<char>> = Vec::new();
    let mut in_block = false;
    let mut i: usize = 0;
    assert(s.take(0) == Seq::<Seq<char>>::empty());
    while i < ls.len()
        invariant
            i <= ls@.len(),
            s == seqs(ls@),
            in_block == (i > 0 && !is_blank_line(s[i - 1])),
            in_block ==> seqs2(r@).push(seqs(cur@)) == blocks(s.take(i as int)),
            !in_block ==> seqs2(r@) == blocks(s.take(i as int)),
        decreases ls@.len() - i,
    {
        let ghost t = s.take(i + 1);
        assert(t.drop_last() == s.take(i as int));
        assert(t.last() == s[i as int]);
        assert(s[i as int] == ls@[i as int]@);
        if i > 0 {
            assert(t[t.len() - 2] == s[i - 1]);
        }
        let ghost rb = seqs2(r@);
        let ghost cb = seqs(cur@);
        let blank = is_blank(ls[i].as_slice());
        if blank {
            if in_block {
                r.push(cur);
                assert(seqs2(r@) =~= rb.push(cb));
                cur = Vec::new();
            }
            in_block = false;
        } else {
            let line = copy_chars(&ls[i]);
            if in_block {
                cur.push(line);
                assert(seqs(cur@) =~= cb.push(s[i as int]));
                assert(seqs2(r@).push(seqs(cur@)) =~= blocks(t));
            } else {
                cur = Vec::new();
                cur.push(line);
                assert(seqs(cur@) =~= seq![s[i as int]]);
                assert(seqs2(r@).push(seqs(cur@)) =~= blocks(t));
            }
            in_block = true;
        }
        i = i + 1;
    }
    if in_block {
        let ghost rb = seqs2(r@);
        let ghost cb = seqs(cur@);
        r.push(cur);
        assert(seqs2(r@) =~= rb.push(cb));
    }
    assert(s.take(s.len() as int) == s);
    r
}

/// The first line of a block that holds a `-->` timing arrow.
pub open spec fn timing_index(b: Seq<Seq<char>>) -> Option<int>
    decreases b.len(),
{
    if b.len() == 0 {
        None
    } else {
        match timing_index(b.drop_last()) {
            Some(k) => Some(k),
            None => if contains(b.last(), "-->"@) {
                Some(b.len() - 1)
            } else {
                None
            },
        }
    }
}

proof fn lemma_timing_index(b: Seq<Seq<char>>, k: int)
    requires
        0 <= k <= b.len(),
        forall|j: int| 0 <= j < k ==> !contains(#[trigger] b[j], "-->"@),
    ensures
        k < b.len() && contains(b[k], "-->"@) ==> timing_index(b) == Some(k),
        k == b.len() ==> timing_index(b) is None,
    decreases b.len(),
{
    if b.len() > 0 {
        if k < b.len() {
            if k < b.len() - 1 {
                assert forall|j: int| 0 <= j < k implies !contains(
                    #[trigger] b.drop_last()[j],
                    "-->"@,
                ) by {
                    assert(b.drop_last()[j] == b[j]);
                }
                lemma_timing_index(b.drop_last(), k);
            } else {
                assert forall|j: int| 0 <= j < k implies !contains(
                    #[trigger] b.drop_last()[j],
                    "-->"@,
                ) by {
                    assert(b.drop_last()[j] == b[j]);
                }
                lemma_timing_index(b.drop_last(), k);
            }
        } else {
            assert forall|j: int| 0 <= j < k - 1 implies !contains(
                #[trigger] b.drop_last()[j],
                "-->"@,
            ) by {
                assert(b.drop_last()[j] == b[j]);
            }
            lemma_timing_index(b.drop_last(), k - 1);
            assert(!contains(b[k - 1], "-->"@));
        }
    }
}

/// Where `pat` first occurs in `line`.
pub open spec fn first_index(line: Seq<char>, pat: Seq<char>) -> int {
    choose|i: int| first_occurrence_from(line, pat, 0, i)
}

pub proof fn lemma_first_index(line: Seq<char>, pat: Seq<char>, i: int)
    requires
        first_occurrence_from(line, pat, 0, i),
    ensures
        first_index(line, pat) == i,
{
    let j = first_index(line, pat);
    assert(first_occurrence_from(line, pat, 0, j));
    if j < i {
        assert(!occurs_at(line, pat, j));
    }
    if i < j {
        assert(!occurs_at(line, pat, i));
    }
}

/// Lines joined with newlines.
pub open spec fn join_lines(ls: Seq<Seq<char>>) -> Seq<char>
    decreases ls.len(),
{
    if ls.len() == 0 {
        Seq::empty()
    } else if ls.len() == 1 {
        ls[0]
    } else {
        join_lines(ls.drop_last()) + seq!['\n'] + ls.last()
    }
}

/// The cue of a block: its start time (from the text before the first `-->`
/// of the timing line) and its payload, the lines after the timing line.
/// A block without a timing line, or with nothing after it, has no cue.
pub open spec fn block_cue(b: Seq<Seq<char>>) -> Option<(Seq<char>, Seq<char>)> {
    match timing_index(b) {
        None => None,
        Some(k) => if k + 1 >= b.len() {
            None
        } else {
            let line = b[k];
            Some(
                (
                    hms(trim(line.take(first_index(line, "-->"@)))),
                    join_lines(b.skip(k + 1)),
                ),
            )
        },
    }
}

pub open spec fn cues_of(bs: Seq<Seq<Seq<char>>>) -> Seq<(Seq<char>, Seq<char>)>
    decreases bs.len(),
{
    if bs.len() == 0 {
        seq![]
    } else {
        match block_cue(bs.last()) {
            Some(c) => cues_of(bs.drop_last()).push(c),
            None => cues_of(bs.drop_last()),
        }
    }
}

/// The cues of a VTT document, in order.
pub open spec fn vtt_cues(content: Seq<char>) -> Seq<(Seq<char>, Seq<char>)> {
    cues_of(blocks(lines(content)))
}

/// A parsed cue: its `HH:MM:SS` start and its payload text.
#[derive(Debug)]
pub struct Cue {
    pub start_timestamp: String,
    pub payload: String,
}

fn join_from(b: &Vec<Vec<char>>, k: usize) -> (r: Vec<char>)
    requires
        k < b@.len(),
    ensures
        r@ == join_lines(seqs(b@).skip(k as int)),
{
    let ghost s = seqs(b@).skip(k as int);
    assert(b@.len() == b.len());
    let mut r = copy_chars(&b[k]);
    let mut i: usize = k + 1;
    assert(s.take(1) =~= seq![s[0]]);
    assert(s[0] == b@[k as int]@);
    while i < b.len()
        invariant
            k < i <= b@.len(),
            s == seqs(b@).skip(k as int),
            r@ == join_lines(s.take(i - k)),
        decreases b@.len() - i,
    {
        let ghost t = s.take(i - k + 1);
        assert(t.drop_last() == s.take(i - k));
        assert(t.last() == b@[i as int]@);
        r.push('\n');
        extend_chars(&mut r, b[i].as_slice());
        assert(r@ =~= join_lines(t));
        i = i + 1;
    }
    assert(s.take(b@.len() - k) == s);
    r
}

fn block_to_cue(b: &Vec<Vec<char>>) -> (r: Option<(Vec<char>, Vec<char>)>)
    ensures
        r is Some <==> block_cue(seqs(b@)) is Some,
        r matches Some(c) ==> block_cue(seqs(b@)) == Some((c.0@, c.1@)),
{
    let ghost s = seqs(b@);
    let arrow = to_chars("-->");
    let mut k: usize = 0;
    while k < b.len() && !crate::text::contains_exec(b[k].as_slice(), arrow.as_slice())
        invariant
            k <= b@.len(),
            s == seqs(b@),
            arrow@ == "-->"@,
            forall|j: int| 0 <= j < k ==> !contains(#[trigger] s[j], "-->"@),
        decreases b@.len() - k,
    {
        assert(s[k as int] == b@[k as int]@);
        k = k + 1;
    }
    proof {
        if k < b@.len() {
            assert(s[k as int] == b@[k as int]@);
        }
        lemma_timing_index(s, k as int);
    }
    if k >= b.len() || k + 1 >= b.len() {
        return None;
    }
    let line = &b[k];
    assert(s[k as int] == line@);
    let pos = match find_from(line.as_slice(), arrow.as_slice(), 0) {
        Some(p) => p,
        None => {
            assert(false);
            0
        },
    };
    proof {
        lemma_first_index(line@, "-->"@, pos as int);
    }
    let before = slice_range(line.as_slice(), 0, pos);
    assert(before@ =~= line@.take(pos as int));
    let t = crate::text::trim_chars(before.as_slice());
    let start = parse_timestamp_chars(t.as_slice());
    let payload = join_from(b, k + 1);
    assert(s.skip(k + 1) == seqs(b@).skip(k + 1));
    Some((start, payload))
}

fn cues_from_blocks(bs: &Vec<Vec<Vec<char>>>) -> (r: Vec<Cue>)
    ensures
        r@.map_values(|c: Cue| (c.start_timestamp@, c.payload@)) == cues_of(seqs2(bs@)),
{
    let ghost s = seqs2(bs@);
    let mut r: Vec<Cue> = Vec::new();
    let mut i: usize = 0;
    assert(s.take(0) == Seq::<Seq<Seq<char>>>::empty());
    while i < bs.len()
        invariant
            i <= bs@.len(),
            s == seqs2(bs@),
            r@.map_values(|c: Cue| (c.start_timestamp@, c.payload@)) == cues_of(s.take(i as int)),
        decreases bs@.len() - i,
    {
        let ghost t = s.take(i + 1);
        assert(t.drop_last() == s.take(i as int));
        assert(t.last() == seqs(bs@[i as int]@));
        let ghost rb = r@.map_values(|c: Cue| (c.start_timestamp@, c.payload@));
        match block_to_cue(&bs[i]) {
            Some((start, payload)) => {
                let cue = Cue { start_timestamp: from_chars(start.as_slice()), payload: from_chars(payload.as_slice()) };
                r.push(cue);
                assert(r@.map_values(|c: Cue| (c.start_timestamp@, c.payload@)) =~= rb.push(
                    (start@, payload@),
                ));
            },
            None => {},
        }
        i = i + 1;
    }
    assert(s.take(s.len() as int) == s);
    r
}

/// Parses VTT content into cues: blank lines separate blocks, blocks without a
/// `-->` timing line (or with nothing after it) are skipped, and the payload
/// is the lines after the timing line joined with newlines.
pub fn parse_cues(vtt_content: &str) -> (r: Vec<Cue>)
    ensures
        r@.map_values(|c: Cue| (c.start_timestamp@, c.payload@)) == vtt_cues(vtt_content@),
{
    let v = to_chars(vtt_content);
    let ls = lines_of(v.as_slice());
    let bs = group_blocks(&ls);
    cues_from_blocks(&bs)
}

// ---------------------------------------------------------------------
// Transcript assembly
// ---------------------------------------------------------------------

/// The last caption line of a cue payload, once its tags are stripped.
pub open spec fn caption_line(payload: Seq<char>) -> Seq<char> {
    split_char(strip_tags(payload), '\n').last()
}

/// The caption kept for a cue is the last line of its payload once the tags
/// are stripped: it ends the stripped payload, holds no line break, and is
/// either the whole stripped payload or comes right after a line break.
pub proof fn lemma_caption_is_last_line(payload: Seq<char>)
    ensures
        caption_line(payload).len() <= strip_tags(payload).len(),
        caption_line(payload) == strip_tags(payload).skip(
            strip_tags(payload).len() - caption_line(payload).len(),
        ),
        forall|i: int| 0 <= i < caption_line(payload).len() ==> #[trigger] caption_line(payload)[i] != '\n',
        caption_line(payload).len() < strip_tags(payload).len() ==> strip_tags(payload)[strip_tags(
            payload,
        ).len() - caption_line(payload).len() - 1] == '\n',
{
    lemma_split_char_last(strip_tags(payload), '\n');
}

/// Deduplication state after a run of cues `(start, payload)`: the entries
/// `(caption, time)` kept so far, the caption last seen and its start time.
/// A caption is kept once the next cue arrives, and only when it differs from
/// the last kept entry.
pub open spec fn vtt_fold(cs: Seq<(Seq<char>, Seq<char>)>) -> (
    Seq<(Seq<char>, Seq<char>)>,
    Seq<char>,
    Seq<char>,
)
    decreases cs.len(),
{
    if cs.len() == 0 {
        (seq![(Seq::<char>::empty(), Seq::<char>::empty())], "__bla__"@, "00:00:00"@)
    } else {
        let prev = vtt_fold(cs.drop_last());
        let kept = if prev.0.last().0 != prev.1 {
            prev.0.push((prev.1, prev.2))
        } else {
            prev.0
        };
        (kept, caption_line(cs.last().1), cs.last().0)
    }
}

/// Entries after the first two (which only come from the initial state).
pub open spec fn drop_initial(es: Seq<(Seq<char>, Seq<char>)>) -> Seq<(Seq<char>, Seq<char>)> {
    if es.len() <= 2 {
        Seq::empty()
    } else {
        es.skip(2)
    }
}

/// One `time caption` line per entry.
pub open spec fn render_entries(es: Seq<(Seq<char>, Seq<char>)>) -> Seq<char>
    decreases es.len(),
{
    if es.len() == 0 {
        Seq::empty()
    } else {
        render_entries(es.drop_last()) + es.last().1 + seq![' '] + es.last().0 + seq!['\n']
    }
}

/// The transcript of a VTT document.
pub open spec fn vtt_transcript(content: Seq<char>) -> Seq<char> {
    render_entries(drop_initial(vtt_fold(vtt_cues(content)).0))
}

pub open spec fn cue_views(cs: Seq<Cue>) -> Seq<(Seq<char>, Seq<char>)> {
    cs.map_values(|c: Cue| (c.start_timestamp@, c.payload@))
}

pub open spec fn entry_views(v: Seq<(Vec<char>, Vec<char>)>) -> Seq<(Seq<char>, Seq<char>)> {
    v.map_values(|p: (Vec<char>, Vec<char>)| (p.0@, p.1@))
}

fn caption_of(payload: &str) -> (r: Vec<char>)
    ensures
        r@ == caption_line(payload@),
{
    let v = to_chars(payload);
    let clean = strip_vtt_tags_chars(v.as_slice());
    let pieces = split_on(clean.as_slice(), '\n');
    proof {
        lemma_split_char_len(clean@, '\n');
    }
    assert(seqs(pieces@).len() == pieces@.len());
    let n = pieces.len();
    assert(seqs(pieces@)[n - 1] == pieces@[n - 1]@);
    copy_chars(&pieces[n - 1])
}

fn dedup_entries(cues: &Vec<Cue>) -> (r: Vec<(Vec<char>, Vec<char>)>)
    ensures
        entry_views(r@) == vtt_fold(cue_views(cues@)).0,
{
    let ghost cs = cue_views(cues@);
    let mut out: Vec<(Vec<char>, Vec<char>)> = Vec::new();
    out.push((Vec::new(), Vec::new()));
    let mut old_last = to_chars("__bla__");
    let mut old_time = to_chars("00:00:00");
    let mut i: usize = 0;
    assert(cs.take(0) == Seq::<(Seq<char>, Seq<char>)>::empty());
    assert(entry_views(out@) =~= seq![(Seq::<char>::empty(), Seq::<char>::empty())]);
    while i < cues.len()
        invariant
            i <= cues@.len(),
            cs == cue_views(cues@),
            out@.len() >= 1,
            (entry_views(out@), old_last@, old_time@) == vtt_fold(cs.take(i as int)),
        decreases cues@.len() - i,
    {
        let ghost t = cs.take(i + 1);
        assert(t.drop_last() == cs.take(i as int));
        assert(t.last() == (cues@[i as int].start_timestamp@, cues@[i as int].payload@));
        let ghost ev = entry_views(out@);
        let n = out.len();
        assert(ev.last() == (out@[n - 1].0@, out@[n - 1].1@));
        if !chars_eq(out[n - 1].0.as_slice(), old_last.as_slice()) {
            out.push((copy_chars(&old_last), copy_chars(&old_time)));
            assert(entry_views(out@) =~= ev.push((old_last@, old_time@)));
        }
        old_last = caption_of(cues[i].payload.as_str());
        old_time = to_chars(cues[i].start_timestamp.as_str());
        i = i + 1;
    }
    assert(cs.take(cues@.len() as int) == cs);
    out
}

fn render_transcript(out: &Vec<(Vec<char>, Vec<char>)>) -> (r: Vec<char>)
    ensures
        r@ == render_entries(drop_initial(entry_views(out@))),
{
    let ghost ev = entry_views(out@);
    let mut r: Vec<char> = Vec::new();
    if out.len() <= 2 {
        return r;
    }
    let mut j: usize = 2;
    assert(ev.subrange(2, 2) == Seq::<(Seq<char>, Seq<char>)>::empty());
    while j < out.len()
        invariant
            2 <= j <= out@.len(),
            ev == entry_views(out@),
            r@ == render_entries(ev.subrange(2, j as int)),
        decreases out@.len() - j,
    {
        let ghost sub = ev.subrange(2, j + 1);
        assert(sub.drop_last() == ev.subrange(2, j as int));
        assert(sub.last() == (out@[j as int].0@, out@[j as int].1@));
        extend_chars(&mut r, out[j].1.as_slice());
        r.push(' ');
        extend_chars(&mut r, out[j].0.as_slice());
        r.push('\n');
        assert(r@ =~= render_entries(sub));
        j = j + 1;
    }
    assert(ev.subrange(2, ev.len() as int) == ev.skip(2));
    r
}

/// Parses WebVTT content into a deduplicated transcript with
/// second-granularity timestamps: for each cue the last caption line (tags
/// stripped) is kept, consecutive repeats are dropped, the first two entries
/// (which come from the initial state) are skipped, and each entry becomes a
/// line `HH:MM:SS caption`.
pub fn parse_vtt(vtt_content: &str) -> (r: String)
    ensures
        r@ == vtt_transcript(vtt_content@),
{
    let cues = parse_cues(vtt_content);
    assert(cue_views(cues@) == vtt_cues(vtt_content@));
    let out = dedup_entries(&cues);
    let r = render_transcript(&out);
    from_chars(r.as_slice())
}

/// No two entries in a row carry the same caption: a caption is kept only
/// when it differs from the last one kept.
pub proof fn lemma_no_consecutive_repeats(cs: Seq<(Seq<char>, Seq<char>)>)
    ensures
        vtt_fold(cs).0.len() >= 1,
        forall|k: int|
            0 <= k < vtt_fold(cs).0.len() - 1 ==> (#[trigger] vtt_fold(cs).0[k]).0 != vtt_fold(
                cs,
            ).0[k + 1].0,
    decreases cs.len(),
{
    if cs.len() > 0 {
        lemma_no_consecutive_repeats(cs.drop_last());
        let prev = vtt_fold(cs.drop_last());
        let out = vtt_fold(cs).0;
        if prev.0.last().0 != prev.1 {
            assert forall|k: int| 0 <= k < out.len() - 1 implies (#[trigger] out[k]).0 != out[k
                + 1].0 by {
                if k < prev.0.len() - 1 {
                    assert(out[k] == prev.0[k] && out[k + 1] == prev.0[k + 1]);
                } else {
                    assert(out[k] == prev.0.last());
                }
            }
        }
    }
}

} // verus!
