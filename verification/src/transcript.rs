use vstd::prelude::*;
use crate::text::{to_chars, from_chars, trim, trim_chars, contains, starts_with, ends_with,
    str_contains, starts_with_exec, ends_with_exec, chars_eq, seqs, extend_chars, extend_str,
    is_blank};
use crate::split::{lines, lines_of, words, split_whitespace};
use crate::strops::{lex_le, lex_le_exec, lemma_lex_total, lemma_lex_trans, ascii_lower,
    to_ascii_lowercase};
use crate::num::{dec, push_dec, idec, push_idec};
use crate::vtt_parser::{parse_vtt, vtt_transcript};

verus! {

// ---------------------------------------------------------------------
// Language codes
// ---------------------------------------------------------------------

/// Preferred base languages, most preferred first.
pub open spec fn preferred_bases() -> Seq<Seq<char>> {
    seq!["en"@, "de"@, "fr"@, "es"@, "pt"@, "it"@, "nl"@, "ja"@, "ko"@, "zh"@]
}

fn preferred_bases_exec() -> (r: Vec<&'static str>)
    ensures
        r@.map_values(|s: &str| s@) == preferred_bases(),
{
    let r = vec!["en", "de", "fr", "es", "pt", "it", "nl", "ja", "ko", "zh"];
    assert(r@.map_values(|s: &str| s@) =~= preferred_bases());
    r
}

pub open spec fn is_ascii_lower(c: char) -> bool {
    'a' <= c && c <= 'z'
}

pub open spec fn is_code_char(c: char) -> bool {
    ||| 'a' <= c && c <= 'z'
    ||| 'A' <= c && c <= 'Z'
    ||| '0' <= c && c <= '9'
    ||| c == '-'
}

/// Letters, digits and hyphens, starting with a lowercase letter
/// (`en`, `en-orig`, `zh-Hans`, `en-US`).
pub open spec fn is_lang_code(s: Seq<char>) -> bool {
    &&& s.len() > 0
    &&& forall|i: int| 0 <= i < s.len() ==> #[trigger] is_code_char(s[i])
    &&& is_ascii_lower(s[0])
}

fn is_lang_code_chars(s: &[char]) -> (r: bool)
    ensures
        r == is_lang_code(s@),
{
    if s.len() == 0 {
        return false;
    }
    let mut i: usize = 0;
    while i < s.len()
        invariant
            i <= s@.len(),
            forall|k: int| 0 <= k < i ==> #[trigger] is_code_char(s@[k]),
        decreases s@.len() - i,
    {
        let c = s[i];
        if !(('a' <= c && c <= 'z') || ('A' <= c && c <= 'Z') || ('0' <= c && c <= '9') || c
            == '-') {
            assert(!is_code_char(s@[i as int]));
            return false;
        }
        i = i + 1;
    }
    'a' <= s[0] && s[0] <= 'z'
}

/// Whether `s` looks like a language code.
pub fn is_language_code(s: &str) -> (r: bool)
    ensures
        r == is_lang_code(s@),
{
    let v = to_chars(s);
    is_lang_code_chars(v.as_slice())
}

/// Scanning state over the lines of a subtitle listing: whether we are inside
/// a table of languages, and the codes collected so far.  A line mentioning
/// "Available subtitles" or "Available automatic captions" opens a listing
/// whose header row ("Language ... Formats") starts the table; a blank line
/// ends it; each row with at least two columns contributes its first column
/// when that is a language code.
pub open spec fn lang_scan(ls: Seq<Seq<char>>) -> (bool, Seq<Seq<char>>)
    decreases ls.len(),
{
    if ls.len() == 0 {
        (false, seq![])
    } else {
        let prev = lang_scan(ls.drop_last());
        let t = trim(ls.last());
        if contains(t, "Available subtitles"@) || contains(t, "Available automatic captions"@) {
            (false, prev.1)
        } else if starts_with(t, "Language"@) && contains(t, "Formats"@) {
            (true, prev.1)
        } else if !prev.0 {
            (false, prev.1)
        } else if t.len() == 0 {
            (false, prev.1)
        } else {
            let ws = words(t);
            if ws.len() >= 2 && is_lang_code(ws[0]) {
                (true, prev.1.push(ws[0]))
            } else {
                (true, prev.1)
            }
        }
    }
}

/// The language codes listed in `yt-dlp --list-subs` output, in order.
pub open spec fn language_codes(out: Seq<char>) -> Seq<Seq<char>> {
    lang_scan(lines(out)).1
}

fn language_codes_chars(v: &[char]) -> (r: Vec<Vec<char>>)
    ensures
        seqs(r@) == language_codes(v@),
{
    let ls = lines_of(v);
    let ghost sl = seqs(ls@);
    let mut codes: Vec<Vec<char>> = Vec::new();
    let mut in_section = false;
    let mut i: usize = 0;
    assert(sl.take(0) == Seq::<Seq<char>>::empty());
    assert(seqs(codes@) =~= Seq::<Seq<char>>::empty());
    let lang = to_chars("Language");
    while i < ls.len()
        invariant
            i <= ls@.len(),
            sl == seqs(ls@),
            lang@ == "Language"@,
            lang_scan(sl.take(i as int)) == (in_section, seqs(codes@)),
        decreases ls@.len() - i,
    {
        let ghost tk = sl.take(i + 1);
        assert(tk.drop_last() == sl.take(i as int));
        assert(tk.last() == ls@[i as int]@);
        let t = trim_chars(ls[i].as_slice());
        if str_contains(t.as_slice(), "Available subtitles") || str_contains(
            t.as_slice(),
            "Available automatic captions",
        ) {
            in_section = false;
        } else if starts_with_exec(t.as_slice(), lang.as_slice()) && str_contains(
            t.as_slice(),
            "Formats",
        ) {
            in_section = true;
        } else if !in_section {
        } else if t.len() == 0 {
            in_section = false;
        } else {
            let ws = split_whitespace(t.as_slice());
            assert(seqs(ws@).len() == ws@.len());
            if ws.len() >= 2 {
                assert(seqs(ws@)[0] == ws@[0]@);
                if is_lang_code_chars(ws[0].as_slice()) {
                    let ghost before = seqs(codes@);
                    let c = crate::text::slice_range(ws[0].as_slice(), 0, ws[0].len());
                    assert(c@ =~= ws@[0]@);
                    codes.push(c);
                    assert(seqs(codes@) =~= before.push(ws@[0]@));
                }
            }
        }
        i = i + 1;
    }
    assert(sl.take(ls@.len() as int) == sl);
    codes
}

fn strings_of(v: &Vec<Vec<char>>) -> (r: Vec<String>)
    ensures
        r@.map_values(|s: String| s@) == seqs(v@),
{
    let mut r: Vec<String> = Vec::new();
    let mut i: usize = 0;
    while i < v.len()
        invariant
            i <= v@.len(),
            r@.map_values(|s: String| s@) == seqs(v@).take(i as int),
        decreases v@.len() - i,
    {
        let ghost before = r@.map_values(|s: String| s@);
        let s = from_chars(v[i].as_slice());
        r.push(s);
        assert(r@.map_values(|s: String| s@) =~= before.push(v@[i as int]@));
        assert(seqs(v@).take(i + 1) =~= seqs(v@).take(i as int).push(v@[i as int]@));
        i = i + 1;
    }
    assert(seqs(v@).take(v@.len() as int) == seqs(v@));
    r
}

// ---------------------------------------------------------------------
// Choosing a language
// ---------------------------------------------------------------------

/// The first preferred base `b` (from position `k` on) for which `b + suffix`
/// is listed, as `b + suffix`.
pub open spec fn first_preferred(langs: Seq<Seq<char>>, suffix: Seq<char>, k: nat) -> Option<
    Seq<char>,
>
    decreases preferred_bases().len() - k,
{
    if k >= preferred_bases().len() {
        None
    } else if langs.contains(preferred_bases()[k as int] + suffix) {
        Some(preferred_bases()[k as int] + suffix)
    } else {
        first_preferred(langs, suffix, k + 1)
    }
}

/// Which listed codes take part in a lexicographic choice.
pub enum Affix {
    Suffix,
    Prefix,
    Any,
}

pub open spec fn affix_ok(a: Affix, pat: Seq<char>, s: Seq<char>) -> bool {
    match a {
        Affix::Suffix => ends_with(s, pat),
        Affix::Prefix => starts_with(s, pat),
        Affix::Any => true,
    }
}

/// The lexicographically least code among those that `a`/`pat` admit (what
/// sorting them and taking the first gives).
pub open spec fn lex_min_where(s: Seq<Seq<char>>, a: Affix, pat: Seq<char>) -> Option<Seq<char>>
    decreases s.len(),
{
    if s.len() == 0 {
        None
    } else {
        let prev = lex_min_where(s.drop_last(), a, pat);
        let x = s.last();
        if !affix_ok(a, pat, x) {
            prev
        } else {
            match prev {
                None => Some(x),
                Some(y) => if lex_le(y, x) {
                    Some(y)
                } else {
                    Some(x)
                },
            }
        }
    }
}

/// The subtitle language to download, by priority: a preferred base with
/// `-orig` (in preference order); the least `-orig` code; a preferred base
/// itself; the least code starting with `en`; the least code of all.
pub open spec fn best_language(langs: Seq<Seq<char>>) -> Option<Seq<char>> {
    if langs.len() == 0 {
        None
    } else if first_preferred(langs, "-orig"@, 0) is Some {
        first_preferred(langs, "-orig"@, 0)
    } else if lex_min_where(langs, Affix::Suffix, "-orig"@) is Some {
        lex_min_where(langs, Affix::Suffix, "-orig"@)
    } else if first_preferred(langs, Seq::empty(), 0) is Some {
        first_preferred(langs, Seq::empty(), 0)
    } else if lex_min_where(langs, Affix::Prefix, "en"@) is Some {
        lex_min_where(langs, Affix::Prefix, "en"@)
    } else {
        lex_min_where(langs, Affix::Any, Seq::empty())
    }
}

fn listed(langs: &Vec<Vec<char>>, x: &[char]) -> (r: bool)
    ensures
        r == seqs(langs@).contains(x@),
{
    let mut i: usize = 0;
    while i < langs.len()
        invariant
            i <= langs@.len(),
            forall|k: int| 0 <= k < i ==> langs@[k]@ != x@,
        decreases langs@.len() - i,
    {
        if chars_eq(langs[i].as_slice(), x) {
            assert(seqs(langs@)[i as int] == x@);
            return true;
        }
        i = i + 1;
    }
    assert forall|k: int| 0 <= k < seqs(langs@).len() implies seqs(langs@)[k] != x@ by {
        assert(seqs(langs@)[k] == langs@[k]@);
    }
    false
}

fn first_preferred_exec(langs: &Vec<Vec<char>>, suffix: &str) -> (r: Option<Vec<char>>)
    ensures
        r matches Some(v) ==> first_preferred(seqs(langs@), suffix@, 0) == Some(v@),
        r is None ==> first_preferred(seqs(langs@), suffix@, 0) is None,
{
    let bases = preferred_bases_exec();
    let ghost ls = seqs(langs@);
    let mut k: usize = 0;
    while k < bases.len()
        invariant
            k <= bases@.len(),
            bases@.map_values(|s: &str| s@) == preferred_bases(),
            ls == seqs(langs@),
            first_preferred(ls, suffix@, 0) == first_preferred(ls, suffix@, k as nat),
        decreases bases@.len() - k,
    {
        let mut cand = to_chars(bases[k]);
        extend_str(&mut cand, suffix);
        assert(preferred_bases()[k as int] == bases@[k as int]@);
        if listed(langs, cand.as_slice()) {
            return Some(cand);
        }
        k = k + 1;
    }
    None
}

fn lex_min_exec(langs: &Vec<Vec<char>>, a: Affix, pat: &str) -> (r: Option<Vec<char>>)
    ensures
        r matches Some(v) ==> lex_min_where(seqs(langs@), a, pat@) == Some(v@),
        r is None ==> lex_min_where(seqs(langs@), a, pat@) is None,
{
    let ghost ls = seqs(langs@);
    let p = to_chars(pat);
    let mut best: Option<Vec<char>> = None;
    let mut i: usize = 0;
    assert(ls.take(0) == Seq::<Seq<char>>::empty());
    while i < langs.len()
        invariant
            i <= langs@.len(),
            ls == seqs(langs@),
            p@ == pat@,
            best matches Some(v) ==> lex_min_where(ls.take(i as int), a, pat@) == Some(v@),
            best is None ==> lex_min_where(ls.take(i as int), a, pat@) is None,
        decreases langs@.len() - i,
    {
        let ghost t = ls.take(i + 1);
        assert(t.drop_last() == ls.take(i as int));
        assert(t.last() == langs@[i as int]@);
        let x = langs[i].as_slice();
        let ok = match a {
            Affix::Suffix => ends_with_exec(x, p.as_slice()),
            Affix::Prefix => starts_with_exec(x, p.as_slice()),
            Affix::Any => true,
        };
        if ok {
            let replace = match &best {
                None => true,
                Some(y) => !lex_le_exec(y.as_slice(), x),
            };
            if replace {
                best = Some(crate::text::slice_range(x, 0, x.len()));
                assert(x@.subrange(0, x@.len() as int) =~= x@);
            }
        }
        i = i + 1;
    }
    assert(ls.take(langs@.len() as int) == ls);
    best
}

fn best_language_exec(langs: &Vec<Vec<char>>) -> (r: Option<Vec<char>>)
    ensures
        r matches Some(v) ==> best_language(seqs(langs@)) == Some(v@),
        r is None ==> best_language(seqs(langs@)) is None,
{
    if langs.len() == 0 {
        return None;
    }
    let c1 = first_preferred_exec(langs, "-orig");
    if c1.is_some() {
        return c1;
    }
    let c2 = lex_min_exec(langs, Affix::Suffix, "-orig");
    if c2.is_some() {
        return c2;
    }
    let c3 = first_preferred_exec(langs, "");
    if c3.is_some() {
        proof {
            reveal_strlit("");
            assert(""@ =~= Seq::<char>::empty());
        }
        return c3;
    }
    proof {
        reveal_strlit("");
        assert(""@ =~= Seq::<char>::empty());
    }
    let c4 = lex_min_exec(langs, Affix::Prefix, "en");
    if c4.is_some() {
        return c4;
    }
    lex_min_exec(langs, Affix::Any, "")
}

// ---------------------------------------------------------------------
// Laws of the choice
// ---------------------------------------------------------------------

proof fn lemma_first_preferred_listed(langs: Seq<Seq<char>>, suffix: Seq<char>, k: nat)
    ensures
        first_preferred(langs, suffix, k) matches Some(x) ==> langs.contains(x),
    decreases preferred_bases().len() - k,
{
    if k < preferred_bases().len() && !langs.contains(preferred_bases()[k as int] + suffix) {
        lemma_first_preferred_listed(langs, suffix, k + 1);
    }
}

/// The least admitted code is listed, is admitted, is no greater than any
/// other admitted code, and exists as soon as some code is admitted.
pub proof fn lemma_lex_min_where(s: Seq<Seq<char>>, a: Affix, pat: Seq<char>)
    ensures
        lex_min_where(s, a, pat) matches Some(x) ==> {
            &&& s.contains(x)
            &&& affix_ok(a, pat, x)
            &&& forall|i: int| 0 <= i < s.len() && affix_ok(a, pat, s[i]) ==> lex_le(x, s[i])
        },
        lex_min_where(s, a, pat) is None ==> forall|i: int|
            0 <= i < s.len() ==> !affix_ok(a, pat, #[trigger] s[i]),
    decreases s.len(),
{
    if s.len() > 0 {
        let p = s.drop_last();
        lemma_lex_min_where(p, a, pat);
        let x = s.last();
        let n = s.len() - 1;
        assert(s[n] == x);
        assert forall|i: int| 0 <= i < p.len() implies s[i] == #[trigger] p[i] by {}
        lemma_lex_total(x, x);
        match lex_min_where(p, a, pat) {
            None => {
                if affix_ok(a, pat, x) {
                    assert(s.contains(x));
                    assert forall|i: int|
                        0 <= i < s.len() && affix_ok(a, pat, s[i]) implies lex_le(x, s[i]) by {
                        if i < n {
                            assert(!affix_ok(a, pat, p[i]));
                        }
                    }
                } else {
                    assert forall|i: int| 0 <= i < s.len() implies !affix_ok(a, pat, #[trigger] s[i]) by {
                        if i < n {
                            assert(!affix_ok(a, pat, p[i]));
                        }
                    }
                }
            },
            Some(y) => {
                let j = choose|j: int| 0 <= j < p.len() && p[j] == y;
                assert(s[j] == y);
                if !affix_ok(a, pat, x) || lex_le(y, x) {
                    assert(s.contains(y));
                    assert forall|i: int|
                        0 <= i < s.len() && affix_ok(a, pat, s[i]) implies lex_le(y, s[i]) by {
                        if i < n {
                            assert(lex_le(y, p[i]));
                        }
                    }
                } else {
                    lemma_lex_total(y, x);
                    assert(s.contains(x));
                    assert forall|i: int|
                        0 <= i < s.len() && affix_ok(a, pat, s[i]) implies lex_le(x, s[i]) by {
                        if i < n {
                            assert(lex_le(y, p[i]));
                            lemma_lex_trans(x, y, p[i]);
                        }
                    }
                }
            },
        }
    }
}

/// A language is chosen exactly when some code is listed, and the choice is
/// one of the listed codes.
pub proof fn lemma_best_language_listed(langs: Seq<Seq<char>>)
    ensures
        best_language(langs) is Some <==> langs.len() > 0,
        best_language(langs) matches Some(x) ==> langs.contains(x),
{
    lemma_first_preferred_listed(langs, "-orig"@, 0);
    lemma_first_preferred_listed(langs, Seq::empty(), 0);
    lemma_lex_min_where(langs, Affix::Suffix, "-orig"@);
    lemma_lex_min_where(langs, Affix::Prefix, "en"@);
    lemma_lex_min_where(langs, Affix::Any, Seq::empty());
    if langs.len() > 0 {
        assert(affix_ok(Affix::Any, Seq::empty(), langs[0]));
    }
}

proof fn lemma_first_preferred_at(langs: Seq<Seq<char>>, suffix: Seq<char>, k: nat, i: int)
    requires
        k <= i < preferred_bases().len(),
        langs.contains(preferred_bases()[i] + suffix),
        forall|j: int| k <= j < i ==> !langs.contains(#[trigger] preferred_bases()[j] + suffix),
    ensures
        first_preferred(langs, suffix, k) == Some(preferred_bases()[i] + suffix),
    decreases i - k,
{
    if k < i {
        assert(!langs.contains(preferred_bases()[k as int] + suffix));
        lemma_first_preferred_at(langs, suffix, k + 1, i);
    }
}

proof fn lemma_first_preferred_none_orig(langs: Seq<Seq<char>>, k: nat)
    requires
        forall|m: int| 0 <= m < langs.len() ==> !ends_with(#[trigger] langs[m], "-orig"@),
    ensures
        first_preferred(langs, "-orig"@, k) is None,
    decreases preferred_bases().len() - k,
{
    if k < preferred_bases().len() {
        let x = preferred_bases()[k as int] + "-orig"@;
        assert(x.subrange(x.len() - "-orig"@.len(), x.len() as int) =~= "-orig"@);
        assert(ends_with(x, "-orig"@));
        lemma_first_preferred_none_orig(langs, k + 1);
    }
}

/// The documented order of base languages: English first, then German,
/// French, Spanish, Portuguese, Italian, Dutch, Japanese, Korean, Chinese.
pub open spec fn documented_base_order() -> Seq<Seq<char>> {
    seq![
        "en"@,
        "de"@,
        "fr"@,
        "es"@,
        "pt"@,
        "it"@,
        "nl"@,
        "ja"@,
        "ko"@,
        "zh"@,
    ]
}

/// Without `-orig` codes, the base languages are preferred in the order en,
/// de, fr, es, pt, it, nl, ja, ko, zh: the first of them that is listed is
/// chosen.
pub proof fn lemma_preferred_base_order(langs: Seq<Seq<char>>, i: int)
    requires
        0 <= i < 10,
        forall|m: int| 0 <= m < langs.len() ==> !ends_with(#[trigger] langs[m], "-orig"@),
        langs.contains(documented_base_order()[i]),
        forall|j: int|
            0 <= j < i ==> !langs.contains(#[trigger] documented_base_order()[j]),
    ensures
        best_language(langs) == Some(documented_base_order()[i]),
{
    let order = documented_base_order();
    assert(preferred_bases() =~= order);
    assert forall|j: int| 0 <= j < 10 implies #[trigger] preferred_bases()[j] + Seq::<char>::empty() == order[j] by {
        assert(preferred_bases()[j] + Seq::<char>::empty() =~= order[j]);
    }
    lemma_first_preferred_none_orig(langs, 0);
    lemma_lex_min_where(langs, Affix::Suffix, "-orig"@);
    assert(lex_min_where(langs, Affix::Suffix, "-orig"@) is None);
    assert forall|j: int| 0 <= j < i implies !langs.contains(#[trigger] preferred_bases()[j] + Seq::<char>::empty()) by {
        assert(!langs.contains(order[j]));
    }
    lemma_first_preferred_at(langs, Seq::empty(), 0, i);
    assert(langs.len() > 0);
}

/// Original-language tracks come first: when `b-orig` is listed for some base
/// language `b`, the chosen code is `b-orig` for the first such `b` in the
/// documented order.
pub proof fn lemma_preferred_orig_order(langs: Seq<Seq<char>>, i: int)
    requires
        0 <= i < 10,
        langs.contains(documented_base_order()[i] + "-orig"@),
        forall|j: int|
            0 <= j < i ==> !langs.contains(#[trigger] documented_base_order()[j] + "-orig"@),
    ensures
        best_language(langs) == Some(documented_base_order()[i] + "-orig"@),
{
    let order = documented_base_order();
    assert(preferred_bases() =~= order);
    lemma_first_preferred_at(langs, "-orig"@, 0, i);
}

// ---------------------------------------------------------------------
// The service
// ---------------------------------------------------------------------

/// Downloads and parses YouTube transcripts into a scratch directory.
pub struct TranscriptService {
    temp_dir: String,
}

impl View for TranscriptService {
    type V = Seq<char>;

    /// The scratch directory.
    closed spec fn view(&self) -> Seq<char> {
        self.temp_dir@
    }
}

impl TranscriptService {
    pub fn new(temp_dir: &str) -> (r: Self)
        ensures
            r@ == temp_dir@,
    {
        let v = to_chars(temp_dir);
        TranscriptService { temp_dir: from_chars(v.as_slice()) }
    }

    /// The scratch directory that downloads go to.
    pub fn temp_dir(&self) -> (r: String)
        ensures
            r@ == self@,
    {
        let v = to_chars(self.temp_dir.as_str());
        from_chars(v.as_slice())
    }

    /// Parses the language codes from `yt-dlp --list-subs` output.
    pub fn parse_language_codes(&self, list_output: &str) -> (r: Vec<String>)
        ensures
            r@.map_values(|s: String| s@) == language_codes(list_output@),
    {
        let v = to_chars(list_output);
        let codes = language_codes_chars(v.as_slice());
        strings_of(&codes)
    }

    /// Selects the best subtitle language from `yt-dlp --list-subs` output.
    pub fn pick_best_language(&self, list_output: &str) -> (r: Option<String>)
        ensures
            r matches Some(s) ==> best_language(language_codes(list_output@)) == Some(s@),
            r is None ==> best_language(language_codes(list_output@)) is None,
    {
        let v = to_chars(list_output);
        let codes = language_codes_chars(v.as_slice());
        match best_language_exec(&codes) {
            Some(c) => Some(from_chars(c.as_slice())),
            None => None,
        }
    }
}

// ---------------------------------------------------------------------
// Errors
// ---------------------------------------------------------------------

/// Why a transcript could not be obtained.
#[derive(Debug)]
pub enum TranscriptError {
    InvalidUrl(String),
    NoSubtitles,
    YtDlpFailed(String),
    Timeout(u64),
    ParseError(String),
}

/// The text a transcript error is shown with.
pub open spec fn transcript_error_text(e: TranscriptError) -> Seq<char> {
    match e {
        TranscriptError::InvalidUrl(u) => "Invalid YouTube URL: "@ + u@,
        TranscriptError::NoSubtitles => "No subtitles available for this video"@,
        TranscriptError::YtDlpFailed(m) => "yt-dlp execution failed: "@ + m@,
        TranscriptError::Timeout(s) => "Download timeout after "@ + dec(s as nat) + "s"@,
        TranscriptError::ParseError(m) => "VTT parse error: "@ + m@,
    }
}

impl TranscriptError {
    /// The text this error is shown with.
    pub fn message(&self) -> (r: String)
        ensures
            r@ == transcript_error_text(*self),
    {
        let mut v: Vec<char>;
        match self {
            TranscriptError::InvalidUrl(u) => {
                v = to_chars("Invalid YouTube URL: ");
                extend_str(&mut v, u.as_str());
            },
            TranscriptError::NoSubtitles => {
                v = to_chars("No subtitles available for this video");
            },
            TranscriptError::YtDlpFailed(m) => {
                v = to_chars("yt-dlp execution failed: ");
                extend_str(&mut v, m.as_str());
            },
            TranscriptError::Timeout(secs) => {
                v = to_chars("Download timeout after ");
                push_dec(&mut v, *secs);
                extend_str(&mut v, "s");
            },
            TranscriptError::ParseError(m) => {
                v = to_chars("VTT parse error: ");
                extend_str(&mut v, m.as_str());
            },
        }
        from_chars(v.as_slice())
    }
}

// ---------------------------------------------------------------------
// yt-dlp invocation
// ---------------------------------------------------------------------

/// Whether the `DISABLE_POT_PROVIDER` setting turns the token provider off:
/// `1`, or `true` in any letter case.
pub open spec fn pot_disabled_by(value: Option<Seq<char>>) -> bool {
    match value {
        Some(v) => v == "1"@ || ascii_lower(v) == "true"@,
        None => false,
    }
}

pub fn pot_provider_disabled(value: Option<&str>) -> (r: bool)
    ensures
        r == pot_disabled_by(
            match value {
                Some(v) => Some(v@),
                None => None,
            },
        ),
{
    match value {
        Some(v) => {
            let c = to_chars(v);
            let low = to_ascii_lowercase(c.as_slice());
            crate::text::str_eq(c.as_slice(), "1") || crate::text::str_eq(low.as_slice(), "true")
        },
        None => false,
    }
}

/// The arguments that make `uvx` run yt-dlp, with the token-provider plugin
/// unless it is disabled.
pub open spec fn uvx_base_args(disable_pot: bool) -> Seq<Seq<char>> {
    if disable_pot {
        seq!["yt-dlp"@]
    } else {
        seq!["--with"@, "bgutil-ytdlp-pot-provider"@, "yt-dlp"@]
    }
}

pub open spec fn string_views(v: Seq<String>) -> Seq<Seq<char>> {
    v.map_values(|s: String| s@)
}

fn owned(s: &str) -> (r: String)
    ensures
        r@ == s@,
{
    let v = to_chars(s);
    from_chars(v.as_slice())
}

pub fn base_uvx_args(disable_pot: bool) -> (r: Vec<String>)
    ensures
        string_views(r@) == uvx_base_args(disable_pot),
{
    let mut r: Vec<String> = Vec::new();
    if !disable_pot {
        r.push(owned("--with"));
        r.push(owned("bgutil-ytdlp-pot-provider"));
    }
    r.push(owned("yt-dlp"));
    assert(string_views(r@) =~= uvx_base_args(disable_pot));
    r
}

/// The token-provider URL from the first of `POT_PROVIDER_URL`,
/// `BGUTIL_POT_PROVIDER_URL`, `YTDLP_POT_PROVIDER_URL` that is set, trimmed;
/// `None` when none is set or the one set is blank.
pub open spec fn pot_url_from(
    pot: Option<Seq<char>>,
    bgutil: Option<Seq<char>>,
    ytdlp: Option<Seq<char>>,
) -> Option<Seq<char>> {
    let first = if pot is Some {
        pot
    } else if bgutil is Some {
        bgutil
    } else {
        ytdlp
    };
    match first {
        Some(v) => if trim(v).len() > 0 {
            Some(trim(v))
        } else {
            None
        },
        None => None,
    }
}

pub open spec fn opt_view(o: Option<&str>) -> Option<Seq<char>> {
    match o {
        Some(v) => Some(v@),
        None => None,
    }
}

pub fn pot_url_from_env(pot: Option<&str>, bgutil: Option<&str>, ytdlp: Option<&str>) -> (r:
    Option<String>)
    ensures
        r matches Some(s) ==> pot_url_from(opt_view(pot), opt_view(bgutil), opt_view(ytdlp))
            == Some(s@),
        r is None ==> pot_url_from(opt_view(pot), opt_view(bgutil), opt_view(ytdlp)) is None,
{
    let first = if pot.is_some() {
        pot
    } else if bgutil.is_some() {
        bgutil
    } else {
        ytdlp
    };
    match first {
        Some(v) => {
            let c = to_chars(v);
            let t = trim_chars(c.as_slice());
            if t.len() > 0 {
                Some(from_chars(t.as_slice()))
            } else {
                None
            }
        },
        None => None,
    }
}

/// The token provider's address inside a Docker container.
pub const DOCKER_POT_PROVIDER_URL: &'static str = "http://host.docker.internal:4416";

/// The extractor arguments: the player client (`mweb` unless set; skipped
/// when blank), the token provider's base URL, and any extra arguments.
pub open spec fn extractor_args_for(
    player_client: Option<Seq<char>>,
    pot_url: Option<Seq<char>>,
    extra: Option<Seq<char>>,
) -> Seq<Seq<char>> {
    let pc = trim(
        match player_client {
            Some(p) => p,
            None => "mweb"@,
        },
    );
    let a = if pc.len() > 0 {
        seq!["--extractor-args"@, "youtube:player_client="@ + pc]
    } else {
        seq![]
    };
    let b = match pot_url {
        Some(u) => if trim(u).len() > 0 {
            seq!["--extractor-args"@, "youtubepot-bgutilhttp:base_url="@ + trim(u)]
        } else {
            seq![]
        },
        None => seq![],
    };
    let c = match extra {
        Some(e) => if trim(e).len() > 0 {
            seq!["--extractor-args"@, trim(e)]
        } else {
            seq![]
        },
        None => seq![],
    };
    a + b + c
}

fn push_flag_pair(r: &mut Vec<String>, prefix: &str, value: &[char])
    ensures
        string_views(final(r)@) == string_views(old(r)@) + seq![
            "--extractor-args"@,
            prefix@ + value@,
        ],
{
    let ghost before = string_views(r@);
    r.push(owned("--extractor-args"));
    let mut v = to_chars(prefix);
    extend_chars(&mut v, value);
    r.push(from_chars(v.as_slice()));
    assert(string_views(r@) =~= before + seq!["--extractor-args"@, prefix@ + value@]);
}

pub fn extractor_args(player_client: Option<&str>, pot_url: Option<&str>, extra: Option<&str>) -> (r:
    Vec<String>)
    ensures
        string_views(r@) == extractor_args_for(
            opt_view(player_client),
            opt_view(pot_url),
            opt_view(extra),
        ),
{
    proof {
        reveal_strlit("");
    }
    let mut r: Vec<String> = Vec::new();
    let pc_raw = match player_client {
        Some(p) => to_chars(p),
        None => to_chars("mweb"),
    };
    let pc = trim_chars(pc_raw.as_slice());
    if pc.len() > 0 {
        push_flag_pair(&mut r, "youtube:player_client=", pc.as_slice());
    }
    let ghost a = string_views(r@);
    if let Some(u) = pot_url {
        let uc = to_chars(u);
        let ut = trim_chars(uc.as_slice());
        if ut.len() > 0 {
            push_flag_pair(&mut r, "youtubepot-bgutilhttp:base_url=", ut.as_slice());
        }
    }
    let ghost b = string_views(r@);
    if let Some(e) = extra {
        let ec = to_chars(e);
        let et = trim_chars(ec.as_slice());
        if et.len() > 0 {
            push_flag_pair(&mut r, "", et.as_slice());
            assert(""@ + et@ =~= et@);
        }
    }
    assert(string_views(r@) =~= extractor_args_for(
        opt_view(player_client),
        opt_view(pot_url),
        opt_view(extra),
    ));
    r
}

/// The command line shown in messages: `uvx` and the arguments, joined by spaces.
pub open spec fn join_spaces(args: Seq<Seq<char>>) -> Seq<char>
    decreases args.len(),
{
    if args.len() == 0 {
        Seq::empty()
    } else if args.len() == 1 {
        args[0]
    } else {
        join_spaces(args.drop_last()) + seq![' '] + args.last()
    }
}

pub fn command_line(args: &Vec<String>) -> (r: String)
    ensures
        r@ == "uvx "@ + join_spaces(string_views(args@)),
{
    let ghost sv = string_views(args@);
    let mut v: Vec<char> = Vec::new();
    let mut i: usize = 0;
    assert(sv.take(0) =~= Seq::<Seq<char>>::empty());
    while i < args.len()
        invariant
            i <= args@.len(),
            sv == string_views(args@),
            v@ == join_spaces(sv.take(i as int)),
        decreases args@.len() - i,
    {
        let ghost t = sv.take(i + 1);
        assert(t.drop_last() == sv.take(i as int));
        assert(t.last() == args@[i as int]@);
        if i > 0 {
            v.push(' ');
        }
        extend_str(&mut v, args[i].as_str());
        assert(v@ =~= join_spaces(t));
        i = i + 1;
    }
    assert(sv.take(args@.len() as int) == sv);
    let mut out = to_chars("uvx ");
    extend_chars(&mut out, v.as_slice());
    from_chars(out.as_slice())
}

/// A copy of a list of strings.
pub fn copy_strings(v: &Vec<String>) -> (r: Vec<String>)
    ensures
        string_views(r@) == string_views(v@),
{
    let mut r: Vec<String> = Vec::new();
    let mut i: usize = 0;
    while i < v.len()
        invariant
            i <= v@.len(),
            string_views(r@) == string_views(v@).take(i as int),
        decreases v@.len() - i,
    {
        let ghost before = string_views(r@);
        let s = owned(v[i].as_str());
        r.push(s);
        assert(string_views(r@) =~= before.push(v@[i as int]@));
        assert(string_views(v@).take(i + 1) =~= string_views(v@).take(i as int).push(v@[i as int]@));
        i = i + 1;
    }
    assert(string_views(v@).take(v@.len() as int) == string_views(v@));
    r
}

/// The arguments that list a video's subtitles.
pub fn list_subtitles_args(prefix: &Vec<String>, url: &str) -> (r: Vec<String>)
    ensures
        string_views(r@) == string_views(prefix@) + seq!["--list-subs"@, url@],
{
    let mut r = copy_strings(prefix);
    let ghost before = string_views(r@);
    r.push(owned("--list-subs"));
    r.push(owned(url));
    assert(string_views(r@) =~= string_views(prefix@) + seq!["--list-subs"@, url@]);
    r
}

/// The arguments that download one subtitle language as VTT.
pub fn download_subtitles_args(prefix: &Vec<String>, url: &str, lang: &str, output_template: &str) -> (r:
    Vec<String>)
    ensures
        string_views(r@) == string_views(prefix@) + seq![
            "--write-sub"@,
            "--write-auto-sub"@,
            "--sub-lang"@,
            lang@,
            "--sub-format"@,
            "vtt"@,
            "--skip-download"@,
            "--format"@,
            "mhtml"@,
            "-o"@,
            output_template@,
            url@,
        ],
{
    let mut r = copy_strings(prefix);
    let ghost before = string_views(r@);
    r.push(owned("--write-sub"));
    r.push(owned("--write-auto-sub"));
    r.push(owned("--sub-lang"));
    r.push(owned(lang));
    r.push(owned("--sub-format"));
    r.push(owned("vtt"));
    r.push(owned("--skip-download"));
    r.push(owned("--format"));
    r.push(owned("mhtml"));
    r.push(owned("-o"));
    r.push(owned(output_template));
    r.push(owned(url));
    assert(string_views(r@) =~= before + seq![
        "--write-sub"@,
        "--write-auto-sub"@,
        "--sub-lang"@,
        lang@,
        "--sub-format"@,
        "vtt"@,
        "--skip-download"@,
        "--format"@,
        "mhtml"@,
        "-o"@,
        output_template@,
        url@,
    ]);
    r
}

// ---------------------------------------------------------------------
// Reading yt-dlp's answers
// ---------------------------------------------------------------------

pub open spec fn cmd_note(cmd: Seq<char>) -> Seq<char> {
    " (cmd: `"@ + cmd + "`)"@
}

fn push_cmd_note(v: &mut Vec<char>, cmd: &str)
    ensures
        final(v)@ == old(v)@ + cmd_note(cmd@),
{
    extend_str(v, " (cmd: `");
    extend_str(v, cmd);
    extend_str(v, "`)");
    assert(final(v)@ =~= old(v)@ + cmd_note(cmd@));
}

/// How a yt-dlp run that re-asks for a page reload is reported, when
/// listing and when downloading.
pub open spec fn reload_advice(listing: bool) -> Seq<char> {
    if listing {
        "YouTube session expired ('The page needs to be reloaded'). Please restart Firefox and visit YouTube to refresh cookies, or provide a cookies.txt file."@
    } else {
        "YouTube session expired ('The page needs to be reloaded'). Please restart Firefox and visit YouTube to refresh cookies, then try again."@
    }
}

/// The failures yt-dlp's output can be recognised by: the token provider
/// unreachable, an expired session, a bot check, or rate limiting.
pub open spec fn known_failure(text: Seq<char>, cmd: Seq<char>, listing: bool) -> Option<Seq<char>> {
    if (contains(text, "Connection refused"@) && contains(text, "4416"@)) || (contains(
        text,
        "pot:bgutil"@,
    ) && contains(text, "Max retries exceeded"@)) {
        Some(
            "Failed to connect to PO Token Provider on port 4416. Ensure docker container 'ytdlp-pot-provider' is running and POT_PROVIDER_URL is configured correctly."@
                + cmd_note(cmd),
        )
    } else if contains(text, "The page needs to be reloaded"@) || contains(
        text,
        "page needs to be reloaded"@,
    ) {
        Some(reload_advice(listing) + cmd_note(cmd))
    } else if contains(text, "Sign in to confirm"@) || contains(text, "bot"@) {
        Some(
            "YouTube requires authentication or detected a bot. Please ensure the PO Token Provider is running and refresh Firefox cookies if needed."@
                + cmd_note(cmd),
        )
    } else if contains(text, "429"@) || contains(text, "Too Many Requests"@) {
        Some(
            "YouTube rate limited (429 Too Many Requests). Please restart Firefox to refresh cookies or try again later."@
                + cmd_note(cmd),
        )
    } else {
        None
    }
}

fn known_failure_exec(text: &[char], cmd: &str, listing: bool) -> (r: Option<Vec<char>>)
    ensures
        r matches Some(v) ==> known_failure(text@, cmd@, listing) == Some(v@),
        r is None ==> known_failure(text@, cmd@, listing) is None,
{
    let mut v: Vec<char>;
    if (str_contains(text, "Connection refused") && str_contains(text, "4416")) || (str_contains(
        text,
        "pot:bgutil",
    ) && str_contains(text, "Max retries exceeded")) {
        v = to_chars(
            "Failed to connect to PO Token Provider on port 4416. Ensure docker container 'ytdlp-pot-provider' is running and POT_PROVIDER_URL is configured correctly.",
        );
    } else if str_contains(text, "The page needs to be reloaded") || str_contains(
        text,
        "page needs to be reloaded",
    ) {
        if listing {
            v = to_chars(
                "YouTube session expired ('The page needs to be reloaded'). Please restart Firefox and visit YouTube to refresh cookies, or provide a cookies.txt file.",
            );
        } else {
            v = to_chars(
                "YouTube session expired ('The page needs to be reloaded'). Please restart Firefox and visit YouTube to refresh cookies, then try again.",
            );
        }
    } else if str_contains(text, "Sign in to confirm") || str_contains(text, "bot") {
        v = to_chars(
            "YouTube requires authentication or detected a bot. Please ensure the PO Token Provider is running and refresh Firefox cookies if needed.",
        );
    } else if str_contains(text, "429") || str_contains(text, "Too Many Requests") {
        v = to_chars(
            "YouTube rate limited (429 Too Many Requests). Please restart Firefox to refresh cookies or try again later.",
        );
    } else {
        return None;
    }
    push_cmd_note(&mut v, cmd);
    Some(v)
}

pub open spec fn restart_note() -> Seq<char> {
    " (note: please restart Firefox to refresh cookies if needed)"@
}

/// What listing a video's subtitles came to, from yt-dlp's stdout, stderr and
/// exit status: the combined output (`stdout`, a newline, `stderr`) when it is
/// usable, or the message of the failure.  A failed run still counts when its
/// output lists subtitles and shows no known failure.
pub open spec fn list_outcome(stdout: Seq<char>, stderr: Seq<char>, success: bool, cmd: Seq<char>) -> Result<
    Seq<char>,
    Seq<char>,
> {
    let combined = stdout + seq!['\n'] + stderr;
    if trim(combined).len() == 0 {
        Err("yt-dlp produced no output"@ + cmd_note(cmd))
    } else if success {
        Ok(combined)
    } else {
        match known_failure(combined, cmd, true) {
            Some(m) => Err(m),
            None => if !contains(combined, "Available subtitles"@) && !contains(
                combined,
                "Available automatic captions"@,
            ) {
                Err("yt-dlp failed: "@ + trim(stderr) + restart_note() + cmd_note(cmd))
            } else {
                Ok(combined)
            },
        }
    }
}

/// Reads the output of `yt-dlp --list-subs`.
pub fn read_list_output(stdout: &str, stderr: &str, success: bool, cmd: &str) -> (r: Result<
    String,
    TranscriptError,
>)
    ensures
        match r {
            Ok(s) => list_outcome(stdout@, stderr@, success, cmd@) == Ok::<Seq<char>, Seq<char>>(s@),
            Err(TranscriptError::YtDlpFailed(m)) => list_outcome(stdout@, stderr@, success, cmd@)
                == Err::<Seq<char>, Seq<char>>(m@),
            Err(_) => false,
        },
{
    let mut combined = to_chars(stdout);
    combined.push('\n');
    extend_str(&mut combined, stderr);
    assert(combined@ =~= stdout@ + seq!['\n'] + stderr@);
    if is_blank(combined.as_slice()) {
        let mut v = to_chars("yt-dlp produced no output");
        push_cmd_note(&mut v, cmd);
        return Err(TranscriptError::YtDlpFailed(from_chars(v.as_slice())));
    }
    if !success {
        match known_failure_exec(combined.as_slice(), cmd, true) {
            Some(m) => {
                return Err(TranscriptError::YtDlpFailed(from_chars(m.as_slice())));
            },
            None => {},
        }
        if !str_contains(combined.as_slice(), "Available subtitles") && !str_contains(
            combined.as_slice(),
            "Available automatic captions",
        ) {
            let mut v = to_chars("yt-dlp failed: ");
            let e = to_chars(stderr);
            let et = trim_chars(e.as_slice());
            extend_chars(&mut v, et.as_slice());
            extend_str(&mut v, " (note: please restart Firefox to refresh cookies if needed)");
            push_cmd_note(&mut v, cmd);
            assert(v@ =~= "yt-dlp failed: "@ + trim(stderr@) + restart_note() + cmd_note(cmd@));
            return Err(TranscriptError::YtDlpFailed(from_chars(v.as_slice())));
        }
    }
    Ok(from_chars(combined.as_slice()))
}

/// The message of a failed subtitle download, from yt-dlp's stderr.
pub open spec fn download_failure(stderr: Seq<char>, cmd: Seq<char>) -> Seq<char> {
    let t = trim(stderr);
    match known_failure(t, cmd, false) {
        Some(m) => m,
        None => "yt-dlp subtitle download failed: "@ + t + restart_note() + cmd_note(cmd),
    }
}

/// Reads the outcome of a subtitle download.
pub fn read_download_outcome(stderr: &str, success: bool, cmd: &str) -> (r: Result<(), TranscriptError>)
    ensures
        success ==> r is Ok,
        !success ==> (r matches Err(TranscriptError::YtDlpFailed(m)) && m@ == download_failure(
            stderr@,
            cmd@,
        )),
{
    if success {
        return Ok(());
    }
    let e = to_chars(stderr);
    let t = trim_chars(e.as_slice());
    match known_failure_exec(t.as_slice(), cmd, false) {
        Some(m) => Err(TranscriptError::YtDlpFailed(from_chars(m.as_slice()))),
        None => {
            let mut v = to_chars("yt-dlp subtitle download failed: ");
            extend_chars(&mut v, t.as_slice());
            extend_str(&mut v, " (note: please restart Firefox to refresh cookies if needed)");
            push_cmd_note(&mut v, cmd);
            assert(v@ =~= "yt-dlp subtitle download failed: "@ + trim(stderr@) + restart_note()
                + cmd_note(cmd@));
            Err(TranscriptError::YtDlpFailed(from_chars(v.as_slice())))
        },
    }
}

/// The name prefix of the files that a download for `identifier` writes.
pub open spec fn transcript_file_prefix(identifier: int) -> Seq<char> {
    "transcript_"@ + idec(identifier)
}

/// The output template handed to yt-dlp, inside the scratch directory.
pub fn output_template(temp_dir: &str, identifier: i64) -> (r: String)
    ensures
        r@ == temp_dir@ + seq!['/'] + transcript_file_prefix(identifier as int),
{
    let mut v = to_chars(temp_dir);
    v.push('/');
    extend_str(&mut v, "transcript_");
    push_idec(&mut v, identifier);
    assert(v@ =~= temp_dir@ + seq!['/'] + transcript_file_prefix(identifier as int));
    from_chars(v.as_slice())
}

/// Whether a file in the scratch directory is a subtitle file of the download
/// for `identifier`.
pub fn is_transcript_file(file_name: &str, identifier: i64) -> (r: bool)
    ensures
        r == (starts_with(file_name@, transcript_file_prefix(identifier as int)) && ends_with(
            file_name@,
            ".vtt"@,
        )),
{
    let mut prefix = to_chars("transcript_");
    push_idec(&mut prefix, identifier);
    let f = to_chars(file_name);
    let ext = to_chars(".vtt");
    starts_with_exec(f.as_slice(), prefix.as_slice()) && ends_with_exec(f.as_slice(), ext.as_slice())
}

/// The transcript of a downloaded VTT file; an error when it has no text.
pub fn transcript_from_vtt(vtt_content: &str) -> (r: Result<String, TranscriptError>)
    ensures
        trim(vtt_transcript(vtt_content@)).len() > 0 ==> (r matches Ok(s) && s@ == vtt_transcript(
            vtt_content@,
        )),
        trim(vtt_transcript(vtt_content@)).len() == 0 ==> (r matches Err(
            TranscriptError::ParseError(m),
        ) && m@ == "Parsed transcript is empty"@),
{
    let t = parse_vtt(vtt_content);
    let tc = to_chars(t.as_str());
    if is_blank(tc.as_slice()) {
        return Err(TranscriptError::ParseError(owned("Parsed transcript is empty")));
    }
    Ok(t)
}

// ---------------------------------------------------------------------
// Cookies
// ---------------------------------------------------------------------

/// A setting's value, trimmed, unless it is blank.
pub open spec fn trimmed_setting_of(v: Option<Seq<char>>) -> Option<Seq<char>> {
    match v {
        Some(s) => if trim(s).len() > 0 {
            Some(trim(s))
        } else {
            None
        },
        None => None,
    }
}

pub fn trimmed_setting(v: Option<&str>) -> (r: Option<String>)
    ensures
        match r {
            Some(s) => trimmed_setting_of(opt_view(v)) == Some(s@),
            None => trimmed_setting_of(opt_view(v)) is None,
        },
{
    match v {
        Some(s) => {
            let c = to_chars(s);
            let t = trim_chars(c.as_slice());
            if t.len() > 0 {
                Some(from_chars(t.as_slice()))
            } else {
                None
            }
        },
        None => None,
    }
}

/// What is known about the places cookies can come from: the trimmed
/// `YTDLP_COOKIES` and `COOKIES_FILE` paths with whether each file exists,
/// whether `cookies.txt` exists here, the trimmed browser setting, and
/// whether a Firefox profile was found.
pub struct CookieSources {
    pub ytdlp_cookies: Option<(String, bool)>,
    pub cookies_file: Option<(String, bool)>,
    pub local_cookies_txt: bool,
    pub browser: Option<String>,
    pub firefox_profile: bool,
}

pub open spec fn existing_file(p: Option<(String, bool)>) -> Option<Seq<char>> {
    match p {
        Some((path, exists)) => if exists {
            Some(path@)
        } else {
            None
        },
        None => None,
    }
}

/// The cookie arguments for yt-dlp, by precedence: a cookie file named by
/// `YTDLP_COOKIES`, then by `COOKIES_FILE`, then `cookies.txt`, then the
/// browser named by `YTDLP_COOKIES_FROM_BROWSER`, then Firefox when a
/// profile exists; none otherwise.
pub open spec fn cookie_args_for(c: CookieSources) -> Seq<Seq<char>> {
    if existing_file(c.ytdlp_cookies) is Some {
        seq!["--cookies"@, existing_file(c.ytdlp_cookies)->0]
    } else if existing_file(c.cookies_file) is Some {
        seq!["--cookies"@, existing_file(c.cookies_file)->0]
    } else if c.local_cookies_txt {
        seq!["--cookies"@, "cookies.txt"@]
    } else if c.browser is Some {
        seq!["--cookies-from-browser"@, c.browser->0@]
    } else if c.firefox_profile {
        seq!["--cookies-from-browser"@, "firefox"@]
    } else {
        seq![]
    }
}

fn pair(a: &str, b: &str) -> (r: Vec<String>)
    ensures
        string_views(r@) == seq![a@, b@],
{
    let mut r: Vec<String> = Vec::new();
    r.push(owned(a));
    r.push(owned(b));
    assert(string_views(r@) =~= seq![a@, b@]);
    r
}

pub fn cookie_args(c: &CookieSources) -> (r: Vec<String>)
    ensures
        string_views(r@) == cookie_args_for(*c),
{
    if let Some((path, true)) = &c.ytdlp_cookies {
        return pair("--cookies", path.as_str());
    }
    if let Some((path, true)) = &c.cookies_file {
        return pair("--cookies", path.as_str());
    }
    if c.local_cookies_txt {
        return pair("--cookies", "cookies.txt");
    }
    if let Some(b) = &c.browser {
        return pair("--cookies-from-browser", b.as_str());
    }
    if c.firefox_profile {
        return pair("--cookies-from-browser", "firefox");
    }
    let r: Vec<String> = Vec::new();
    assert(string_views(r@) =~= Seq::<Seq<char>>::empty());
    r
}

} // verus!
