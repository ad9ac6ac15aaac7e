use vstd::prelude::*;
use crate::text::{to_chars, from_chars, starts_with, ends_with, contains, str_contains, str_eq, extend_str, extend_chars,
    seqs, trim, is_blank};
use crate::split::{lines, lines_of, words, word_count, split_whitespace, split_char, split_on,
    lemma_split_char_len};
use crate::num::{parse_u32_or0, parse_u32_or_zero, dec, push_dec};
use crate::summary::{SummaryError, summary_error_text};
use crate::transcript::{TranscriptError, transcript_error_text};
use crate::url_validator::{url_items, hn_id, split_urls, validate_hn_url};

verus! {

// ---------------------------------------------------------------------
// Errors of the pipeline
// ---------------------------------------------------------------------

/// Why an embedding could not be computed or stored.
#[derive(Debug)]
pub enum EmbeddingError {
    ApiError(String),
    EmptyText,
    DbError(String),
}

pub open spec fn embedding_error_text(e: EmbeddingError) -> Seq<char> {
    match e {
        EmbeddingError::ApiError(m) => "Embedding API error: "@ + m@,
        EmbeddingError::EmptyText => "Empty text provided"@,
        EmbeddingError::DbError(m) => "Database error: "@ + m@,
    }
}

/// Why processing a submission failed.
#[derive(Debug)]
pub enum ProcessError {
    RowNotFound,
    TranscriptTooShort,
    TranscriptTooLong(usize),
    Transcript(TranscriptError),
    Summary(SummaryError),
    Embedding(EmbeddingError),
    Database(String),
}

/// The text a processing error is shown with.
pub open spec fn process_error_text(e: ProcessError) -> Seq<char> {
    match e {
        ProcessError::RowNotFound => "Row not found after max retries"@,
        ProcessError::TranscriptTooShort => "Transcript too short"@,
        ProcessError::TranscriptTooLong(n) => "Transcript too long ("@ + dec(n as nat) + " words)"@,
        ProcessError::Transcript(t) => "Transcript error: "@ + transcript_error_text(t),
        ProcessError::Summary(s) => "Summary error: "@ + summary_error_text(s),
        ProcessError::Embedding(m) => "Embedding error: "@ + embedding_error_text(m),
        ProcessError::Database(m) => "Database error: "@ + m@,
    }
}

/// How a processing error is reported to the user: the raw message of an API
/// or yt-dlp failure, else the error's text.
pub open spec fn reported_error(e: ProcessError) -> Seq<char> {
    match e {
        ProcessError::Summary(SummaryError::ApiError(m)) => m@,
        ProcessError::Transcript(TranscriptError::YtDlpFailed(m)) => m@,
        _ => process_error_text(e),
    }
}

impl EmbeddingError {
    pub fn message(&self) -> (r: String)
        ensures
            r@ == embedding_error_text(*self),
    {
        let mut v: Vec<char>;
        match self {
            EmbeddingError::ApiError(m) => {
                v = to_chars("Embedding API error: ");
                extend_str(&mut v, m.as_str());
            },
            EmbeddingError::EmptyText => {
                v = to_chars("Empty text provided");
            },
            EmbeddingError::DbError(m) => {
                v = to_chars("Database error: ");
                extend_str(&mut v, m.as_str());
            },
        }
        from_chars(v.as_slice())
    }
}

impl ProcessError {
    /// The text this error is shown with.
    pub fn message(&self) -> (r: String)
        ensures
            r@ == process_error_text(*self),
    {
        let mut v: Vec<char>;
        match self {
            ProcessError::RowNotFound => {
                v = to_chars("Row not found after max retries");
            },
            ProcessError::TranscriptTooShort => {
                v = to_chars("Transcript too short");
            },
            ProcessError::TranscriptTooLong(n) => {
                v = to_chars("Transcript too long (");
                push_dec(&mut v, *n as u64);
                extend_str(&mut v, " words)");
            },
            ProcessError::Transcript(t) => {
                v = to_chars("Transcript error: ");
                let m = t.message();
                extend_str(&mut v, m.as_str());
            },
            ProcessError::Summary(s) => {
                v = to_chars("Summary error: ");
                let m = s.message();
                extend_str(&mut v, m.as_str());
            },
            ProcessError::Embedding(e) => {
                v = to_chars("Embedding error: ");
                let m = e.message();
                extend_str(&mut v, m.as_str());
            },
            ProcessError::Database(m) => {
                v = to_chars("Database error: ");
                extend_str(&mut v, m.as_str());
            },
        }
        from_chars(v.as_slice())
    }
}

/// Formats a processing error for the user.
pub fn format_process_error(e: &ProcessError) -> (r: String)
    ensures
        r@ == reported_error(*e),
{
    match e {
        ProcessError::Summary(SummaryError::ApiError(msg)) => {
            let v = to_chars(msg.as_str());
            from_chars(v.as_slice())
        },
        ProcessError::Transcript(TranscriptError::YtDlpFailed(msg)) => {
            let v = to_chars(msg.as_str());
            from_chars(v.as_slice())
        },
        _ => e.message(),
    }
}

/// Whether a summary error means the model is rate limited or out of quota.
pub open spec fn rate_limited_error(e: SummaryError) -> bool {
    match e {
        SummaryError::RateLimited => true,
        SummaryError::ApiError(m) => contains(m@, "ResourceExhausted"@) || contains(m@, "429"@)
            || contains(m@, "RESOURCE_EXHAUSTED"@) || contains(m@, "quota"@) || contains(
            m@,
            "Quota"@,
        ),
        _ => false,
    }
}

pub fn is_summary_rate_limited(err: &SummaryError) -> (r: bool)
    ensures
        r == rate_limited_error(*err),
{
    match err {
        SummaryError::RateLimited => true,
        SummaryError::ApiError(msg) => {
            let v = to_chars(msg.as_str());
            let v = v.as_slice();
            str_contains(v, "ResourceExhausted") || str_contains(v, "429") || str_contains(
                v,
                "RESOURCE_EXHAUSTED",
            ) || str_contains(v, "quota") || str_contains(v, "Quota")
        },
        _ => false,
    }
}

// ---------------------------------------------------------------------
// Transcript length and duration
// ---------------------------------------------------------------------

/// Checks a pasted transcript: between 30 and 280,000 words, else the error
/// that says which bound failed (with the word count when it is too long).
pub fn process_pasted_transcript(raw_text: &str) -> (r: Result<String, ProcessError>)
    ensures
        30 <= words(raw_text@).len() <= 280000 <==> r is Ok,
        r matches Ok(s) ==> s@ == raw_text@,
        words(raw_text@).len() < 30 ==> r matches Err(ProcessError::TranscriptTooShort),
        words(raw_text@).len() > 280000 ==> (r matches Err(ProcessError::TranscriptTooLong(n))
            && n == words(raw_text@).len()),
{
    let v = to_chars(raw_text);
    let n = word_count(v.as_slice());
    if n < 30 {
        return Err(ProcessError::TranscriptTooShort);
    }
    if n > 280000 {
        return Err(ProcessError::TranscriptTooLong(n));
    }
    Ok(from_chars(v.as_slice()))
}

/// Seconds at the timestamp that starts a transcript line (`H:M:S` or `M:S`
/// as its first word, unparsable fields counting as zero); zero otherwise.
pub open spec fn line_secs(line: Seq<char>) -> nat {
    let ws = words(line);
    if ws.len() == 0 {
        0
    } else {
        let ts = split_char(ws[0], ':');
        if ts.len() == 3 {
            (parse_u32_or0(ts[0]) * 3600 + parse_u32_or0(ts[1]) * 60 + parse_u32_or0(ts[2])) as nat
        } else if ts.len() == 2 {
            (parse_u32_or0(ts[0]) * 60 + parse_u32_or0(ts[1])) as nat
        } else {
            0
        }
    }
}

pub open spec fn max_line_secs(ls: Seq<Seq<char>>) -> nat
    decreases ls.len(),
{
    if ls.len() == 0 {
        0
    } else {
        let m = max_line_secs(ls.drop_last());
        let l = line_secs(ls.last());
        if l > m {
            l
        } else {
            m
        }
    }
}

/// The duration of a transcript in seconds: its latest line timestamp, or,
/// without timestamps, an estimate at 150 words a minute.
pub open spec fn duration_estimate(t: Seq<char>) -> nat {
    let m = max_line_secs(lines(t));
    if m > 0 {
        m
    } else {
        (words(t).len() * 2 / 5) as nat
    }
}

/// The inputs on which the estimate is computed without overflowing `u32`.
pub open spec fn duration_in_range(t: Seq<char>) -> bool {
    &&& forall|i: int| 0 <= i < lines(t).len() ==> #[trigger] line_secs(lines(t)[i]) <= u32::MAX
    &&& max_line_secs(lines(t)) == 0 ==> words(t).len() * 2 <= u32::MAX
}

fn line_secs_exec(line: &[char]) -> (r: u32)
    requires
        line_secs(line@) <= u32::MAX,
    ensures
        r == line_secs(line@),
{
    let ws = split_whitespace(line);
    assert(seqs(ws@).len() == ws@.len());
    if ws.len() == 0 {
        return 0;
    }
    assert(seqs(ws@)[0] == ws@[0]@);
    let ts = split_on(ws[0].as_slice(), ':');
    let ghost st = seqs(ts@);
    assert(st.len() == ts@.len());
    if ts.len() == 3 {
        assert(st[0] == ts@[0]@ && st[1] == ts@[1]@ && st[2] == ts@[2]@);
        let h = parse_u32_or_zero(ts[0].as_slice());
        let m = parse_u32_or_zero(ts[1].as_slice());
        let s = parse_u32_or_zero(ts[2].as_slice());
        assert(h * 3600 + m * 60 + s <= u32::MAX);
        h * 3600 + m * 60 + s
    } else if ts.len() == 2 {
        assert(st[0] == ts@[0]@ && st[1] == ts@[1]@);
        let m = parse_u32_or_zero(ts[0].as_slice());
        let s = parse_u32_or_zero(ts[1].as_slice());
        assert(m * 60 + s <= u32::MAX);
        m * 60 + s
    } else {
        0
    }
}

/// Estimates a transcript's duration in seconds.
pub fn get_transcript_duration_secs(transcript: &str) -> (r: u32)
    requires
        duration_in_range(transcript@),
    ensures
        r == duration_estimate(transcript@),
{
    let v = to_chars(transcript);
    let ls = lines_of(v.as_slice());
    let ghost sl = seqs(ls@);
    let mut max_secs: u32 = 0;
    let mut i: usize = 0;
    assert(sl.take(0) == Seq::<Seq<char>>::empty());
    while i < ls.len()
        invariant
            i <= ls@.len(),
            sl == seqs(ls@),
            sl == lines(transcript@),
            forall|k: int| 0 <= k < sl.len() ==> #[trigger] line_secs(sl[k]) <= u32::MAX,
            max_secs == max_line_secs(sl.take(i as int)),
        decreases ls@.len() - i,
    {
        let ghost t = sl.take(i + 1);
        assert(t.drop_last() == sl.take(i as int));
        assert(t.last() == ls@[i as int]@);
        assert(sl[i as int] == ls@[i as int]@);
        let secs = line_secs_exec(ls[i].as_slice());
        if secs > max_secs {
            max_secs = secs;
        }
        i = i + 1;
    }
    assert(sl.take(ls@.len() as int) == sl);
    if max_secs > 0 {
        max_secs
    } else {
        let n = word_count(v.as_slice());
        let w = n as u32;
        (w * 2) / 5
    }
}

fn line_secs_wide(line: &[char]) -> (r: u64)
    ensures
        r == line_secs(line@),
{
    let ws = split_whitespace(line);
    assert(seqs(ws@).len() == ws@.len());
    if ws.len() == 0 {
        return 0;
    }
    assert(seqs(ws@)[0] == ws@[0]@);
    let ts = split_on(ws[0].as_slice(), ':');
    let ghost st = seqs(ts@);
    assert(st.len() == ts@.len());
    if ts.len() == 3 {
        assert(st[0] == ts@[0]@ && st[1] == ts@[1]@ && st[2] == ts@[2]@);
        let h = parse_u32_or_zero(ts[0].as_slice()) as u64;
        let m = parse_u32_or_zero(ts[1].as_slice()) as u64;
        let s = parse_u32_or_zero(ts[2].as_slice()) as u64;
        h * 3600 + m * 60 + s
    } else if ts.len() == 2 {
        assert(st[0] == ts@[0]@ && st[1] == ts@[1]@);
        let m = parse_u32_or_zero(ts[0].as_slice()) as u64;
        let s = parse_u32_or_zero(ts[1].as_slice()) as u64;
        m * 60 + s
    } else {
        0
    }
}

/// Whether the duration of a transcript can be estimated within `u32`: no
/// line timestamp, and without timestamps no doubled word count, exceeds it.
pub fn duration_fits(transcript: &str) -> (r: bool)
    ensures
        r == duration_in_range(transcript@),
{
    let v = to_chars(transcript);
    let ls = lines_of(v.as_slice());
    let ghost sl = seqs(ls@);
    let mut max_secs: u64 = 0;
    let mut i: usize = 0;
    assert(sl.take(0) == Seq::<Seq<char>>::empty());
    while i < ls.len()
        invariant
            i <= ls@.len(),
            sl == seqs(ls@),
            sl == lines(transcript@),
            forall|k: int| 0 <= k < i ==> #[trigger] line_secs(sl[k]) <= u32::MAX,
            max_secs == max_line_secs(sl.take(i as int)),
        decreases ls@.len() - i,
    {
        let ghost t = sl.take(i + 1);
        assert(t.drop_last() == sl.take(i as int));
        assert(t.last() == ls@[i as int]@);
        assert(sl[i as int] == ls@[i as int]@);
        let secs = line_secs_wide(ls[i].as_slice());
        if secs > u32::MAX as u64 {
            return false;
        }
        if secs > max_secs {
            max_secs = secs;
        }
        i = i + 1;
    }
    assert(sl.take(ls@.len() as int) == sl);
    if max_secs > 0 {
        true
    } else {
        let n = word_count(v.as_slice());
        n as u64 <= (u32::MAX as u64) / 2
    }
}

// ---------------------------------------------------------------------
// Model choice
// ---------------------------------------------------------------------

/// The models tried in turn for a starting model when daily limits are hit;
/// an unknown model has only itself.
pub open spec fn fallback_chain(name: Seq<char>) -> Seq<Seq<char>> {
    if name == "hetzner-qwen-3.6-35b"@ {
        seq!["hetzner-qwen-3.6-35b"@, "hetzner-qwen-3.8-27b"@, "gemini-3.8-flash"@, "gemini-3.7-flash"@, "gemini-3.6-flash"@, "gemini-3.5-flash"@, "gemini-3.5-flash-lite"@]
    } else if name == "hetzner-qwen-3.8-27b"@ {
        seq!["hetzner-qwen-3.8-27b"@, "hetzner-qwen-3.6-35b"@, "gemini-3.8-flash"@, "gemini-3.7-flash"@, "gemini-3.6-flash"@, "gemini-3.5-flash"@, "gemini-3.5-flash-lite"@]
    } else if name == "gemini-3.7-flash"@ {
        seq!["gemini-3.7-flash"@, "gemini-3.8-flash"@, "gemini-3.6-flash"@, "gemini-3.5-flash"@, "gemini-3-flash-preview"@, "gemini-2.5-flash"@, "gemini-3.5-flash-lite"@, "gemini-3.1-flash-lite"@, "gemini-2.5-flash-lite"@, "hetzner-qwen-3.8-27b"@, "hetzner-qwen-3.6-35b"@]
    } else if name == "gemini-3.6-flash"@ {
        seq!["gemini-3.6-flash"@, "gemini-3.8-flash"@, "gemini-3.7-flash"@, "gemini-3.5-flash"@, "gemini-3-flash-preview"@, "gemini-2.5-flash"@, "gemini-3.5-flash-lite"@, "gemini-3.1-flash-lite"@, "gemini-2.5-flash-lite"@, "hetzner-qwen-3.8-27b"@, "hetzner-qwen-3.6-35b"@]
    } else if name == "gemini-3.5-flash-lite"@ {
        seq!["gemini-3.5-flash-lite"@, "gemini-3.1-flash-lite"@, "gemini-2.5-flash-lite"@, "gemini-3.8-flash"@, "gemini-3.7-flash"@, "gemini-3.6-flash"@, "gemini-3.5-flash"@, "hetzner-qwen-3.8-27b"@, "hetzner-qwen-3.6-35b"@]
    } else if name == "gemini-3.5-flash"@ {
        seq!["gemini-3.5-flash"@, "gemini-3.7-flash"@, "gemini-3.6-flash"@, "gemini-3.8-flash"@, "gemini-3-flash-preview"@, "gemini-2.5-flash"@, "gemini-3.5-flash-lite"@, "gemini-3.1-flash-lite"@, "hetzner-qwen-3.8-27b"@, "hetzner-qwen-3.6-35b"@]
    } else if name == "gemini-3-flash-preview"@ {
        seq!["gemini-3-flash-preview"@, "gemini-3.7-flash"@, "gemini-3.8-flash"@, "gemini-3.6-flash"@, "gemini-2.5-flash"@, "gemini-3.5-flash-lite"@, "gemini-3.1-flash-lite"@, "hetzner-qwen-3.8-27b"@, "hetzner-qwen-3.6-35b"@]
    } else if name == "gemini-2.5-flash"@ {
        seq!["gemini-2.5-flash"@, "gemini-3.7-flash"@, "gemini-3.8-flash"@, "gemini-3.6-flash"@, "gemini-3.5-flash-lite"@, "gemini-3.1-flash-lite"@, "hetzner-qwen-3.8-27b"@, "hetzner-qwen-3.6-35b"@]
    } else if name == "gemini-3.1-flash-lite"@ {
        seq!["gemini-3.1-flash-lite"@, "gemini-2.5-flash-lite"@, "gemini-3.5-flash-lite"@, "gemini-3.8-flash"@, "gemini-3.7-flash"@, "gemini-3.6-flash"@, "gemini-3.5-flash"@, "gemini-3-flash-preview"@, "gemini-2.5-flash"@, "hetzner-qwen-3.8-27b"@, "hetzner-qwen-3.6-35b"@]
    } else if name == "gemini-2.5-flash-lite"@ {
        seq!["gemini-2.5-flash-lite"@, "gemini-3.5-flash-lite"@, "gemini-3.1-flash-lite"@, "gemini-3.8-flash"@, "gemini-3.7-flash"@, "gemini-3.6-flash"@, "hetzner-qwen-3.8-27b"@, "hetzner-qwen-3.6-35b"@]
    } else {
        seq![name]
    }
}

/// The daily rate-limit fallback chain for a starting model.
pub fn get_fallback_chain(model_name: &str) -> (r: Vec<&str>)
    ensures
        r@.map_values(|s: &str| s@) == fallback_chain(model_name@),
{
    let v = to_chars(model_name);
    let r =
    if str_eq(v.as_slice(), "hetzner-qwen-3.6-35b") {
        vec!["hetzner-qwen-3.6-35b", "hetzner-qwen-3.8-27b", "gemini-3.8-flash", "gemini-3.7-flash", "gemini-3.6-flash", "gemini-3.5-flash", "gemini-3.5-flash-lite"]
    } else if str_eq(v.as_slice(), "hetzner-qwen-3.8-27b") {
        vec!["hetzner-qwen-3.8-27b", "hetzner-qwen-3.6-35b", "gemini-3.8-flash", "gemini-3.7-flash", "gemini-3.6-flash", "gemini-3.5-flash", "gemini-3.5-flash-lite"]
    } else if str_eq(v.as_slice(), "gemini-3.7-flash") {
        vec!["gemini-3.7-flash", "gemini-3.8-flash", "gemini-3.6-flash", "gemini-3.5-flash", "gemini-3-flash-preview", "gemini-2.5-flash", "gemini-3.5-flash-lite", "gemini-3.1-flash-lite", "gemini-2.5-flash-lite", "hetzner-qwen-3.8-27b", "hetzner-qwen-3.6-35b"]
    } else if str_eq(v.as_slice(), "gemini-3.6-flash") {
        vec!["gemini-3.6-flash", "gemini-3.8-flash", "gemini-3.7-flash", "gemini-3.5-flash", "gemini-3-flash-preview", "gemini-2.5-flash", "gemini-3.5-flash-lite", "gemini-3.1-flash-lite", "gemini-2.5-flash-lite", "hetzner-qwen-3.8-27b", "hetzner-qwen-3.6-35b"]
    } else if str_eq(v.as_slice(), "gemini-3.5-flash-lite") {
        vec!["gemini-3.5-flash-lite", "gemini-3.1-flash-lite", "gemini-2.5-flash-lite", "gemini-3.8-flash", "gemini-3.7-flash", "gemini-3.6-flash", "gemini-3.5-flash", "hetzner-qwen-3.8-27b", "hetzner-qwen-3.6-35b"]
    } else if str_eq(v.as_slice(), "gemini-3.5-flash") {
        vec!["gemini-3.5-flash", "gemini-3.7-flash", "gemini-3.6-flash", "gemini-3.8-flash", "gemini-3-flash-preview", "gemini-2.5-flash", "gemini-3.5-flash-lite", "gemini-3.1-flash-lite", "hetzner-qwen-3.8-27b", "hetzner-qwen-3.6-35b"]
    } else if str_eq(v.as_slice(), "gemini-3-flash-preview") {
        vec!["gemini-3-flash-preview", "gemini-3.7-flash", "gemini-3.8-flash", "gemini-3.6-flash", "gemini-2.5-flash", "gemini-3.5-flash-lite", "gemini-3.1-flash-lite", "hetzner-qwen-3.8-27b", "hetzner-qwen-3.6-35b"]
    } else if str_eq(v.as_slice(), "gemini-2.5-flash") {
        vec!["gemini-2.5-flash", "gemini-3.7-flash", "gemini-3.8-flash", "gemini-3.6-flash", "gemini-3.5-flash-lite", "gemini-3.1-flash-lite", "hetzner-qwen-3.8-27b", "hetzner-qwen-3.6-35b"]
    } else if str_eq(v.as_slice(), "gemini-3.1-flash-lite") {
        vec!["gemini-3.1-flash-lite", "gemini-2.5-flash-lite", "gemini-3.5-flash-lite", "gemini-3.8-flash", "gemini-3.7-flash", "gemini-3.6-flash", "gemini-3.5-flash", "gemini-3-flash-preview", "gemini-2.5-flash", "hetzner-qwen-3.8-27b", "hetzner-qwen-3.6-35b"]
    } else if str_eq(v.as_slice(), "gemini-2.5-flash-lite") {
        vec!["gemini-2.5-flash-lite", "gemini-3.5-flash-lite", "gemini-3.1-flash-lite", "gemini-3.8-flash", "gemini-3.7-flash", "gemini-3.6-flash", "hetzner-qwen-3.8-27b", "hetzner-qwen-3.6-35b"]
    } else {
        vec![model_name]
    };
    assert(r@.map_values(|s: &str| s@) =~= fallback_chain(model_name@));
    r
}

/// Every chain starts with the model it is for; an unknown model's chain is
/// that model alone; every other chain holds both Hetzner models.
pub proof fn lemma_fallback_chain_shape(name: Seq<char>)
    ensures
        fallback_chain(name).len() >= 1,
        fallback_chain(name)[0] == name,
        fallback_chain(name).len() == 1 || (fallback_chain(name).contains(
            "hetzner-qwen-3.8-27b"@,
        ) && fallback_chain(name).contains("hetzner-qwen-3.6-35b"@)),
{
    let c = fallback_chain(name);
    if name == "hetzner-qwen-3.6-35b"@ {
        assert(c[1] == "hetzner-qwen-3.8-27b"@);
        assert(c[0] == "hetzner-qwen-3.6-35b"@);
        assert(c.contains(c[1]) && c.contains(c[0]));
    } else if name == "hetzner-qwen-3.8-27b"@ {
        assert(c[0] == "hetzner-qwen-3.8-27b"@);
        assert(c[1] == "hetzner-qwen-3.6-35b"@);
        assert(c.contains(c[0]) && c.contains(c[1]));
    } else if name == "gemini-3.7-flash"@ {
        assert(c[9] == "hetzner-qwen-3.8-27b"@);
        assert(c[10] == "hetzner-qwen-3.6-35b"@);
        assert(c.contains(c[9]) && c.contains(c[10]));
    } else if name == "gemini-3.6-flash"@ {
        assert(c[9] == "hetzner-qwen-3.8-27b"@);
        assert(c[10] == "hetzner-qwen-3.6-35b"@);
        assert(c.contains(c[9]) && c.contains(c[10]));
    } else if name == "gemini-3.5-flash-lite"@ {
        assert(c[7] == "hetzner-qwen-3.8-27b"@);
        assert(c[8] == "hetzner-qwen-3.6-35b"@);
        assert(c.contains(c[7]) && c.contains(c[8]));
    } else if name == "gemini-3.5-flash"@ {
        assert(c[8] == "hetzner-qwen-3.8-27b"@);
        assert(c[9] == "hetzner-qwen-3.6-35b"@);
        assert(c.contains(c[8]) && c.contains(c[9]));
    } else if name == "gemini-3-flash-preview"@ {
        assert(c[7] == "hetzner-qwen-3.8-27b"@);
        assert(c[8] == "hetzner-qwen-3.6-35b"@);
        assert(c.contains(c[7]) && c.contains(c[8]));
    } else if name == "gemini-2.5-flash"@ {
        assert(c[6] == "hetzner-qwen-3.8-27b"@);
        assert(c[7] == "hetzner-qwen-3.6-35b"@);
        assert(c.contains(c[6]) && c.contains(c[7]));
    } else if name == "gemini-3.1-flash-lite"@ {
        assert(c[9] == "hetzner-qwen-3.8-27b"@);
        assert(c[10] == "hetzner-qwen-3.6-35b"@);
        assert(c.contains(c[9]) && c.contains(c[10]));
    } else if name == "gemini-2.5-flash-lite"@ {
        assert(c[6] == "hetzner-qwen-3.8-27b"@);
        assert(c[7] == "hetzner-qwen-3.6-35b"@);
        assert(c.contains(c[6]) && c.contains(c[7]));
    }
}

/// The model names that fallback chains are made of are pairwise different.
proof fn lemma_chain_names_differ()
    ensures
        "gemini-3.6-flash"@ != "gemini-3.8-flash"@,
        "gemini-3.6-flash"@ != "gemini-3.7-flash"@,
        "gemini-3.6-flash"@ != "gemini-3.5-flash-lite"@,
        "gemini-3.6-flash"@ != "gemini-3.5-flash"@,
        "gemini-3.6-flash"@ != "gemini-3.1-flash-lite"@,
        "gemini-3.6-flash"@ != "gemini-2.5-flash"@,
        "gemini-3.6-flash"@ != "gemini-2.5-flash-lite"@,
        "gemini-3.6-flash"@ != "gemini-3-flash-preview"@,
        "gemini-3.6-flash"@ != "hetzner-qwen-3.6-35b"@,
        "gemini-3.6-flash"@ != "hetzner-qwen-3.8-27b"@,
        "gemini-3.8-flash"@ != "gemini-3.7-flash"@,
        "gemini-3.8-flash"@ != "gemini-3.5-flash-lite"@,
        "gemini-3.8-flash"@ != "gemini-3.5-flash"@,
        "gemini-3.8-flash"@ != "gemini-3.1-flash-lite"@,
        "gemini-3.8-flash"@ != "gemini-2.5-flash"@,
        "gemini-3.8-flash"@ != "gemini-2.5-flash-lite"@,
        "gemini-3.8-flash"@ != "gemini-3-flash-preview"@,
        "gemini-3.8-flash"@ != "hetzner-qwen-3.6-35b"@,
        "gemini-3.8-flash"@ != "hetzner-qwen-3.8-27b"@,
        "gemini-3.7-flash"@ != "gemini-3.5-flash-lite"@,
        "gemini-3.7-flash"@ != "gemini-3.5-flash"@,
        "gemini-3.7-flash"@ != "gemini-3.1-flash-lite"@,
        "gemini-3.7-flash"@ != "gemini-2.5-flash"@,
        "gemini-3.7-flash"@ != "gemini-2.5-flash-lite"@,
        "gemini-3.7-flash"@ != "gemini-3-flash-preview"@,
        "gemini-3.7-flash"@ != "hetzner-qwen-3.6-35b"@,
        "gemini-3.7-flash"@ != "hetzner-qwen-3.8-27b"@,
        "gemini-3.5-flash-lite"@ != "gemini-3.5-flash"@,
        "gemini-3.5-flash-lite"@ != "gemini-3.1-flash-lite"@,
        "gemini-3.5-flash-lite"@ != "gemini-2.5-flash"@,
        "gemini-3.5-flash-lite"@ != "gemini-2.5-flash-lite"@,
        "gemini-3.5-flash-lite"@ != "gemini-3-flash-preview"@,
        "gemini-3.5-flash-lite"@ != "hetzner-qwen-3.6-35b"@,
        "gemini-3.5-flash-lite"@ != "hetzner-qwen-3.8-27b"@,
        "gemini-3.5-flash"@ != "gemini-3.1-flash-lite"@,
        "gemini-3.5-flash"@ != "gemini-2.5-flash"@,
        "gemini-3.5-flash"@ != "gemini-2.5-flash-lite"@,
        "gemini-3.5-flash"@ != "gemini-3-flash-preview"@,
        "gemini-3.5-flash"@ != "hetzner-qwen-3.6-35b"@,
        "gemini-3.5-flash"@ != "hetzner-qwen-3.8-27b"@,
        "gemini-3.1-flash-lite"@ != "gemini-2.5-flash"@,
        "gemini-3.1-flash-lite"@ != "gemini-2.5-flash-lite"@,
        "gemini-3.1-flash-lite"@ != "gemini-3-flash-preview"@,
        "gemini-3.1-flash-lite"@ != "hetzner-qwen-3.6-35b"@,
        "gemini-3.1-flash-lite"@ != "hetzner-qwen-3.8-27b"@,
        "gemini-2.5-flash"@ != "gemini-2.5-flash-lite"@,
        "gemini-2.5-flash"@ != "gemini-3-flash-preview"@,
        "gemini-2.5-flash"@ != "hetzner-qwen-3.6-35b"@,
        "gemini-2.5-flash"@ != "hetzner-qwen-3.8-27b"@,
        "gemini-2.5-flash-lite"@ != "gemini-3-flash-preview"@,
        "gemini-2.5-flash-lite"@ != "hetzner-qwen-3.6-35b"@,
        "gemini-2.5-flash-lite"@ != "hetzner-qwen-3.8-27b"@,
        "gemini-3-flash-preview"@ != "hetzner-qwen-3.6-35b"@,
        "gemini-3-flash-preview"@ != "hetzner-qwen-3.8-27b"@,
        "hetzner-qwen-3.6-35b"@ != "hetzner-qwen-3.8-27b"@,
{
    reveal_strlit("gemini-3.6-flash");
    reveal_strlit("gemini-3.8-flash");
    reveal_strlit("gemini-3.7-flash");
    reveal_strlit("gemini-3.5-flash-lite");
    reveal_strlit("gemini-3.5-flash");
    reveal_strlit("gemini-3.1-flash-lite");
    reveal_strlit("gemini-2.5-flash");
    reveal_strlit("gemini-2.5-flash-lite");
    reveal_strlit("gemini-3-flash-preview");
    reveal_strlit("hetzner-qwen-3.6-35b");
    reveal_strlit("hetzner-qwen-3.8-27b");
    assert("gemini-3.6-flash"@[9] != "gemini-3.8-flash"@[9]);
    assert("gemini-3.6-flash"@[9] != "gemini-3.7-flash"@[9]);
    assert("gemini-3.6-flash"@.len() != "gemini-3.5-flash-lite"@.len());
    assert("gemini-3.6-flash"@[9] != "gemini-3.5-flash"@[9]);
    assert("gemini-3.6-flash"@.len() != "gemini-3.1-flash-lite"@.len());
    assert("gemini-3.6-flash"@[7] != "gemini-2.5-flash"@[7]);
    assert("gemini-3.6-flash"@.len() != "gemini-2.5-flash-lite"@.len());
    assert("gemini-3.6-flash"@.len() != "gemini-3-flash-preview"@.len());
    assert("gemini-3.6-flash"@.len() != "hetzner-qwen-3.6-35b"@.len());
    assert("gemini-3.6-flash"@.len() != "hetzner-qwen-3.8-27b"@.len());
    assert("gemini-3.8-flash"@[9] != "gemini-3.7-flash"@[9]);
    assert("gemini-3.8-flash"@.len() != "gemini-3.5-flash-lite"@.len());
    assert("gemini-3.8-flash"@[9] != "gemini-3.5-flash"@[9]);
    assert("gemini-3.8-flash"@.len() != "gemini-3.1-flash-lite"@.len());
    assert("gemini-3.8-flash"@[7] != "gemini-2.5-flash"@[7]);
    assert("gemini-3.8-flash"@.len() != "gemini-2.5-flash-lite"@.len());
    assert("gemini-3.8-flash"@.len() != "gemini-3-flash-preview"@.len());
    assert("gemini-3.8-flash"@.len() != "hetzner-qwen-3.6-35b"@.len());
    assert("gemini-3.8-flash"@.len() != "hetzner-qwen-3.8-27b"@.len());
    assert("gemini-3.7-flash"@.len() != "gemini-3.5-flash-lite"@.len());
    assert("gemini-3.7-flash"@[9] != "gemini-3.5-flash"@[9]);
    assert("gemini-3.7-flash"@.len() != "gemini-3.1-flash-lite"@.len());
    assert("gemini-3.7-flash"@[7] != "gemini-2.5-flash"@[7]);
    assert("gemini-3.7-flash"@.len() != "gemini-2.5-flash-lite"@.len());
    assert("gemini-3.7-flash"@.len() != "gemini-3-flash-preview"@.len());
    assert("gemini-3.7-flash"@.len() != "hetzner-qwen-3.6-35b"@.len());
    assert("gemini-3.7-flash"@.len() != "hetzner-qwen-3.8-27b"@.len());
    assert("gemini-3.5-flash-lite"@.len() != "gemini-3.5-flash"@.len());
    assert("gemini-3.5-flash-lite"@[9] != "gemini-3.1-flash-lite"@[9]);
    assert("gemini-3.5-flash-lite"@.len() != "gemini-2.5-flash"@.len());
    assert("gemini-3.5-flash-lite"@[7] != "gemini-2.5-flash-lite"@[7]);
    assert("gemini-3.5-flash-lite"@.len() != "gemini-3-flash-preview"@.len());
    assert("gemini-3.5-flash-lite"@.len() != "hetzner-qwen-3.6-35b"@.len());
    assert("gemini-3.5-flash-lite"@.len() != "hetzner-qwen-3.8-27b"@.len());
    assert("gemini-3.5-flash"@.len() != "gemini-3.1-flash-lite"@.len());
    assert("gemini-3.5-flash"@[7] != "gemini-2.5-flash"@[7]);
    assert("gemini-3.5-flash"@.len() != "gemini-2.5-flash-lite"@.len());
    assert("gemini-3.5-flash"@.len() != "gemini-3-flash-preview"@.len());
    assert("gemini-3.5-flash"@.len() != "hetzner-qwen-3.6-35b"@.len());
    assert("gemini-3.5-flash"@.len() != "hetzner-qwen-3.8-27b"@.len());
    assert("gemini-3.1-flash-lite"@.len() != "gemini-2.5-flash"@.len());
    assert("gemini-3.1-flash-lite"@[7] != "gemini-2.5-flash-lite"@[7]);
    assert("gemini-3.1-flash-lite"@.len() != "gemini-3-flash-preview"@.len());
    assert("gemini-3.1-flash-lite"@.len() != "hetzner-qwen-3.6-35b"@.len());
    assert("gemini-3.1-flash-lite"@.len() != "hetzner-qwen-3.8-27b"@.len());
    assert("gemini-2.5-flash"@.len() != "gemini-2.5-flash-lite"@.len());
    assert("gemini-2.5-flash"@.len() != "gemini-3-flash-preview"@.len());
    assert("gemini-2.5-flash"@.len() != "hetzner-qwen-3.6-35b"@.len());
    assert("gemini-2.5-flash"@.len() != "hetzner-qwen-3.8-27b"@.len());
    assert("gemini-2.5-flash-lite"@.len() != "gemini-3-flash-preview"@.len());
    assert("gemini-2.5-flash-lite"@.len() != "hetzner-qwen-3.6-35b"@.len());
    assert("gemini-2.5-flash-lite"@.len() != "hetzner-qwen-3.8-27b"@.len());
    assert("gemini-3-flash-preview"@.len() != "hetzner-qwen-3.6-35b"@.len());
    assert("gemini-3-flash-preview"@.len() != "hetzner-qwen-3.8-27b"@.len());
    assert("hetzner-qwen-3.6-35b"@[15] != "hetzner-qwen-3.8-27b"@[15]);
}

/// The fallback order of each known model, as the service tries models when
/// daily limits are hit; any other model is tried alone.
pub proof fn lemma_fallback_chain_table(name: Seq<char>)
    ensures
        name == "hetzner-qwen-3.6-35b"@ ==> fallback_chain(name) == seq![
            "hetzner-qwen-3.6-35b"@,
            "hetzner-qwen-3.8-27b"@,
            "gemini-3.8-flash"@,
            "gemini-3.7-flash"@,
            "gemini-3.6-flash"@,
            "gemini-3.5-flash"@,
            "gemini-3.5-flash-lite"@,
        ],
        name == "hetzner-qwen-3.8-27b"@ ==> fallback_chain(name) == seq![
            "hetzner-qwen-3.8-27b"@,
            "hetzner-qwen-3.6-35b"@,
            "gemini-3.8-flash"@,
            "gemini-3.7-flash"@,
            "gemini-3.6-flash"@,
            "gemini-3.5-flash"@,
            "gemini-3.5-flash-lite"@,
        ],
        name == "gemini-3.7-flash"@ ==> fallback_chain(name) == seq![
            "gemini-3.7-flash"@,
            "gemini-3.8-flash"@,
            "gemini-3.6-flash"@,
            "gemini-3.5-flash"@,
            "gemini-3-flash-preview"@,
            "gemini-2.5-flash"@,
            "gemini-3.5-flash-lite"@,
            "gemini-3.1-flash-lite"@,
            "gemini-2.5-flash-lite"@,
            "hetzner-qwen-3.8-27b"@,
            "hetzner-qwen-3.6-35b"@,
        ],
        name == "gemini-3.6-flash"@ ==> fallback_chain(name) == seq![
            "gemini-3.6-flash"@,
            "gemini-3.8-flash"@,
            "gemini-3.7-flash"@,
            "gemini-3.5-flash"@,
            "gemini-3-flash-preview"@,
            "gemini-2.5-flash"@,
            "gemini-3.5-flash-lite"@,
            "gemini-3.1-flash-lite"@,
            "gemini-2.5-flash-lite"@,
            "hetzner-qwen-3.8-27b"@,
            "hetzner-qwen-3.6-35b"@,
        ],
        name == "gemini-3.5-flash-lite"@ ==> fallback_chain(name) == seq![
            "gemini-3.5-flash-lite"@,
            "gemini-3.1-flash-lite"@,
            "gemini-2.5-flash-lite"@,
            "gemini-3.8-flash"@,
            "gemini-3.7-flash"@,
            "gemini-3.6-flash"@,
            "gemini-3.5-flash"@,
            "hetzner-qwen-3.8-27b"@,
            "hetzner-qwen-3.6-35b"@,
        ],
        name == "gemini-3.5-flash"@ ==> fallback_chain(name) == seq![
            "gemini-3.5-flash"@,
            "gemini-3.7-flash"@,
            "gemini-3.6-flash"@,
            "gemini-3.8-flash"@,
            "gemini-3-flash-preview"@,
            "gemini-2.5-flash"@,
            "gemini-3.5-flash-lite"@,
            "gemini-3.1-flash-lite"@,
            "hetzner-qwen-3.8-27b"@,
            "hetzner-qwen-3.6-35b"@,
        ],
        name == "gemini-3-flash-preview"@ ==> fallback_chain(name) == seq![
            "gemini-3-flash-preview"@,
            "gemini-3.7-flash"@,
            "gemini-3.8-flash"@,
            "gemini-3.6-flash"@,
            "gemini-2.5-flash"@,
            "gemini-3.5-flash-lite"@,
            "gemini-3.1-flash-lite"@,
            "hetzner-qwen-3.8-27b"@,
            "hetzner-qwen-3.6-35b"@,
        ],
        name == "gemini-2.5-flash"@ ==> fallback_chain(name) == seq![
            "gemini-2.5-flash"@,
            "gemini-3.7-flash"@,
            "gemini-3.8-flash"@,
            "gemini-3.6-flash"@,
            "gemini-3.5-flash-lite"@,
            "gemini-3.1-flash-lite"@,
            "hetzner-qwen-3.8-27b"@,
            "hetzner-qwen-3.6-35b"@,
        ],
        name == "gemini-3.1-flash-lite"@ ==> fallback_chain(name) == seq![
            "gemini-3.1-flash-lite"@,
            "gemini-2.5-flash-lite"@,
            "gemini-3.5-flash-lite"@,
            "gemini-3.8-flash"@,
            "gemini-3.7-flash"@,
            "gemini-3.6-flash"@,
            "gemini-3.5-flash"@,
            "gemini-3-flash-preview"@,
            "gemini-2.5-flash"@,
            "hetzner-qwen-3.8-27b"@,
            "hetzner-qwen-3.6-35b"@,
        ],
        name == "gemini-2.5-flash-lite"@ ==> fallback_chain(name) == seq![
            "gemini-2.5-flash-lite"@,
            "gemini-3.5-flash-lite"@,
            "gemini-3.1-flash-lite"@,
            "gemini-3.8-flash"@,
            "gemini-3.7-flash"@,
            "gemini-3.6-flash"@,
            "hetzner-qwen-3.8-27b"@,
            "hetzner-qwen-3.6-35b"@,
        ],
        name != "hetzner-qwen-3.6-35b"@ && name != "hetzner-qwen-3.8-27b"@ && name != "gemini-3.7-flash"@ && name != "gemini-3.6-flash"@ && name != "gemini-3.5-flash-lite"@ && name != "gemini-3.5-flash"@ && name != "gemini-3-flash-preview"@ && name != "gemini-2.5-flash"@ && name != "gemini-3.1-flash-lite"@ && name != "gemini-2.5-flash-lite"@ ==> fallback_chain(name) == seq![name],
{
    lemma_chain_names_differ();
}

/// A model served by the Hetzner API.
pub open spec fn is_hetzner_model(name: Seq<char>) -> bool {
    starts_with(name, "hetzner-"@)
}

/// A light Gemini model.
pub open spec fn is_lite_model(name: Seq<char>) -> bool {
    ends_with(name, "-lite"@)
}

/// The group a model belongs to in the order of a chain that starts at
/// `start`: a chain keeps to the starting model's group (Hetzner, light
/// Gemini, or full Gemini) first; full Gemini models come next, then light
/// ones, with Hetzner models last when the chain starts on Gemini.
pub open spec fn fallback_group(start: Seq<char>, name: Seq<char>) -> int {
    if is_hetzner_model(start) {
        if is_hetzner_model(name) {
            0
        } else if !is_lite_model(name) {
            1
        } else {
            2
        }
    } else if is_lite_model(start) {
        if is_hetzner_model(name) {
            2
        } else if is_lite_model(name) {
            0
        } else {
            1
        }
    } else {
        if is_hetzner_model(name) {
            2
        } else if is_lite_model(name) {
            1
        } else {
            0
        }
    }
}

proof fn lemma_model_groups()
    ensures
        !is_hetzner_model("gemini-3.8-flash"@) && !is_lite_model("gemini-3.8-flash"@),
        !is_hetzner_model("gemini-3.7-flash"@) && !is_lite_model("gemini-3.7-flash"@),
        !is_hetzner_model("gemini-3.6-flash"@) && !is_lite_model("gemini-3.6-flash"@),
        !is_hetzner_model("gemini-3.5-flash"@) && !is_lite_model("gemini-3.5-flash"@),
        !is_hetzner_model("gemini-3-flash-preview"@) && !is_lite_model("gemini-3-flash-preview"@),
        !is_hetzner_model("gemini-2.5-flash"@) && !is_lite_model("gemini-2.5-flash"@),
        !is_hetzner_model("gemini-3.5-flash-lite"@) && is_lite_model("gemini-3.5-flash-lite"@),
        !is_hetzner_model("gemini-3.1-flash-lite"@) && is_lite_model("gemini-3.1-flash-lite"@),
        !is_hetzner_model("gemini-2.5-flash-lite"@) && is_lite_model("gemini-2.5-flash-lite"@),
        is_hetzner_model("hetzner-qwen-3.8-27b"@) && !is_lite_model("hetzner-qwen-3.8-27b"@),
        is_hetzner_model("hetzner-qwen-3.6-35b"@) && !is_lite_model("hetzner-qwen-3.6-35b"@),
{
    reveal_strlit("hetzner-");
    reveal_strlit("-lite");
    reveal_strlit("gemini-3.8-flash");
    reveal_strlit("gemini-3.7-flash");
    reveal_strlit("gemini-3.6-flash");
    reveal_strlit("gemini-3.5-flash");
    reveal_strlit("gemini-3-flash-preview");
    reveal_strlit("gemini-2.5-flash");
    reveal_strlit("gemini-3.5-flash-lite");
    reveal_strlit("gemini-3.1-flash-lite");
    reveal_strlit("gemini-2.5-flash-lite");
    reveal_strlit("hetzner-qwen-3.8-27b");
    reveal_strlit("hetzner-qwen-3.6-35b");
    assert("gemini-3.8-flash"@[0] != "hetzner-"@[0]);
    assert("gemini-3.8-flash"@["gemini-3.8-flash"@.len() - 1] != "-lite"@[4]);
    assert("gemini-3.7-flash"@[0] != "hetzner-"@[0]);
    assert("gemini-3.7-flash"@["gemini-3.7-flash"@.len() - 1] != "-lite"@[4]);
    assert("gemini-3.6-flash"@[0] != "hetzner-"@[0]);
    assert("gemini-3.6-flash"@["gemini-3.6-flash"@.len() - 1] != "-lite"@[4]);
    assert("gemini-3.5-flash"@[0] != "hetzner-"@[0]);
    assert("gemini-3.5-flash"@["gemini-3.5-flash"@.len() - 1] != "-lite"@[4]);
    assert("gemini-3-flash-preview"@[0] != "hetzner-"@[0]);
    assert("gemini-3-flash-preview"@["gemini-3-flash-preview"@.len() - 1] != "-lite"@[4]);
    assert("gemini-2.5-flash"@[0] != "hetzner-"@[0]);
    assert("gemini-2.5-flash"@["gemini-2.5-flash"@.len() - 1] != "-lite"@[4]);
    assert("gemini-3.5-flash-lite"@[0] != "hetzner-"@[0]);
    assert("gemini-3.5-flash-lite"@.subrange("gemini-3.5-flash-lite"@.len() - 5, "gemini-3.5-flash-lite"@.len() as int) =~= "-lite"@);
    assert("gemini-3.1-flash-lite"@[0] != "hetzner-"@[0]);
    assert("gemini-3.1-flash-lite"@.subrange("gemini-3.1-flash-lite"@.len() - 5, "gemini-3.1-flash-lite"@.len() as int) =~= "-lite"@);
    assert("gemini-2.5-flash-lite"@[0] != "hetzner-"@[0]);
    assert("gemini-2.5-flash-lite"@.subrange("gemini-2.5-flash-lite"@.len() - 5, "gemini-2.5-flash-lite"@.len() as int) =~= "-lite"@);
    assert("hetzner-qwen-3.8-27b"@.subrange(0, 8) =~= "hetzner-"@);
    assert("hetzner-qwen-3.8-27b"@["hetzner-qwen-3.8-27b"@.len() - 1] != "-lite"@[4]);
    assert("hetzner-qwen-3.6-35b"@.subrange(0, 8) =~= "hetzner-"@);
    assert("hetzner-qwen-3.6-35b"@["hetzner-qwen-3.6-35b"@.len() - 1] != "-lite"@[4]);
}

/// A chain never goes back to an earlier group: after a full Gemini model
/// the other full models are tried before any light one, and those before
/// the Hetzner models; after a light model the light ones come first, then
/// the full ones; after a Hetzner model the other Hetzner model comes first,
/// then full Gemini models, then light ones.
pub proof fn lemma_fallback_chain_groups(name: Seq<char>)
    ensures
        forall|i: int, j: int|
            0 <= i < j < fallback_chain(name).len() ==> fallback_group(name, #[trigger] fallback_chain(name)[i])
                <= fallback_group(name, #[trigger] fallback_chain(name)[j]),
{
    lemma_model_groups();
    lemma_chain_names_differ();
    let c = fallback_chain(name);
    assert forall|i: int, j: int|
        0 <= i < j < c.len() implies fallback_group(name, #[trigger] c[i]) <= fallback_group(name, #[trigger] c[j]) by {
    }
}

/// No model appears twice in a fallback chain.
pub proof fn lemma_fallback_chain_distinct(name: Seq<char>)
    ensures
        forall|i: int, j: int|
            0 <= i < j < fallback_chain(name).len() ==> fallback_chain(name)[i] != fallback_chain(name)[j],
{
    lemma_chain_names_differ();
}


/// The model used when `auto` is asked for: for Hacker News content, the
/// light model below 15,000 words; for transcripts, below half an hour.
pub open spec fn auto_model(input: Seq<char>, is_hn: bool) -> Seq<char> {
    if is_hn {
        if words(input).len() < 15000 {
            "gemini-3.5-flash-lite"@
        } else {
            "gemini-3.6-flash"@
        }
    } else if duration_estimate(input) < 1800 {
        "gemini-3.5-flash-lite"@
    } else {
        "gemini-3.6-flash"@
    }
}

/// The model a run starts with: the requested one, or the automatic choice
/// for `auto`.
pub open spec fn starting_model(requested: Seq<char>, input: Seq<char>, is_hn: bool) -> Seq<char> {
    if requested == "auto"@ {
        auto_model(input, is_hn)
    } else {
        requested
    }
}

pub fn choose_starting_model(requested: &str, input: &str, is_hn: bool) -> (r: String)
    requires
        requested@ == "auto"@ && !is_hn ==> duration_in_range(input@),
    ensures
        r@ == starting_model(requested@, input@, is_hn),
{
    let rq = to_chars(requested);
    if !str_eq(rq.as_slice(), "auto") {
        return from_chars(rq.as_slice());
    }
    let pick_light = if is_hn {
        let v = to_chars(input);
        word_count(v.as_slice()) < 15000
    } else {
        get_transcript_duration_secs(input) < 1800
    };
    let name = if pick_light {
        to_chars("gemini-3.5-flash-lite")
    } else {
        to_chars("gemini-3.6-flash")
    };
    from_chars(name.as_slice())
}

/// Whether a generation error reports that the model is overloaded.
pub open spec fn high_demand_text(e: Seq<char>) -> bool {
    contains(e, "experiencing high demand"@) || contains(e, "high demand"@)
}

/// Milliseconds to wait before trying an overloaded model again after
/// `attempts` tries: ten minutes after the first, four hours after the
/// second (10 and 20 ms under test), none after the third.
pub open spec fn high_demand_wait(attempts: nat, test_mode: bool) -> Option<u64> {
    if attempts >= 3 {
        None
    } else if attempts == 1 {
        Some(if test_mode { 10u64 } else { 600000u64 })
    } else {
        Some(if test_mode { 20u64 } else { 14400000u64 })
    }
}

pub fn high_demand_retry_wait(attempts: u32, test_mode: bool) -> (r: Option<u64>)
    ensures
        r == high_demand_wait(attempts as nat, test_mode),
{
    if attempts >= 3 {
        None
    } else if attempts == 1 {
        Some(if test_mode { 10 } else { 600000 })
    } else {
        Some(if test_mode { 20 } else { 14400000 })
    }
}

// ---------------------------------------------------------------------
// The model pipeline: which model to try next, and when to give up
// ---------------------------------------------------------------------

/// What the runner of the model pipeline does next.
#[derive(Debug)]
pub enum PipelineAction {
    /// Look this model up among the configured ones and check its daily
    /// quota; then report `admitted` or `skipped`.
    Consider(String),
    /// Count a request against the model, record it on the row, keep to its
    /// per-minute limit, and generate; report a failure with `failed`.
    Generate(String),
    /// Wait this many milliseconds, then generate again with the same model.
    RetryAfter(u64),
    /// Give up with this error.
    Fail(SummaryError),
}

/// The decisions of one summarization run over a fallback chain.
pub struct ModelPipeline {
    chain: Vec<String>,
    position: usize,
    attempts: u32,
    last_error: Option<SummaryError>,
    test_mode: bool,
}

/// The error a run ends with once the chain is exhausted: the last rate-limit
/// error seen, or a plain rate-limit error.
pub open spec fn exhausted_error(last: Option<SummaryError>) -> SummaryError {
    match last {
        Some(e) => e,
        None => SummaryError::RateLimited,
    }
}

/// The action after moving to position `pos` of `chain`: consider the model
/// there, or give up when the chain is exhausted.
pub open spec fn candidate_action(
    chain: Seq<Seq<char>>,
    pos: nat,
    last: Option<SummaryError>,
    a: PipelineAction,
) -> bool {
    if pos < chain.len() {
        a matches PipelineAction::Consider(n) && n@ == chain[pos as int]
    } else {
        a matches PipelineAction::Fail(e) && e == exhausted_error(last)
    }
}

impl ModelPipeline {
    /// The models of the run, in order.
    pub closed spec fn chain(&self) -> Seq<Seq<char>> {
        self.chain@.map_values(|s: String| s@)
    }

    /// The position of the model being tried.
    pub closed spec fn position(&self) -> nat {
        self.position as nat
    }

    /// Generation attempts with the current model.
    pub closed spec fn attempts(&self) -> nat {
        self.attempts as nat
    }

    pub closed spec fn last_error(&self) -> Option<SummaryError> {
        self.last_error
    }

    pub closed spec fn test_mode(&self) -> bool {
        self.test_mode
    }

    /// At most three generation attempts are made with one model.
    #[verifier::type_invariant]
    closed spec fn attempts_bounded(&self) -> bool {
        self.attempts <= 3
    }

    /// Whether the chain still has a model to consider or to try.
    pub fn has_current(&self) -> (r: bool)
        ensures
            r == (self.position() < self.chain().len()),
    {
        assert(self.chain@.len() == self.chain().len());
        self.position < self.chain.len()
    }

    /// Whether a generation with the current model has been started.
    pub fn generating(&self) -> (r: bool)
        ensures
            r == (self.position() < self.chain().len() && self.attempts() >= 1),
    {
        assert(self.chain@.len() == self.chain().len());
        self.position < self.chain.len() && self.attempts >= 1
    }

    fn next_candidate(&mut self) -> (r: PipelineAction)
        ensures
            final(self).chain() == old(self).chain(),
            final(self).position() == old(self).position(),
            final(self).attempts() == old(self).attempts(),
            final(self).test_mode() == old(self).test_mode(),
            old(self).position() < old(self).chain().len() ==> final(self).last_error() == old(
                self,
            ).last_error(),
            candidate_action(old(self).chain(), old(self).position(), old(self).last_error(), r),
    {
        if self.position < self.chain.len() {
            assert(self.chain()[self.position as int] == self.chain@[self.position as int]@);
            let v = to_chars(self.chain[self.position].as_str());
            PipelineAction::Consider(from_chars(v.as_slice()))
        } else {
            proof {
                use_type_invariant(&*self);
            }
            let mut taken = ModelPipeline {
                chain: Vec::new(),
                position: 0,
                attempts: 0,
                last_error: None,
                test_mode: false,
            };
            std::mem::swap(self, &mut taken);
            let ModelPipeline { chain, position, attempts, last_error, test_mode } = taken;
            *self = ModelPipeline { chain, position, attempts, last_error: None, test_mode };
            match last_error {
                Some(e) => PipelineAction::Fail(e),
                None => PipelineAction::Fail(SummaryError::RateLimited),
            }
        }
    }

    /// Starts a run: picks the starting model (resolving `auto`), lays out its
    /// fallback chain, and considers its first model.
    pub fn start(requested_model: &str, input: &str, is_hn: bool, test_mode: bool) -> (r: (
        Self,
        PipelineAction,
    ))
        requires
            requested_model@ == "auto"@ && !is_hn ==> duration_in_range(input@),
        ensures
            r.0.attempts() <= 3,
            r.0.chain() == fallback_chain(starting_model(requested_model@, input@, is_hn)),
            r.0.position() == 0,
            r.0.attempts() == 0,
            r.0.last_error() is None,
            r.0.test_mode() == test_mode,
            candidate_action(r.0.chain(), 0, None, r.1),
    {
        let model = choose_starting_model(requested_model, input, is_hn);
        let names = get_fallback_chain(model.as_str());
        let mut chain: Vec<String> = Vec::new();
        let mut i: usize = 0;
        while i < names.len()
            invariant
                i <= names@.len(),
                chain@.map_values(|s: String| s@) == names@.map_values(|s: &str| s@).take(i as int),
            decreases names@.len() - i,
        {
            let ghost before = chain@.map_values(|s: String| s@);
            let v = to_chars(names[i]);
            chain.push(from_chars(v.as_slice()));
            assert(chain@.map_values(|s: String| s@) =~= before.push(names@[i as int]@));
            assert(names@.map_values(|s: &str| s@).take(i + 1) =~= names@.map_values(|s: &str| s@).take(i as int).push(names@[i as int]@));
            i = i + 1;
        }
        assert(names@.map_values(|s: &str| s@).take(names@.len() as int) == names@.map_values(|s: &str| s@));
        let mut p = ModelPipeline { chain, position: 0, attempts: 0, last_error: None, test_mode };
        let a = p.next_candidate();
        (p, a)
    }

    /// The current model is unknown or has used its daily quota: move on.
    pub fn skipped(&mut self) -> (r: PipelineAction)
        requires
            old(self).position() < old(self).chain().len(),
        ensures
            final(self).attempts() <= 3,
            final(self).chain() == old(self).chain(),
            final(self).position() == old(self).position() + 1,
            final(self).attempts() == 0,
            final(self).position() < final(self).chain().len() ==> final(self).last_error() == old(
                self,
            ).last_error(),
            final(self).test_mode() == old(self).test_mode(),
            candidate_action(final(self).chain(), final(self).position(), old(self).last_error(), r),
    {
        proof {
            use_type_invariant(&*self);
        }
        let chain_len = self.chain.len();
        assert(self.chain@.len() == self.chain().len());
        assert(self.position < chain_len);
        self.position = self.position + 1;
        self.attempts = 0;
        self.next_candidate()
    }

    /// The current model may be used: generate with it.
    pub fn admitted(&mut self) -> (r: PipelineAction)
        requires
            old(self).position() < old(self).chain().len(),
        ensures
            final(self).attempts() <= 3,
            final(self).chain() == old(self).chain(),
            final(self).position() == old(self).position(),
            final(self).attempts() == 1,
            final(self).last_error() == old(self).last_error(),
            final(self).test_mode() == old(self).test_mode(),
            r matches PipelineAction::Generate(n) && n@ == old(self).chain()[old(self).position() as int],
    {
        proof {
            use_type_invariant(&*self);
        }
        self.attempts = 1;
        assert(self.chain()[self.position as int] == self.chain@[self.position as int]@);
        let v = to_chars(self.chain[self.position].as_str());
        PipelineAction::Generate(from_chars(v.as_slice()))
    }

    /// Generation with the current model failed with `e`.  An overloaded
    /// model is tried again after a wait, at most three times in all; a rate
    /// limited one gives way to the next model; any other error ends the run.
    pub fn failed(&mut self, e: SummaryError) -> (r: PipelineAction)
        requires
            old(self).position() < old(self).chain().len(),
            old(self).attempts() >= 1,
        ensures
            final(self).attempts() <= 3,
            final(self).chain() == old(self).chain(),
            final(self).test_mode() == old(self).test_mode(),
            high_demand_text(summary_error_text(e)) && old(self).attempts() < 3 ==> {
                &&& r matches PipelineAction::RetryAfter(ms) && Some(ms) == high_demand_wait(
                    old(self).attempts(),
                    old(self).test_mode(),
                )
                &&& final(self).attempts() == old(self).attempts() + 1
                &&& final(self).position() == old(self).position()
                &&& final(self).last_error() == old(self).last_error()
            },
            !(high_demand_text(summary_error_text(e)) && old(self).attempts() < 3)
                && rate_limited_error(e) ==> {
                &&& final(self).position() == old(self).position() + 1
                &&& final(self).attempts() == 0
                &&& final(self).position() < final(self).chain().len() ==> final(self).last_error()
                    == Some(e)
                &&& candidate_action(final(self).chain(), final(self).position(), Some(e), r)
            },
            !(high_demand_text(summary_error_text(e)) && old(self).attempts() < 3)
                && !rate_limited_error(e) ==> r == PipelineAction::Fail(e),
    {
        proof {
            use_type_invariant(&*self);
        }
        let text = e.message();
        let t = to_chars(text.as_str());
        let high_demand = str_contains(t.as_slice(), "experiencing high demand") || str_contains(
            t.as_slice(),
            "high demand",
        );
        if high_demand && self.attempts < 3 {
            let wait = high_demand_retry_wait(self.attempts, self.test_mode);
            self.attempts = self.attempts + 1;
            match wait {
                Some(ms) => {
                    return PipelineAction::RetryAfter(ms);
                },
                None => {
                    return PipelineAction::RetryAfter(0);
                },
            }
        }
        if is_summary_rate_limited(&e) {
            let chain_len = self.chain.len();
            assert(self.chain@.len() == self.chain().len());
            assert(self.position < chain_len);
            self.last_error = Some(e);
            self.position = self.position + 1;
            self.attempts = 0;
            return self.next_candidate();
        }
        PipelineAction::Fail(e)
    }
}

// ---------------------------------------------------------------------
// Putting a multi-item run together
// ---------------------------------------------------------------------

/// How a submission is processed: each link fetched and summarized in turn
/// (no transcript stored yet), a Hacker News story with the stored text as
/// the article, or a pasted transcript.
#[derive(Clone, Copy, Debug, PartialEq, Eq, Structural)]
pub enum ProcessingMode {
    PerItem,
    HackerNews,
    Pasted,
}

/// The first link of a source, or nothing.
pub open spec fn first_item(source: Seq<char>) -> Seq<char> {
    if url_items(source).len() > 0 {
        url_items(source)[0]
    } else {
        Seq::empty()
    }
}

pub open spec fn processing_mode_for(transcript: Seq<char>, source: Seq<char>) -> ProcessingMode {
    if transcript.len() == 0 {
        ProcessingMode::PerItem
    } else if hn_id(first_item(source)) is Some {
        ProcessingMode::HackerNews
    } else {
        ProcessingMode::Pasted
    }
}

pub fn processing_mode(transcript: &str, source_link: &str) -> (r: ProcessingMode)
    ensures
        r == processing_mode_for(transcript@, source_link@),
{
    let t = to_chars(transcript);
    if t.len() == 0 {
        return ProcessingMode::PerItem;
    }
    let urls = split_urls(source_link);
    assert(urls@.map_values(|s: String| s@).len() == urls@.len());
    if urls.len() == 0 {
        proof {
            reveal_strlit("");
        }
        let e: Vec<char> = Vec::new();
        let es = from_chars(e.as_slice());
        if validate_hn_url(es.as_str()).is_some() {
            return ProcessingMode::HackerNews;
        }
        return ProcessingMode::Pasted;
    }
    assert(urls@.map_values(|s: String| s@)[0] == urls@[0]@);
    if validate_hn_url(urls[0].as_str()).is_some() {
        ProcessingMode::HackerNews
    } else {
        ProcessingMode::Pasted
    }
}

/// The stored text handed to the Hacker News fetch as the article: nothing
/// when it is blank.
pub fn pasted_article(transcript: &str) -> (r: Option<&str>)
    ensures
        r is None <==> trim(transcript@).len() == 0,
        r matches Some(s) ==> s@ == transcript@,
{
    let t = to_chars(transcript);
    if is_blank(t.as_slice()) {
        None
    } else {
        Some(transcript)
    }
}

/// The heading written before each item's summary when a run has several.
pub open spec fn summary_heading(url: Seq<char>) -> Seq<char> {
    "\n\n### Summary for "@ + url + seq!['\n']
}

pub fn summary_header(url: &str) -> (r: String)
    ensures
        r@ == summary_heading(url@),
{
    let mut v = to_chars("\n\n### Summary for ");
    extend_str(&mut v, url);
    v.push('\n');
    assert(v@ =~= summary_heading(url@));
    from_chars(v.as_slice())
}

/// The card written in place of an item's summary when the item failed.
pub open spec fn error_card_text(url: Seq<char>, e: ProcessError) -> Seq<char> {
    "\n\n### Error for "@ + url + "\nError: "@ + reported_error(e) + seq!['\n']
}

pub fn error_card(url: &str, e: &ProcessError) -> (r: String)
    ensures
        r@ == error_card_text(url@, *e),
{
    let mut v = to_chars("\n\n### Error for ");
    extend_str(&mut v, url);
    extend_str(&mut v, "\nError: ");
    let m = format_process_error(e);
    extend_str(&mut v, m.as_str());
    v.push('\n');
    assert(v@ =~= error_card_text(url@, *e));
    from_chars(v.as_slice())
}

/// The summary written when a pasted transcript could not be summarized.
pub fn pasted_error_card(e: &ProcessError) -> (r: String)
    ensures
        r@ == "Error: "@ + reported_error(*e),
{
    let mut v = to_chars("Error: ");
    let m = format_process_error(e);
    extend_str(&mut v, m.as_str());
    from_chars(v.as_slice())
}

/// The texts and token counts of a run, summed over its items.
#[derive(Debug)]
pub struct CombinedOutput {
    pub summary_text: String,
    pub thinking_text: String,
    pub input_tokens: u64,
    pub output_tokens: u64,
    pub thinking_tokens: u64,
}

/// The thinking text after an item's thoughts are added under a heading,
/// separated from earlier ones by a blank line.
pub open spec fn thinking_after(before: Seq<char>, url: Seq<char>, thinking: Seq<char>) -> Seq<char> {
    let sep = if before.len() > 0 {
        before + "\n\n"@
    } else {
        before
    };
    sep + "--- Thinking for "@ + url + " ---\n"@ + thinking
}

impl CombinedOutput {
    pub fn new() -> (r: Self)
        ensures
            r.summary_text@ == Seq::<char>::empty(),
            r.thinking_text@ == Seq::<char>::empty(),
            r.input_tokens == 0 && r.output_tokens == 0 && r.thinking_tokens == 0,
    {
        let e: Vec<char> = Vec::new();
        CombinedOutput {
            summary_text: from_chars(e.as_slice()),
            thinking_text: from_chars(e.as_slice()),
            input_tokens: 0,
            output_tokens: 0,
            thinking_tokens: 0,
        }
    }

    /// Adds an item that was summarized.
    pub fn add_success(
        &mut self,
        url: &str,
        summary_text: &str,
        thinking_text: &str,
        input_tokens: u64,
        output_tokens: u64,
        thinking_tokens: u64,
    )
        requires
            old(self).input_tokens + input_tokens <= u64::MAX,
            old(self).output_tokens + output_tokens <= u64::MAX,
            old(self).thinking_tokens + thinking_tokens <= u64::MAX,
        ensures
            final(self).input_tokens == old(self).input_tokens + input_tokens,
            final(self).output_tokens == old(self).output_tokens + output_tokens,
            final(self).thinking_tokens == old(self).thinking_tokens + thinking_tokens,
            final(self).thinking_text@ == thinking_after(old(self).thinking_text@, url@, thinking_text@),
            final(self).summary_text@ == old(self).summary_text@ + summary_text@,
    {
        self.input_tokens = self.input_tokens + input_tokens;
        self.output_tokens = self.output_tokens + output_tokens;
        self.thinking_tokens = self.thinking_tokens + thinking_tokens;
        let mut t = to_chars(self.thinking_text.as_str());
        if t.len() > 0 {
            extend_str(&mut t, "\n\n");
        }
        extend_str(&mut t, "--- Thinking for ");
        extend_str(&mut t, url);
        extend_str(&mut t, " ---\n");
        extend_str(&mut t, thinking_text);
        assert(t@ =~= thinking_after(old(self).thinking_text@, url@, thinking_text@));
        self.thinking_text = from_chars(t.as_slice());
        let mut s = to_chars(self.summary_text.as_str());
        extend_str(&mut s, summary_text);
        self.summary_text = from_chars(s.as_slice());
    }

    /// Adds the card of an item that failed.
    pub fn add_failure(&mut self, card: &str)
        ensures
            final(self).summary_text@ == old(self).summary_text@ + card@,
            final(self).thinking_text@ == old(self).thinking_text@,
            final(self).input_tokens == old(self).input_tokens,
            final(self).output_tokens == old(self).output_tokens,
            final(self).thinking_tokens == old(self).thinking_tokens,
    {
        let mut s = to_chars(self.summary_text.as_str());
        extend_str(&mut s, card);
        self.summary_text = from_chars(s.as_slice());
    }
}

/// The transcripts of a run joined for storage: each under a heading, with
/// blank lines between, when the run has several links; as they are when it
/// has one.
pub open spec fn joined_transcripts(multi: bool, items: Seq<(Seq<char>, Seq<char>)>) -> Seq<char>
    decreases items.len(),
{
    if items.len() == 0 {
        Seq::empty()
    } else {
        let prev = joined_transcripts(multi, items.drop_last());
        let (url, t) = items.last();
        if multi {
            let sep = if items.len() > 1 {
                prev + "\n\n"@
            } else {
                prev
            };
            sep + "--- Transcript for "@ + url + " ---\n"@ + t
        } else {
            prev + t
        }
    }
}

pub fn combined_transcript(multi: bool, items: &Vec<(String, String)>) -> (r: String)
    ensures
        r@ == joined_transcripts(multi, items@.map_values(|p: (String, String)| (p.0@, p.1@))),
{
    let ghost iv = items@.map_values(|p: (String, String)| (p.0@, p.1@));
    let mut v: Vec<char> = Vec::new();
    let mut i: usize = 0;
    assert(iv.take(0) =~= Seq::<(Seq<char>, Seq<char>)>::empty());
    while i < items.len()
        invariant
            i <= items@.len(),
            iv == items@.map_values(|p: (String, String)| (p.0@, p.1@)),
            v@ == joined_transcripts(multi, iv.take(i as int)),
        decreases items@.len() - i,
    {
        let ghost t = iv.take(i + 1);
        assert(t.drop_last() == iv.take(i as int));
        assert(t.last() == (items@[i as int].0@, items@[i as int].1@));
        if multi {
            if i > 0 {
                extend_str(&mut v, "\n\n");
            }
            extend_str(&mut v, "--- Transcript for ");
            extend_str(&mut v, items[i].0.as_str());
            extend_str(&mut v, " ---\n");
        }
        extend_str(&mut v, items[i].1.as_str());
        assert(v@ =~= joined_transcripts(multi, t));
        i = i + 1;
    }
    assert(iv.take(items@.len() as int) == iv);
    from_chars(v.as_slice())
}

} // verus!
