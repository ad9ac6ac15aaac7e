//! Provider-neutral, persisted generation lifecycle rules.
use vstd::prelude::*;
use core::time::Duration;
use crate::text::{to_chars, str_contains, trim_range};
use crate::strops::{to_ascii_lowercase, ascii_lower, utf8_len, char_utf8_len, lemma_utf8_len_bound};
use crate::text::{contains, occurs_at, trim};

verus! {

#[derive(Debug, Clone, Copy, PartialEq, Eq, Structural)]
pub enum GenerationStatus {
    Queued,
    Running,
    RetryWait,
    Succeeded,
    Failed,
    PartialFailed,
}

/// The stable, lowercase spelling of each status.
pub open spec fn status_name(s: GenerationStatus) -> Seq<char> {
    match s {
        GenerationStatus::Queued => "queued"@,
        GenerationStatus::Running => "running"@,
        GenerationStatus::RetryWait => "retry_wait"@,
        GenerationStatus::Succeeded => "succeeded"@,
        GenerationStatus::Failed => "failed"@,
        GenerationStatus::PartialFailed => "partial_failed"@,
    }
}

/// The status whose spelling is `v`, if any.
pub open spec fn status_from_name(v: Seq<char>) -> Option<GenerationStatus> {
    if v == "queued"@ {
        Some(GenerationStatus::Queued)
    } else if v == "running"@ {
        Some(GenerationStatus::Running)
    } else if v == "retry_wait"@ {
        Some(GenerationStatus::RetryWait)
    } else if v == "succeeded"@ {
        Some(GenerationStatus::Succeeded)
    } else if v == "failed"@ {
        Some(GenerationStatus::Failed)
    } else if v == "partial_failed"@ {
        Some(GenerationStatus::PartialFailed)
    } else {
        None
    }
}

pub open spec fn status_is_terminal(s: GenerationStatus) -> bool {
    s is Succeeded || s is Failed || s is PartialFailed
}

/// The lifecycle: queued -> running -> (retry_wait | terminal), retry_wait ->
/// (running | failed | partial_failed), and a failed generation may be queued again.
pub open spec fn status_transition(from: GenerationStatus, to: GenerationStatus) -> bool {
    match (from, to) {
        (GenerationStatus::Queued, GenerationStatus::Running) => true,
        (GenerationStatus::Running, GenerationStatus::RetryWait) => true,
        (GenerationStatus::Running, GenerationStatus::Succeeded) => true,
        (GenerationStatus::Running, GenerationStatus::Failed) => true,
        (GenerationStatus::Running, GenerationStatus::PartialFailed) => true,
        (GenerationStatus::RetryWait, GenerationStatus::Running) => true,
        (GenerationStatus::RetryWait, GenerationStatus::Failed) => true,
        (GenerationStatus::RetryWait, GenerationStatus::PartialFailed) => true,
        (GenerationStatus::Failed, GenerationStatus::Queued) => true,
        (GenerationStatus::PartialFailed, GenerationStatus::Queued) => true,
        _ => false,
    }
}

impl GenerationStatus {
    pub fn as_str(self) -> (r: &'static str)
        ensures
            r@ == status_name(self),
    {
        match self {
            GenerationStatus::Queued => "queued",
            GenerationStatus::Running => "running",
            GenerationStatus::RetryWait => "retry_wait",
            GenerationStatus::Succeeded => "succeeded",
            GenerationStatus::Failed => "failed",
            GenerationStatus::PartialFailed => "partial_failed",
        }
    }

    pub fn is_terminal(self) -> (r: bool)
        ensures
            r == status_is_terminal(self),
    {
        match self {
            GenerationStatus::Succeeded | GenerationStatus::Failed
            | GenerationStatus::PartialFailed => true,
            _ => false,
        }
    }

    pub fn can_transition_to(self, next: Self) -> (r: bool)
        ensures
            r == status_transition(self, next),
    {
        match (self, next) {
            (GenerationStatus::Queued, GenerationStatus::Running) => true,
            (GenerationStatus::Running, GenerationStatus::RetryWait) => true,
            (GenerationStatus::Running, GenerationStatus::Succeeded) => true,
            (GenerationStatus::Running, GenerationStatus::Failed) => true,
            (GenerationStatus::Running, GenerationStatus::PartialFailed) => true,
            (GenerationStatus::RetryWait, GenerationStatus::Running) => true,
            (GenerationStatus::RetryWait, GenerationStatus::Failed) => true,
            (GenerationStatus::RetryWait, GenerationStatus::PartialFailed) => true,
            (GenerationStatus::Failed, GenerationStatus::Queued) => true,
            (GenerationStatus::PartialFailed, GenerationStatus::Queued) => true,
            _ => false,
        }
    }

    /// Parses the stable spelling back into a status (what `FromStr` does).
    pub fn parse(value: &str) -> (r: Result<Self, &'static str>)
        ensures
            r matches Ok(s) ==> status_from_name(value@) == Some(s),
            r is Err <==> status_from_name(value@) is None,
            r matches Err(e) ==> e@ == "unknown generation status"@,
    {
        let v = to_chars(value);
        let v = v.as_slice();
        if crate::text::str_eq(v, "queued") {
            Ok(GenerationStatus::Queued)
        } else if crate::text::str_eq(v, "running") {
            Ok(GenerationStatus::Running)
        } else if crate::text::str_eq(v, "retry_wait") {
            Ok(GenerationStatus::RetryWait)
        } else if crate::text::str_eq(v, "succeeded") {
            Ok(GenerationStatus::Succeeded)
        } else if crate::text::str_eq(v, "failed") {
            Ok(GenerationStatus::Failed)
        } else if crate::text::str_eq(v, "partial_failed") {
            Ok(GenerationStatus::PartialFailed)
        } else {
            Err("unknown generation status")
        }
    }
}

impl core::str::FromStr for GenerationStatus {
    type Err = &'static str;

    fn from_str(value: &str) -> (r: Result<Self, Self::Err>)
        ensures
            r matches Ok(x) ==> status_from_name(value@) == Some(x),
            r is Err <==> status_from_name(value@) is None,
            r matches Err(e) ==> e@ == "unknown generation status"@,
    {
        GenerationStatus::parse(value)
    }
}

/// Every status spells differently, so parsing a spelling gives the status back.
pub proof fn lemma_status_name_roundtrip(s: GenerationStatus)
    ensures
        status_from_name(status_name(s)) == Some(s),
{
    reveal_strlit("queued");
    reveal_strlit("running");
    reveal_strlit("retry_wait");
    reveal_strlit("succeeded");
    reveal_strlit("failed");
    reveal_strlit("partial_failed");
    assert("queued"@[0] != "failed"@[0]);
    assert("retry_wait"@.len() == 10);
    assert("succeeded"@.len() == 9);
    assert("partial_failed"@.len() == 14);
    assert("queued"@.len() != "running"@.len());
    match s {
        GenerationStatus::Queued => {},
        GenerationStatus::Running => {
            assert("running"@ != "queued"@);
        },
        GenerationStatus::RetryWait => {
            assert("retry_wait"@ != "queued"@);
            assert("retry_wait"@ != "running"@);
        },
        GenerationStatus::Succeeded => {
            assert("succeeded"@ != "queued"@);
            assert("succeeded"@ != "running"@);
            assert("succeeded"@ != "retry_wait"@);
        },
        GenerationStatus::Failed => {
            assert("failed"@ != "queued"@);
            assert("failed"@ != "running"@);
            assert("failed"@ != "retry_wait"@);
            assert("failed"@ != "succeeded"@);
        },
        GenerationStatus::PartialFailed => {
            assert("partial_failed"@ != "queued"@);
            assert("partial_failed"@ != "running"@);
            assert("partial_failed"@ != "retry_wait"@);
            assert("partial_failed"@ != "succeeded"@);
            assert("partial_failed"@ != "failed"@);
        },
    }
}

/// The lifecycle has no self-loops; a terminal generation can only be queued
/// again (and a succeeded one not even that); a generation becomes terminal only
/// from `running` or `retry_wait`; a queued generation can only start running.
pub proof fn lemma_lifecycle(s: GenerationStatus, t: GenerationStatus)
    ensures
        !status_transition(s, s),
        status_transition(s, t) && status_is_terminal(s) ==> t is Queued && !(s is Succeeded),
        status_transition(s, t) && status_is_terminal(t) ==> (s is Running || s is RetryWait),
        status_transition(s, t) && s is Queued ==> t is Running,
        status_transition(s, t) && t is Queued ==> status_is_terminal(s),
{
}

#[derive(Debug, Clone, Copy, PartialEq, Eq, Structural)]
pub enum PublicErrorCode {
    Unavailable,
    RateLimited,
    NetworkInterrupted,
    ProviderAborted,
    IncompleteOutput,
    SafetyRefusal,
    InvalidRequest,
    Internal,
}

pub open spec fn error_code_name(c: PublicErrorCode) -> Seq<char> {
    match c {
        PublicErrorCode::Unavailable => "unavailable"@,
        PublicErrorCode::RateLimited => "rate_limited"@,
        PublicErrorCode::NetworkInterrupted => "network_interrupted"@,
        PublicErrorCode::ProviderAborted => "provider_aborted"@,
        PublicErrorCode::IncompleteOutput => "incomplete_output"@,
        PublicErrorCode::SafetyRefusal => "safety_refusal"@,
        PublicErrorCode::InvalidRequest => "invalid_request"@,
        PublicErrorCode::Internal => "internal"@,
    }
}

pub open spec fn error_code_from_name(v: Seq<char>) -> Option<PublicErrorCode> {
    if v == "unavailable"@ {
        Some(PublicErrorCode::Unavailable)
    } else if v == "rate_limited"@ {
        Some(PublicErrorCode::RateLimited)
    } else if v == "network_interrupted"@ {
        Some(PublicErrorCode::NetworkInterrupted)
    } else if v == "provider_aborted"@ {
        Some(PublicErrorCode::ProviderAborted)
    } else if v == "incomplete_output"@ {
        Some(PublicErrorCode::IncompleteOutput)
    } else if v == "safety_refusal"@ {
        Some(PublicErrorCode::SafetyRefusal)
    } else if v == "invalid_request"@ {
        Some(PublicErrorCode::InvalidRequest)
    } else if v == "internal"@ {
        Some(PublicErrorCode::Internal)
    } else {
        None
    }
}

/// The user-facing text for each error code.
pub open spec fn error_code_message(c: PublicErrorCode) -> Seq<char> {
    match c {
        PublicErrorCode::Unavailable => "The model is temporarily unavailable. Retrying shortly."@,
        PublicErrorCode::RateLimited => "This model is rate limited. Please try again later."@,
        PublicErrorCode::NetworkInterrupted => "The connection to the model was interrupted. Retrying shortly."@,
        PublicErrorCode::ProviderAborted => "The model stopped before completing the summary."@,
        PublicErrorCode::IncompleteOutput => "The model returned an incomplete summary."@,
        PublicErrorCode::SafetyRefusal => "The model could not generate this summary due to safety restrictions."@,
        PublicErrorCode::InvalidRequest => "This request could not be processed."@,
        PublicErrorCode::Internal => "Summary generation failed unexpectedly."@,
    }
}

pub open spec fn error_code_retryable(c: PublicErrorCode) -> bool {
    c is Unavailable || c is NetworkInterrupted
}

proof fn lemma_absent_first_char(hay: Seq<char>, needle: Seq<char>)
    requires
        needle.len() > 0,
        forall|k: int| 0 <= k < hay.len() ==> hay[k] != needle[0],
    ensures
        !contains(hay, needle),
{
    assert forall|i: int| !occurs_at(hay, needle, i) by {
        if occurs_at(hay, needle, i) {
            assert(hay.subrange(i, i + needle.len())[0] == hay[i]);
        }
    }
}

proof fn lemma_occurs_at_end(hay: Seq<char>, needle: Seq<char>, i: int)
    requires
        0 <= i,
        i + needle.len() <= hay.len(),
        hay.subrange(i, i + needle.len()) =~= needle,
    ensures
        contains(hay, needle),
{
    assert(occurs_at(hay, needle, i));
}

/// Every error message is a non-empty sentence, and it promises a retry
/// ("Retrying shortly") exactly when the code is retryable.
pub proof fn lemma_message_promises_retry(c: PublicErrorCode)
    ensures
        error_code_message(c).len() > 0,
        contains(error_code_message(c), "Retrying shortly"@) <==> error_code_retryable(c),
{
    let needle = "Retrying shortly"@;
    reveal_strlit("Retrying shortly");
    assert(needle[0] == 'R');
    let m = error_code_message(c);
    match c {
        PublicErrorCode::Unavailable => {
            reveal_strlit("The model is temporarily unavailable. Retrying shortly.");
            lemma_occurs_at_end(m, needle, m.len() - 17);
        },
        PublicErrorCode::NetworkInterrupted => {
            reveal_strlit("The connection to the model was interrupted. Retrying shortly.");
            lemma_occurs_at_end(m, needle, m.len() - 17);
        },
        PublicErrorCode::RateLimited => {
            reveal_strlit("This model is rate limited. Please try again later.");
            lemma_absent_first_char(m, needle);
        },
        PublicErrorCode::ProviderAborted => {
            reveal_strlit("The model stopped before completing the summary.");
            lemma_absent_first_char(m, needle);
        },
        PublicErrorCode::IncompleteOutput => {
            reveal_strlit("The model returned an incomplete summary.");
            lemma_absent_first_char(m, needle);
        },
        PublicErrorCode::SafetyRefusal => {
            reveal_strlit("The model could not generate this summary due to safety restrictions.");
            lemma_absent_first_char(m, needle);
        },
        PublicErrorCode::InvalidRequest => {
            reveal_strlit("This request could not be processed.");
            lemma_absent_first_char(m, needle);
        },
        PublicErrorCode::Internal => {
            reveal_strlit("Summary generation failed unexpectedly.");
            lemma_absent_first_char(m, needle);
        },
    }
}

impl PublicErrorCode {
    pub fn as_str(self) -> (r: &'static str)
        ensures
            r@ == error_code_name(self),
    {
        match self {
            PublicErrorCode::Unavailable => "unavailable",
            PublicErrorCode::RateLimited => "rate_limited",
            PublicErrorCode::NetworkInterrupted => "network_interrupted",
            PublicErrorCode::ProviderAborted => "provider_aborted",
            PublicErrorCode::IncompleteOutput => "incomplete_output",
            PublicErrorCode::SafetyRefusal => "safety_refusal",
            PublicErrorCode::InvalidRequest => "invalid_request",
            PublicErrorCode::Internal => "internal",
        }
    }

    pub fn message(self) -> (r: &'static str)
        ensures
            r@ == error_code_message(self),
    {
        match self {
            PublicErrorCode::Unavailable => "The model is temporarily unavailable. Retrying shortly.",
            PublicErrorCode::RateLimited => "This model is rate limited. Please try again later.",
            PublicErrorCode::NetworkInterrupted => "The connection to the model was interrupted. Retrying shortly.",
            PublicErrorCode::ProviderAborted => "The model stopped before completing the summary.",
            PublicErrorCode::IncompleteOutput => "The model returned an incomplete summary.",
            PublicErrorCode::SafetyRefusal => "The model could not generate this summary due to safety restrictions.",
            PublicErrorCode::InvalidRequest => "This request could not be processed.",
            PublicErrorCode::Internal => "Summary generation failed unexpectedly.",
        }
    }

    pub fn retryable(self) -> (r: bool)
        ensures
            r == error_code_retryable(self),
    {
        match self {
            PublicErrorCode::Unavailable | PublicErrorCode::NetworkInterrupted => true,
            _ => false,
        }
    }

    /// Parses the stable spelling back into a code (what `FromStr` does).
    pub fn parse(v: &str) -> (r: Result<Self, &'static str>)
        ensures
            r matches Ok(c) ==> error_code_from_name(v@) == Some(c),
            r is Err <==> error_code_from_name(v@) is None,
            r matches Err(e) ==> e@ == "unknown public error code"@,
    {
        let s = to_chars(v);
        let s = s.as_slice();
        if crate::text::str_eq(s, "unavailable") {
            Ok(PublicErrorCode::Unavailable)
        } else if crate::text::str_eq(s, "rate_limited") {
            Ok(PublicErrorCode::RateLimited)
        } else if crate::text::str_eq(s, "network_interrupted") {
            Ok(PublicErrorCode::NetworkInterrupted)
        } else if crate::text::str_eq(s, "provider_aborted") {
            Ok(PublicErrorCode::ProviderAborted)
        } else if crate::text::str_eq(s, "incomplete_output") {
            Ok(PublicErrorCode::IncompleteOutput)
        } else if crate::text::str_eq(s, "safety_refusal") {
            Ok(PublicErrorCode::SafetyRefusal)
        } else if crate::text::str_eq(s, "invalid_request") {
            Ok(PublicErrorCode::InvalidRequest)
        } else if crate::text::str_eq(s, "internal") {
            Ok(PublicErrorCode::Internal)
        } else {
            Err("unknown public error code")
        }
    }
}

impl core::str::FromStr for PublicErrorCode {
    type Err = &'static str;

    fn from_str(v: &str) -> (r: Result<Self, Self::Err>)
        ensures
            r matches Ok(x) ==> error_code_from_name(v@) == Some(x),
            r is Err <==> error_code_from_name(v@) is None,
            r matches Err(e) ==> e@ == "unknown public error code"@,
    {
        PublicErrorCode::parse(v)
    }
}

/// Every error code spells differently, so parsing a spelling gives the code back.
pub proof fn lemma_error_code_name_roundtrip(c: PublicErrorCode)
    ensures
        error_code_from_name(error_code_name(c)) == Some(c),
{
    reveal_strlit("unavailable");
    reveal_strlit("rate_limited");
    reveal_strlit("network_interrupted");
    reveal_strlit("provider_aborted");
    reveal_strlit("incomplete_output");
    reveal_strlit("safety_refusal");
    reveal_strlit("invalid_request");
    reveal_strlit("internal");
    let names = seq![
        "unavailable"@,
        "rate_limited"@,
        "network_interrupted"@,
        "provider_aborted"@,
        "incomplete_output"@,
        "safety_refusal"@,
        "invalid_request"@,
        "internal"@,
    ];
    assert(names[0].len() == 11 && names[1].len() == 12 && names[2].len() == 19 && names[3].len()
        == 16 && names[4].len() == 17 && names[5].len() == 14 && names[6].len() == 15
        && names[7].len() == 8);
}

pub const MAX_RETRY_ATTEMPTS: i64 = 3;

pub open spec fn pow2(n: nat) -> nat
    decreases n,
{
    if n == 0 {
        1
    } else {
        2 * pow2((n - 1) as nat)
    }
}

/// Seconds to wait before retry number `attempt`: 30 s doubled per attempt,
/// the exponent capped at 4, the whole capped at 600 s.
pub open spec fn retry_delay_secs_spec(attempt: int) -> nat {
    let e: nat = if attempt < 4 {
        attempt as nat
    } else {
        4
    };
    let d = 30 * pow2(e);
    if d < 600 {
        d
    } else {
        600
    }
}

/// What `Duration::from_secs` gives for a number of seconds.
pub uninterp spec fn duration_from_secs_spec(secs: u64) -> Duration;

/// `std::time::Duration::from_secs`. `Duration` is opaque to the proofs, so
/// the contract only names the result as a function of the seconds.
#[verifier::external_body]
fn duration_from_secs(secs: u64) -> (d: Duration)
    ensures
        d == duration_from_secs_spec(secs),
{
    Duration::from_secs(secs)
}

/// The retry delay in seconds (the exponent `attempt` is capped at 4).
pub fn retry_delay_secs(attempt: i64) -> (r: u64)
    requires
        attempt >= 0,
    ensures
        r == retry_delay_secs_spec(attempt as int),
{
    let e: i64 = if attempt < 4 {
        attempt
    } else {
        4
    };
    let mut d: u64 = 30;
    let mut i: i64 = 0;
    while i < e
        invariant
            0 <= i <= e <= 4,
            d == 30 * pow2(i as nat),
            d <= 480,
        decreases e - i,
    {
        proof {
            reveal_with_fuel(pow2, 5);
        }
        d = d * 2;
        i = i + 1;
    }
    if d < 600 {
        d
    } else {
        600
    }
}

/// The backoff before retry number `attempt`.
pub fn retry_delay(attempt: i64) -> (d: Duration)
    requires
        attempt >= 0,
    ensures
        d == duration_from_secs_spec(retry_delay_secs_spec(attempt as int) as u64),
{
    duration_from_secs(retry_delay_secs(attempt))
}

/// Retry delays never shrink as attempts grow, and stay between 30 s and 600 s.
pub proof fn lemma_retry_delay_monotone(a: int, b: int)
    requires
        0 <= a <= b,
    ensures
        retry_delay_secs_spec(a) <= retry_delay_secs_spec(b),
        30 <= retry_delay_secs_spec(a) <= 600,
{
    reveal_with_fuel(pow2, 5);
}

/// The lowercase section headings a complete summary must contain.
pub open spec fn required_headings(is_hn: bool) -> Seq<Seq<char>> {
    if is_hn {
        seq!["abstract"@, "key points"@, "discussion highlights"@]
    } else {
        seq!["abstract"@, "key highlights"@]
    }
}

/// A complete output has at least 80 bytes once trimmed and every required
/// heading (matched case-insensitively).
pub open spec fn output_is_complete(text: Seq<char>, is_hn: bool) -> bool {
    utf8_len(trim(text)) >= 80 && forall|i: int|
        0 <= i < required_headings(is_hn).len() ==> contains(
            ascii_lower(text),
            #[trigger] required_headings(is_hn)[i],
        )
}

/// `min(utf8_len(s), cap)`, without overflow.
fn utf8_len_capped(s: &[char], cap: usize) -> (n: usize)
    requires
        cap <= 1000,
    ensures
        n as int == (if utf8_len(s@) < cap {
            utf8_len(s@) as int
        } else {
            cap as int
        }),
{
    let mut n: usize = 0;
    let mut i: usize = 0;
    while i < s.len() && n < cap
        invariant
            i <= s@.len(),
            cap <= 1000,
            n <= cap + 4,
            n == utf8_len(s@.take(i as int)),
        decreases s@.len() - i,
    {
        let u = s[i] as u32;
        let w: usize = if u < 0x80 {
            1
        } else if u < 0x800 {
            2
        } else if u < 0x10000 {
            3
        } else {
            4
        };
        assert(s@.take(i + 1).drop_last() == s@.take(i as int));
        assert(w == char_utf8_len(s@[i as int]));
        n = n + w;
        i = i + 1;
    }
    proof {
        lemma_utf8_len_prefix(s@, i as int);
        if i == s@.len() {
            assert(s@.take(i as int) == s@);
        }
    }
    if n < cap {
        n
    } else {
        cap
    }
}

proof fn lemma_utf8_len_prefix(s: Seq<char>, k: int)
    requires
        0 <= k <= s.len(),
    ensures
        utf8_len(s.take(k)) <= utf8_len(s),
    decreases s.len(),
{
    if k < s.len() {
        assert(s.drop_last().take(k) == s.take(k));
        lemma_utf8_len_prefix(s.drop_last(), k);
    } else {
        assert(s.take(k) == s);
    }
}

/// Accepts a generated summary only when it is complete.
pub fn validate_complete_output(text: &str, is_hn: bool) -> (r: Result<(), PublicErrorCode>)
    ensures
        r is Ok <==> output_is_complete(text@, is_hn),
        r matches Err(c) ==> c is IncompleteOutput,
{
    let v = to_chars(text);
    let lower = to_ascii_lowercase(v.as_slice());
    let (a, b) = trim_range(v.as_slice());
    let t = crate::text::slice_range(v.as_slice(), a, b);
    let n = utf8_len_capped(t.as_slice(), 80);
    let l = lower.as_slice();
    proof {
        reveal_strlit("abstract");
        reveal_strlit("key points");
        reveal_strlit("discussion highlights");
        reveal_strlit("key highlights");
    }
    let has_all = if is_hn {
        let h1 = str_contains(l, "abstract");
        let h2 = str_contains(l, "key points");
        let h3 = str_contains(l, "discussion highlights");
        proof {
            let req = required_headings(is_hn);
            assert(req[0] == "abstract"@ && req[1] == "key points"@ && req[2]
                == "discussion highlights"@);
        }
        h1 && h2 && h3
    } else {
        let h1 = str_contains(l, "abstract");
        let h2 = str_contains(l, "key highlights");
        proof {
            let req = required_headings(is_hn);
            assert(req[0] == "abstract"@ && req[1] == "key highlights"@);
        }
        h1 && h2
    };
    proof {
        let req = required_headings(is_hn);
        if has_all {
            assert forall|i: int| 0 <= i < req.len() implies contains(
                ascii_lower(text@),
                #[trigger] req[i],
            ) by {}
        }
    }
    if n < 80 || !has_all {
        Err(PublicErrorCode::IncompleteOutput)
    } else {
        Ok(())
    }
}

} // verus!
