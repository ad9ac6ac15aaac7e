use vstd::prelude::*;
use crate::text::{to_chars, from_chars, contains, starts_with, str_contains, starts_with_exec,
    extend_str, extend_chars, str_eq};
use crate::split::{words, word_count};
use crate::strops::{ascii_lower, to_ascii_lowercase};
use crate::models::ThinkingPreference;
use crate::num::{dec, push_dec, date_text, is_date_text, format_date};

verus! {

// ---------------------------------------------------------------------
// Models
// ---------------------------------------------------------------------

/// The API family a model is served by.
#[derive(Clone, Copy, Debug, PartialEq, Eq, Structural)]
pub enum ModelArchitecture {
    Gemini,
    Gemma,
    Hetzner,
    Other,
}

pub open spec fn architecture_name(a: ModelArchitecture) -> Seq<char> {
    match a {
        ModelArchitecture::Gemini => "Gemini"@,
        ModelArchitecture::Gemma => "Gemma"@,
        ModelArchitecture::Hetzner => "Hetzner"@,
        ModelArchitecture::Other => "Other"@,
    }
}

impl ModelArchitecture {
    pub fn as_str(&self) -> (r: &'static str)
        ensures
            r@ == architecture_name(*self),
    {
        match self {
            ModelArchitecture::Gemini => "Gemini",
            ModelArchitecture::Gemma => "Gemma",
            ModelArchitecture::Hetzner => "Hetzner",
            ModelArchitecture::Other => "Other",
        }
    }
}

/// What the summarization pipeline reads of a configured model: its name,
/// context window, per-minute and per-day request limits, and API family.
#[derive(Clone, Debug)]
pub struct ModelSpec {
    pub name: String,
    pub context_window: u64,
    pub rpm_limit: u32,
    pub rpd_limit: u32,
    pub architecture: ModelArchitecture,
}

/// Thinking levels of the Gemini 3 request API.
#[derive(Clone, Copy, Debug, PartialEq, Eq, Structural)]
pub enum ThinkingLevel {
    Minimal,
    Low,
    Medium,
    High,
}

/// The Gemini 3 thinking level for a persisted preference; `auto` leaves the
/// level to the provider, and models outside Gemini 3 get none.
pub open spec fn thinking_level_for(model_name: Seq<char>, p: ThinkingPreference) -> Option<ThinkingLevel> {
    if !starts_with(ascii_lower(model_name), "gemini-3."@) {
        None
    } else {
        match p {
            ThinkingPreference::Auto => None,
            ThinkingPreference::Minimal => Some(ThinkingLevel::Minimal),
            ThinkingPreference::Low => Some(ThinkingLevel::Low),
            ThinkingPreference::Medium => Some(ThinkingLevel::Medium),
            ThinkingPreference::High => Some(ThinkingLevel::High),
        }
    }
}

pub fn gemini_3_thinking_level(model_name: &str, preference: ThinkingPreference) -> (r: Option<ThinkingLevel>)
    ensures
        r == thinking_level_for(model_name@, preference),
{
    let v = to_chars(model_name);
    let low = to_ascii_lowercase(v.as_slice());
    let prefix = to_chars("gemini-3.");
    if !starts_with_exec(low.as_slice(), prefix.as_slice()) {
        return None;
    }
    match preference {
        ThinkingPreference::Auto => None,
        ThinkingPreference::Minimal => Some(ThinkingLevel::Minimal),
        ThinkingPreference::Low => Some(ThinkingLevel::Low),
        ThinkingPreference::Medium => Some(ThinkingLevel::Medium),
        ThinkingPreference::High => Some(ThinkingLevel::High),
    }
}

/// The numeric thinking budget of Gemini 2.5 models: larger for `pro`.
pub open spec fn thinking_budget_for(model_name: Seq<char>) -> Option<i32> {
    let low = ascii_lower(model_name);
    if !starts_with(low, "gemini-2.5"@) {
        None
    } else if contains(low, "pro"@) {
        Some(32768)
    } else {
        Some(24576)
    }
}

pub fn gemini_2_5_thinking_budget(model_name: &str) -> (r: Option<i32>)
    ensures
        r == thinking_budget_for(model_name@),
{
    let v = to_chars(model_name);
    let low = to_ascii_lowercase(v.as_slice());
    let prefix = to_chars("gemini-2.5");
    if !starts_with_exec(low.as_slice(), prefix.as_slice()) {
        return None;
    }
    if str_contains(low.as_slice(), "pro") {
        Some(32768)
    } else {
        Some(24576)
    }
}

/// The API-side identifier of a Hetzner model; other names pass through.
pub open spec fn hetzner_api_name(internal: Seq<char>) -> Seq<char> {
    if internal == "hetzner-qwen-3.6-35b"@ {
        "Qwen/Qwen3.6-35B-A3B-FP8"@
    } else if internal == "hetzner-qwen-3.8-27b"@ {
        "Qwen3.8-27B"@
    } else {
        internal
    }
}

pub fn resolve_hetzner_model_name(internal_name: &str) -> (r: &str)
    ensures
        r@ == hetzner_api_name(internal_name@),
{
    let v = to_chars(internal_name);
    if str_eq(v.as_slice(), "hetzner-qwen-3.6-35b") {
        "Qwen/Qwen3.6-35B-A3B-FP8"
    } else if str_eq(v.as_slice(), "hetzner-qwen-3.8-27b") {
        "Qwen3.8-27B"
    } else {
        internal_name
    }
}

/// Whether an API error text reports rate limiting or exhausted resources.
pub open spec fn rate_limit_text(e: Seq<char>) -> bool {
    contains(e, "ResourceExhausted"@) || contains(e, "429"@) || contains(e, "RESOURCE_EXHAUSTED"@)
}

pub fn is_rate_limit_error(err_str: &str) -> (r: bool)
    ensures
        r == rate_limit_text(err_str@),
{
    let v = to_chars(err_str);
    str_contains(v.as_slice(), "ResourceExhausted") || str_contains(v.as_slice(), "429")
        || str_contains(v.as_slice(), "RESOURCE_EXHAUSTED")
}

// ---------------------------------------------------------------------
// Errors
// ---------------------------------------------------------------------

/// Why a summary could not be generated.
#[derive(Debug)]
pub enum SummaryError {
    ApiError(String),
    RateLimited,
    TranscriptTooShort,
    TranscriptTooLong(usize, usize),
}

/// The text a summary error is shown with.
pub open spec fn summary_error_text(e: SummaryError) -> Seq<char> {
    match e {
        SummaryError::ApiError(m) => "Gemini API error: "@ + m@,
        SummaryError::RateLimited => "Resource exhausted - rate limited"@,
        SummaryError::TranscriptTooShort => "Transcript too short (< 30 words)"@,
        SummaryError::TranscriptTooLong(n, max) => "Transcript too long ("@ + dec(n as nat)
            + " words, max "@ + dec(max as nat) + ")"@,
    }
}

impl SummaryError {
    /// The text this error is shown with.
    pub fn message(&self) -> (r: String)
        ensures
            r@ == summary_error_text(*self),
    {
        let mut v: Vec<char>;
        match self {
            SummaryError::ApiError(m) => {
                v = to_chars("Gemini API error: ");
                extend_str(&mut v, m.as_str());
            },
            SummaryError::RateLimited => {
                v = to_chars("Resource exhausted - rate limited");
            },
            SummaryError::TranscriptTooShort => {
                v = to_chars("Transcript too short (< 30 words)");
            },
            SummaryError::TranscriptTooLong(n, max) => {
                v = to_chars("Transcript too long (");
                push_dec(&mut v, *n as u64);
                extend_str(&mut v, " words, max ");
                push_dec(&mut v, *max as u64);
                extend_str(&mut v, ")");
            },
        }
        from_chars(v.as_slice())
    }
}

/// Fewest and most words a transcript may have to be summarized.
pub const MIN_TRANSCRIPT_WORDS: usize = 30;

pub const MAX_TRANSCRIPT_WORDS: usize = 280000;

/// Checks a transcript's length before generation: its word count when it is
/// between 30 and 280,000 words, else the error that says which bound failed.
pub fn check_transcript_length(transcript: &str) -> (r: Result<usize, SummaryError>)
    ensures
        match r {
            Ok(n) => n == words(transcript@).len() && 30 <= n <= 280000,
            Err(SummaryError::TranscriptTooShort) => words(transcript@).len() < 30,
            Err(SummaryError::TranscriptTooLong(n, max)) => n == words(transcript@).len() && n
                > 280000 && max == 280000,
            Err(_) => false,
        },
{
    let v = to_chars(transcript);
    let n = word_count(v.as_slice());
    if n < MIN_TRANSCRIPT_WORDS {
        return Err(SummaryError::TranscriptTooShort);
    }
    if n > MAX_TRANSCRIPT_WORDS {
        return Err(SummaryError::TranscriptTooLong(n, MAX_TRANSCRIPT_WORDS));
    }
    Ok(n)
}

// ---------------------------------------------------------------------
// Prompt text
// ---------------------------------------------------------------------

/// Opening of the Hacker News prompt, before the date.
pub const HN_PROMPT_OPENING: &'static str = "Today's date: ";

/// Hacker News prompt between the date and the directives.
pub const HN_PROMPT_BODY: &'static str = ".\n\
             Note on temporal awareness: Events, leadership roles, technology updates, and public occurrences may have changed since your knowledge training cutoff date. Accept current facts presented in the input without expressing skepticism or contradicting them based on older training data.\n\
             \n\
             Below is input from a Hacker News submission, containing the original article (if retrieved or provided) and the discussion from news.ycombinator.com.\n\
             \n\
             This is an ARTICLE, not a video transcript. Do NOT include any timestamps in the output.\n\
             \n\
             Please provide the following exact, repeatable section structure:\n\
             1. **## Abstract**: A concise, high-density executive summary of the main article (3-5 sentences max).\n\
             2. **## Key Points**: A bulleted list of the most important findings, claims, and technical details from the article. Each bullet begins with a bolded concept name. NO timestamps.\n\
             3. **## Discussion Highlights**: A concise bulleted summary of the most significant perspectives, technical arguments, and counter-arguments from the Hacker News comments.\n\
             \n\
             **DISCUSSION REQUIREMENTS**:\n\
             - Cover the full breadth of the discussion, not just the top few comments.\n\
             - Prioritize substantive technical arguments and novel perspectives over repetitive agreement.\n\
             - Highlight any alternative links, paywall bypasses, or external resources mentioned.\n\
             - Include concrete numbers, benchmark statistics, tool names, and technical details where discussed.\n\
             \n\
             **CONCISENESS REQUIREMENTS**:\n\
             - Be ruthlessly concise. Every sentence must carry unique information.\n\
             - Merge similar discussion points into single bullets rather than listing each comment separately.\n\
             - Omit low-signal commentary (e.g., jokes, tangential anecdotes, meta-discussion about HN itself).\n\
             - Do NOT include greetings, conversational filler, closing remarks, or follow-up questions.\n\
             ";

/// Hacker News prompt between the directives and the content.
pub const HN_PROMPT_CLOSING: &'static str = "\n\
             \n\
             Here is the Hacker News content and discussion:\n\
             ";

/// Opening of the video prompt, before the date.
pub const VIDEO_PROMPT_OPENING: &'static str = "Today's date: ";

/// Video prompt between the date and the directives.
pub const VIDEO_PROMPT_BODY: &'static str = ".\n\
             Note on temporal awareness: Events, leadership roles, software versions, and public occurrences may have changed since your knowledge training cutoff date. Accept current facts presented in the input without expressing skepticism or contradicting them based on older training data.\n\
             \n\
             Below, I will provide input for an example video (comprising of title, description, \
and transcript, in this order) and the corresponding abstract and summary I expect. Afterward, \
I will provide a new transcript that I want a summarization in the exact same structure. \n\
\n\
**Please give an abstract of the transcript and then summarize the transcript in a self-contained \
bullet list format.** Maintain strict structural repeatability (`## Abstract` followed by \
`## Key Highlights & Timestamps`). Include starting timestamps, important details and key takeaways. \n\
";

/// Video prompt between the directives and the example input.
pub const VIDEO_PROMPT_EXAMPLE_INPUT: &'static str = "\n\
\n\
Example Input: \n\
";

/// Video prompt between the example input and the example abstract.
pub const VIDEO_PROMPT_EXAMPLE_OUTPUT: &'static str = "\n\
Example Output:\n\
";

/// Video prompt between the example output and the transcript.
pub const VIDEO_PROMPT_REAL_TRANSCRIPT: &'static str = "\n\
Here is the real transcript. What would be a good group of people to review this topic? \
Please provide a summary like they would: \n\
";

/// Asks for the whole output in German.
pub const GERMAN_LANGUAGE_DIRECTIVE: &'static str = "\n\n**LANGUAGE DIRECTIVE (DEUTSCH)**:\n\
                 You MUST generate the entire output (Abstract, Key Highlights/Points, Discussion, Glossary, and section titles) in German (Deutsch).\n\
                 Use German section titles (e.g. `## Zusammenfassung` or `## Abstract`, `## Wichtigste Punkte & Zeitstempel` for transcripts, `## Wichtigste Punkte` for articles, `## Diskussions-Highlights`, and `## Glossar`).";

/// Asks for a German glossary section.
pub const GERMAN_GLOSSARY_DIRECTIVE: &'static str = "\n\n**GLOSSAR DIRECTIVE**:\n\
                     You MUST append a dedicated section titled `## Glossar` at the end of the summary. In this section, extract all specialized technical, medical, scientific, and domain-specific terms, acronyms, clinical metrics, and jargon present in the content (e.g. filovirus, VMAT2, PASC, PICU, HR 0.53, etc.) and explain each term clearly and concisely in German for a lay reader.";

/// Asks for a glossary section.
pub const GLOSSARY_DIRECTIVE: &'static str = "\n\n**GLOSSARY DIRECTIVE**:\n\
                     You MUST append a dedicated section titled `## Glossary` at the end of the summary. In this section, extract all specialized technical, medical, scientific, and domain-specific terms, acronyms, clinical metrics, and jargon present in the content (e.g. filovirus, VMAT2, PASC, PICU, HR 0.53, etc.) and explain each term clearly and concisely for a lay reader.";

/// Between the persona prompt and the date, in the dated system prompts.
pub const GEMINI_DATE_NOTE_OPENING: &'static str = "\n\nToday's date is ";

/// After the date, in the Gemini system prompt.
pub const GEMINI_DATE_NOTE: &'static str = ". Keep in mind that new events, personnel changes, political developments, and world occurrences may have happened since your knowledge training cutoff date. Accept current facts presented in the input without making skeptical remarks or questioning them based on older training data.";

/// After the date, in the Hetzner system prompt.
pub const HETZNER_DATE_NOTE: &'static str = ". Accept current facts presented in the input without making skeptical remarks or questioning them based on older training data.";

/// Marks content that comes from a Hacker News submission.
pub const HN_SUBMISSION_MARKER: &'static str = "=== HACKER NEWS SUBMISSION ===";

/// Appended to the partial summary when the stream is cut off by rate limiting.
pub const RATE_LIMIT_NOTICE: &'static str = "\n\n[Error: Rate limited (ResourceExhausted). Please retry later.]";

pub open spec fn is_german(lang: Seq<char>) -> bool {
    lang == "de"@ || lang == "de-DE"@
}

/// The language and glossary directives appended to a prompt.
pub open spec fn directives_text(include_glossary: bool, lang: Seq<char>) -> Seq<char> {
    let language = if is_german(lang) {
        GERMAN_LANGUAGE_DIRECTIVE@
    } else {
        Seq::empty()
    };
    let glossary = if !include_glossary {
        Seq::empty()
    } else if is_german(lang) {
        GERMAN_GLOSSARY_DIRECTIVE@
    } else {
        GLOSSARY_DIRECTIVE@
    };
    language + glossary
}

pub open spec fn hn_prompt_text(today: Seq<char>, directives: Seq<char>, content: Seq<char>) -> Seq<char> {
    HN_PROMPT_OPENING@ + today + HN_PROMPT_BODY@ + directives + HN_PROMPT_CLOSING@ + content
}

/// The few-shot material of the video prompt and the persona prompt.
#[derive(Debug)]
pub struct PromptTexts {
    pub system_instruction: String,
    pub example_input: String,
    pub example_output_abstract: String,
    pub example_output: String,
}

pub open spec fn video_prompt_text(
    today: Seq<char>,
    directives: Seq<char>,
    p: PromptTexts,
    transcript: Seq<char>,
) -> Seq<char> {
    VIDEO_PROMPT_OPENING@ + today + VIDEO_PROMPT_BODY@ + directives + VIDEO_PROMPT_EXAMPLE_INPUT@
        + p.example_input@ + VIDEO_PROMPT_EXAMPLE_OUTPUT@ + p.example_output_abstract@ + seq!['\n']
        + p.example_output@ + VIDEO_PROMPT_REAL_TRANSCRIPT@ + transcript
}

/// The prompt for content: the Hacker News prompt when it carries the
/// submission marker, else the video prompt.
pub open spec fn routed_prompt_text(
    today: Seq<char>,
    p: PromptTexts,
    content: Seq<char>,
    include_glossary: bool,
    lang: Seq<char>,
) -> Seq<char> {
    if contains(content, HN_SUBMISSION_MARKER@) {
        hn_prompt_text(today, directives_text(include_glossary, lang), content)
    } else {
        video_prompt_text(today, directives_text(include_glossary, lang), p, content)
    }
}

/// The Gemma prompt: the persona prompt, a `---` rule, then the routed prompt.
pub open spec fn gemma_prompt_text(
    today: Seq<char>,
    p: PromptTexts,
    content: Seq<char>,
    include_glossary: bool,
    lang: Seq<char>,
) -> Seq<char> {
    p.system_instruction@ + "\n\n---\n\n"@ + routed_prompt_text(today, p, content, include_glossary, lang)
}

/// `chrono::Utc::now().date_naive()` read through `chrono::Datelike`:
/// today's UTC calendar date as year, month and day.  chrono documents the
/// month as 1 to 12 and the day as 1 to 31; which date it is, is the clock's.
#[verifier::external_body]
fn utc_today_ymd() -> (r: (i32, u32, u32))
    ensures
        1 <= r.1 <= 12,
        1 <= r.2 <= 31,
{
    let d = chrono::Utc::now().date_naive();
    (chrono::Datelike::year(&d), chrono::Datelike::month(&d), chrono::Datelike::day(&d))
}

/// Today's UTC date as `YYYY-MM-DD`.
pub fn today_text() -> (r: String)
    ensures
        is_date_text(r@),
{
    let (y, m, d) = utc_today_ymd();
    let r = format_date(y, m, d);
    assert(1 <= m as nat <= 12 && 1 <= d as nat <= 31 && r@ == date_text(y as int, m as nat, d as nat));
    r
}

/// Generates summaries through the configured model APIs.
pub struct SummaryService {
    api_key: String,
    prompts: PromptTexts,
}

impl SummaryService {
    pub closed spec fn api_key_view(&self) -> Seq<char> {
        self.api_key@
    }

    pub closed spec fn prompt_texts(&self) -> PromptTexts {
        self.prompts
    }

    /// A service with no few-shot material.
    pub fn new(api_key: String) -> (r: Self)
        ensures
            r.api_key_view() == api_key@,
            r.prompt_texts().system_instruction@ == Seq::<char>::empty(),
            r.prompt_texts().example_input@ == Seq::<char>::empty(),
            r.prompt_texts().example_output_abstract@ == Seq::<char>::empty(),
            r.prompt_texts().example_output@ == Seq::<char>::empty(),
    {
        let e: Vec<char> = Vec::new();
        SummaryService {
            api_key,
            prompts: PromptTexts {
                system_instruction: from_chars(e.as_slice()),
                example_input: from_chars(e.as_slice()),
                example_output_abstract: from_chars(e.as_slice()),
                example_output: from_chars(e.as_slice()),
            },
        }
    }

    /// A service with the persona prompt and few-shot material.
    pub fn with_prompts(api_key: String, prompts: PromptTexts) -> (r: Self)
        ensures
            r.api_key_view() == api_key@,
            r.prompt_texts() == prompts,
    {
        SummaryService { api_key, prompts }
    }

    /// The API key requests are made with.
    pub fn api_key(&self) -> (r: &str)
        ensures
            r@ == self.api_key_view(),
    {
        self.api_key.as_str()
    }

    /// The directives for the output language and the glossary.
    pub fn get_prompt_directives(include_glossary: bool, output_language: &str) -> (r: String)
        ensures
            r@ == directives_text(include_glossary, output_language@),
    {
        let lang = to_chars(output_language);
        let german = str_eq(lang.as_slice(), "de") || str_eq(lang.as_slice(), "de-DE");
        let mut v: Vec<char> = Vec::new();
        if german {
            extend_str(&mut v, GERMAN_LANGUAGE_DIRECTIVE);
        }
        if include_glossary {
            if german {
                extend_str(&mut v, GERMAN_GLOSSARY_DIRECTIVE);
            } else {
                extend_str(&mut v, GLOSSARY_DIRECTIVE);
            }
        }
        assert(v@ =~= directives_text(include_glossary, output_language@));
        from_chars(v.as_slice())
    }

    /// The Hacker News prompt, dated `today`.
    pub fn build_hn_prompt_on(&self, hn_content: &str, include_glossary: bool, output_language: &str, today: &str) -> (r: String)
        ensures
            r@ == hn_prompt_text(today@, directives_text(include_glossary, output_language@), hn_content@),
    {
        let d = Self::get_prompt_directives(include_glossary, output_language);
        let mut v = to_chars(HN_PROMPT_OPENING);
        extend_str(&mut v, today);
        extend_str(&mut v, HN_PROMPT_BODY);
        extend_str(&mut v, d.as_str());
        extend_str(&mut v, HN_PROMPT_CLOSING);
        extend_str(&mut v, hn_content);
        assert(v@ =~= hn_prompt_text(today@, d@, hn_content@));
        from_chars(v.as_slice())
    }

    /// The Hacker News prompt, dated with today's UTC date.
    pub fn build_hn_prompt(&self, hn_content: &str, include_glossary: bool, output_language: &str) -> (r: String)
        ensures
            exists|today: Seq<char>| is_date_text(today) &&
                r@ == hn_prompt_text(today, directives_text(include_glossary, output_language@), hn_content@),
    {
        let today = today_text();
        self.build_hn_prompt_on(hn_content, include_glossary, output_language, today.as_str())
    }

    /// The few-shot video prompt, dated `today`.
    pub fn build_prompt_on(&self, transcript: &str, include_glossary: bool, output_language: &str, today: &str) -> (r: String)
        ensures
            r@ == video_prompt_text(
                today@,
                directives_text(include_glossary, output_language@),
                self.prompt_texts(),
                transcript@,
            ),
    {
        let d = Self::get_prompt_directives(include_glossary, output_language);
        let mut v = to_chars(VIDEO_PROMPT_OPENING);
        extend_str(&mut v, today);
        extend_str(&mut v, VIDEO_PROMPT_BODY);
        extend_str(&mut v, d.as_str());
        extend_str(&mut v, VIDEO_PROMPT_EXAMPLE_INPUT);
        extend_str(&mut v, self.prompts.example_input.as_str());
        extend_str(&mut v, VIDEO_PROMPT_EXAMPLE_OUTPUT);
        extend_str(&mut v, self.prompts.example_output_abstract.as_str());
        v.push('\n');
        extend_str(&mut v, self.prompts.example_output.as_str());
        extend_str(&mut v, VIDEO_PROMPT_REAL_TRANSCRIPT);
        extend_str(&mut v, transcript);
        assert(v@ =~= video_prompt_text(today@, d@, self.prompts, transcript@));
        from_chars(v.as_slice())
    }

    /// The few-shot video prompt, dated with today's UTC date.
    pub fn build_prompt(&self, transcript: &str, include_glossary: bool, output_language: &str) -> (r: String)
        ensures
            exists|today: Seq<char>| is_date_text(today) &&
                r@ == video_prompt_text(
                    today,
                    directives_text(include_glossary, output_language@),
                    self.prompt_texts(),
                    transcript@,
                ),
    {
        let today = today_text();
        self.build_prompt_on(transcript, include_glossary, output_language, today.as_str())
    }

    fn routed_prompt_on(&self, content: &str, include_glossary: bool, output_language: &str, today: &str) -> (r: String)
        ensures
            r@ == routed_prompt_text(today@, self.prompt_texts(), content@, include_glossary, output_language@),
    {
        let c = to_chars(content);
        if str_contains(c.as_slice(), HN_SUBMISSION_MARKER) {
            self.build_hn_prompt_on(content, include_glossary, output_language, today)
        } else {
            self.build_prompt_on(content, include_glossary, output_language, today)
        }
    }

    /// The prompt for Gemma models, dated `today`: the persona prompt first,
    /// since those models take no separate system prompt.
    pub fn build_prompt_for_gemma_on(&self, transcript: &str, include_glossary: bool, output_language: &str, today: &str) -> (r: String)
        ensures
            r@ == gemma_prompt_text(today@, self.prompt_texts(), transcript@, include_glossary, output_language@),
    {
        let base = self.routed_prompt_on(transcript, include_glossary, output_language, today);
        let mut v = to_chars(self.prompts.system_instruction.as_str());
        extend_str(&mut v, "\n\n---\n\n");
        extend_str(&mut v, base.as_str());
        assert(v@ =~= gemma_prompt_text(today@, self.prompts, transcript@, include_glossary, output_language@));
        from_chars(v.as_slice())
    }

    /// The prompt for Gemma models, dated with today's UTC date.
    pub fn build_prompt_for_gemma(&self, transcript: &str, include_glossary: bool, output_language: &str) -> (r: String)
        ensures
            exists|today: Seq<char>| is_date_text(today) &&
                r@ == gemma_prompt_text(today, self.prompt_texts(), transcript@, include_glossary, output_language@),
    {
        let today = today_text();
        self.build_prompt_for_gemma_on(transcript, include_glossary, output_language, today.as_str())
    }

    /// The prompt for the routed Gemini/Hetzner/other path, dated `today`.
    pub fn build_routed_prompt_on(&self, content: &str, include_glossary: bool, output_language: &str, today: &str) -> (r: String)
        ensures
            r@ == routed_prompt_text(today@, self.prompt_texts(), content@, include_glossary, output_language@),
    {
        self.routed_prompt_on(content, include_glossary, output_language, today)
    }

    /// The system prompt sent to Gemini models, dated `today`.
    pub fn gemini_system_prompt_on(&self, today: &str) -> (r: String)
        ensures
            r@ == self.prompt_texts().system_instruction@ + GEMINI_DATE_NOTE_OPENING@ + today@
                + GEMINI_DATE_NOTE@,
    {
        let mut v = to_chars(self.prompts.system_instruction.as_str());
        extend_str(&mut v, GEMINI_DATE_NOTE_OPENING);
        extend_str(&mut v, today);
        extend_str(&mut v, GEMINI_DATE_NOTE);
        from_chars(v.as_slice())
    }

    /// The system prompt sent to the Hetzner API, dated `today`.
    pub fn hetzner_system_prompt_on(&self, today: &str) -> (r: String)
        ensures
            r@ == self.prompt_texts().system_instruction@ + GEMINI_DATE_NOTE_OPENING@ + today@
                + HETZNER_DATE_NOTE@,
    {
        let mut v = to_chars(self.prompts.system_instruction.as_str());
        extend_str(&mut v, GEMINI_DATE_NOTE_OPENING);
        extend_str(&mut v, today);
        extend_str(&mut v, HETZNER_DATE_NOTE);
        from_chars(v.as_slice())
    }
}


// ---------------------------------------------------------------------
// Generation requests and their answers
// ---------------------------------------------------------------------

/// How a generation request is set up for a model.
#[derive(Debug)]
pub struct RequestPlan {
    /// Served by the Hetzner OpenAI-compatible API rather than Gemini's.
    pub hetzner: bool,
    /// Ground answers with Google Search.
    pub google_search: bool,
    /// Let the model read the URLs in the prompt.
    pub url_context: bool,
    pub thinking_level: Option<ThinkingLevel>,
    pub thinking_budget: Option<i32>,
    /// Send the persona prompt as the system prompt.
    pub system_prompt: bool,
    /// Put the persona prompt in front of the user prompt instead.
    pub gemma_prompt: bool,
}

pub open spec fn plan_for(
    arch: ModelArchitecture,
    model_name: Seq<char>,
    grounding: bool,
    url_context: bool,
    preference: ThinkingPreference,
) -> RequestPlan {
    let gemini = arch == ModelArchitecture::Gemini;
    let level = if gemini {
        thinking_level_for(model_name, preference)
    } else {
        None
    };
    RequestPlan {
        hetzner: arch == ModelArchitecture::Hetzner,
        google_search: grounding && (gemini || arch == ModelArchitecture::Gemma),
        url_context: url_context && gemini,
        thinking_level: level,
        thinking_budget: if gemini && level is None {
            thinking_budget_for(model_name)
        } else {
            None
        },
        system_prompt: gemini,
        gemma_prompt: arch == ModelArchitecture::Gemma,
    }
}

/// Sets up a request: tools by architecture and the caller's choices, the
/// Gemini 3 thinking level or else the Gemini 2.5 budget, and where the
/// persona prompt goes.
pub fn plan_request(
    architecture: ModelArchitecture,
    model_name: &str,
    google_search_grounding: bool,
    url_context: bool,
    preference: ThinkingPreference,
) -> (r: RequestPlan)
    ensures
        r == plan_for(architecture, model_name@, google_search_grounding, url_context, preference),
{
    let gemini = architecture == ModelArchitecture::Gemini;
    let level = if gemini {
        gemini_3_thinking_level(model_name, preference)
    } else {
        None
    };
    let budget = if gemini && level.is_none() {
        gemini_2_5_thinking_budget(model_name)
    } else {
        None
    };
    RequestPlan {
        hetzner: architecture == ModelArchitecture::Hetzner,
        google_search: google_search_grounding && (gemini || architecture == ModelArchitecture::Gemma),
        url_context: url_context && gemini,
        thinking_level: level,
        thinking_budget: budget,
        system_prompt: gemini,
        gemma_prompt: architecture == ModelArchitecture::Gemma,
    }
}

/// The error an API failure text stands for: rate limiting, or the text itself.
pub fn classify_api_error(err_str: String) -> (r: SummaryError)
    ensures
        rate_limit_text(err_str@) ==> r == SummaryError::RateLimited,
        !rate_limit_text(err_str@) ==> r == SummaryError::ApiError(err_str),
{
    if is_rate_limit_error(err_str.as_str()) {
        SummaryError::RateLimited
    } else {
        SummaryError::ApiError(err_str)
    }
}

/// The texts and token counts gathered from a streamed answer.
pub struct StreamAccumulator {
    pub summary_text: String,
    pub thinking_text: String,
    pub input_tokens: u64,
    pub output_tokens: u64,
    pub thinking_tokens: u64,
}

/// What a finished generation produced.
#[derive(Debug)]
pub struct GenerationTotals {
    pub summary_text: String,
    pub thinking_text: String,
    pub input_tokens: u64,
    pub output_tokens: u64,
    pub thinking_tokens: u64,
}

/// A token count reported by the API, as the pipeline stores it.
pub open spec fn reported_tokens(n: Option<i32>, before: u64) -> u64 {
    match n {
        Some(v) => v as u64,
        None => before,
    }
}

/// Tokens of a text estimated from its UTF-8 length (as `str::len` gives
/// it), four bytes a token.
pub open spec fn estimated_tokens(text: Seq<char>) -> u64 {
    ((vstd::utf8::encode_utf8(text).len() as usize) / 4) as u64
}

impl StreamAccumulator {
    pub fn new() -> (r: Self)
        ensures
            r.summary_text@ == Seq::<char>::empty(),
            r.thinking_text@ == Seq::<char>::empty(),
            r.input_tokens == 0 && r.output_tokens == 0 && r.thinking_tokens == 0,
    {
        let e: Vec<char> = Vec::new();
        StreamAccumulator {
            summary_text: from_chars(e.as_slice()),
            thinking_text: from_chars(e.as_slice()),
            input_tokens: 0,
            output_tokens: 0,
            thinking_tokens: 0,
        }
    }

    /// Takes one text part of a Gemini answer: thoughts go to the thinking
    /// text; other non-empty text goes to the summary and is to be persisted
    /// (the result says so).
    pub fn add_part(&mut self, text: &str, thought: Option<bool>) -> (persist: bool)
        ensures
            thought == Some(true) ==> {
                &&& final(self).thinking_text@ == old(self).thinking_text@ + text@
                &&& final(self).summary_text@ == old(self).summary_text@
                &&& !persist
            },
            thought != Some(true) ==> {
                &&& persist == (text@.len() > 0)
                &&& final(self).summary_text@ == old(self).summary_text@ + text@
                &&& final(self).thinking_text@ == old(self).thinking_text@
            },
            final(self).input_tokens == old(self).input_tokens,
            final(self).output_tokens == old(self).output_tokens,
            final(self).thinking_tokens == old(self).thinking_tokens,
    {
        let is_thought = match thought {
            Some(b) => b,
            None => false,
        };
        if is_thought {
            let mut t = to_chars(self.thinking_text.as_str());
            extend_str(&mut t, text);
            self.thinking_text = from_chars(t.as_slice());
            false
        } else {
            let t = to_chars(text);
            if t.len() > 0 {
                let mut s = to_chars(self.summary_text.as_str());
                extend_chars(&mut s, t.as_slice());
                self.summary_text = from_chars(s.as_slice());
                true
            } else {
                assert(old(self).summary_text@ + text@ =~= old(self).summary_text@);
                false
            }
        }
    }

    /// Takes the whole text of a chunk (models whose thoughts are not
    /// separated): non-empty text goes to the summary and is to be persisted.
    pub fn add_chunk_text(&mut self, text: &str) -> (persist: bool)
        ensures
            persist == (text@.len() > 0),
            final(self).summary_text@ == old(self).summary_text@ + text@,
            final(self).thinking_text@ == old(self).thinking_text@,
            final(self).input_tokens == old(self).input_tokens,
            final(self).output_tokens == old(self).output_tokens,
            final(self).thinking_tokens == old(self).thinking_tokens,
    {
        self.add_part(text, None)
    }

    /// Takes the usage counts of a Gemini chunk; counts it does not carry
    /// keep their earlier values.
    pub fn record_usage(&mut self, prompt: Option<i32>, candidates: Option<i32>, thoughts: Option<i32>)
        ensures
            final(self).input_tokens == reported_tokens(prompt, old(self).input_tokens),
            final(self).output_tokens == reported_tokens(candidates, old(self).output_tokens),
            final(self).thinking_tokens == reported_tokens(thoughts, old(self).thinking_tokens),
            final(self).summary_text == old(self).summary_text,
            final(self).thinking_text == old(self).thinking_text,
    {
        if let Some(p) = prompt {
            self.input_tokens = p as u64;
        }
        if let Some(c) = candidates {
            self.output_tokens = c as u64;
        }
        if let Some(t) = thoughts {
            self.thinking_tokens = t as u64;
        }
    }

    /// Takes the usage counts of a Hetzner chunk.
    pub fn record_hetzner_usage(&mut self, prompt_tokens: u32, completion_tokens: u32)
        ensures
            final(self).input_tokens == prompt_tokens,
            final(self).output_tokens == completion_tokens,
            final(self).thinking_tokens == old(self).thinking_tokens,
            final(self).summary_text == old(self).summary_text,
            final(self).thinking_text == old(self).thinking_text,
    {
        self.input_tokens = prompt_tokens as u64;
        self.output_tokens = completion_tokens as u64;
    }

    /// The result once a Gemini stream ends: an error when neither summary nor
    /// thoughts arrived; token counts the API did not report are estimated from
    /// the prompt and the summary.
    pub fn finish_gemini(self, prompt: &str) -> (r: Result<GenerationTotals, SummaryError>)
        ensures
            self.summary_text@.len() == 0 && self.thinking_text@.len() == 0 ==> (r matches Err(
                SummaryError::ApiError(m),
            ) && m@ == "Gemini returned empty response"@),
            !(self.summary_text@.len() == 0 && self.thinking_text@.len() == 0) ==> (r matches Ok(t)
                && t.summary_text == self.summary_text && t.thinking_text == self.thinking_text
                && t.thinking_tokens == self.thinking_tokens && t.input_tokens == (if self.input_tokens
                == 0 {
                estimated_tokens(prompt@)
            } else {
                self.input_tokens
            }) && t.output_tokens == (if self.output_tokens == 0 {
                estimated_tokens(self.summary_text@)
            } else {
                self.output_tokens
            })),
    {
        let s = to_chars(self.summary_text.as_str());
        let t = to_chars(self.thinking_text.as_str());
        if s.len() == 0 && t.len() == 0 {
            let m = to_chars("Gemini returned empty response");
            return Err(SummaryError::ApiError(from_chars(m.as_slice())));
        }
        self.totals(prompt)
    }

    /// The result once a Hetzner stream ends: an error when no summary text
    /// arrived; token counts are estimated as for Gemini.
    pub fn finish_hetzner(self, prompt: &str) -> (r: Result<GenerationTotals, SummaryError>)
        ensures
            self.summary_text@.len() == 0 ==> (r matches Err(SummaryError::ApiError(m)) && m@
                == "Hetzner API returned empty response"@),
            self.summary_text@.len() > 0 ==> (r matches Ok(t) && t.summary_text == self.summary_text
                && t.thinking_text == self.thinking_text && t.thinking_tokens == self.thinking_tokens
                && t.input_tokens == (if self.input_tokens == 0 {
                estimated_tokens(prompt@)
            } else {
                self.input_tokens
            }) && t.output_tokens == (if self.output_tokens == 0 {
                estimated_tokens(self.summary_text@)
            } else {
                self.output_tokens
            })),
    {
        let s = to_chars(self.summary_text.as_str());
        if s.len() == 0 {
            let m = to_chars("Hetzner API returned empty response");
            return Err(SummaryError::ApiError(from_chars(m.as_slice())));
        }
        self.totals(prompt)
    }

    fn totals(self, prompt: &str) -> (r: Result<GenerationTotals, SummaryError>)
        ensures
            r matches Ok(t) && t.summary_text == self.summary_text && t.thinking_text
                == self.thinking_text && t.thinking_tokens == self.thinking_tokens && t.input_tokens
                == (if self.input_tokens == 0 {
                estimated_tokens(prompt@)
            } else {
                self.input_tokens
            }) && t.output_tokens == (if self.output_tokens == 0 {
                estimated_tokens(self.summary_text@)
            } else {
                self.output_tokens
            }),
    {
        let input = if self.input_tokens == 0 {
            (prompt.len() / 4) as u64
        } else {
            self.input_tokens
        };
        let output = if self.output_tokens == 0 {
            (self.summary_text.as_str().len() / 4) as u64
        } else {
            self.output_tokens
        };
        Ok(
            GenerationTotals {
                summary_text: self.summary_text,
                thinking_text: self.thinking_text,
                input_tokens: input,
                output_tokens: output,
                thinking_tokens: self.thinking_tokens,
            },
        )
    }
}

} // verus!
