use vstd::prelude::*;
use crate::text::to_chars;

verus! {

/// A persisted Gemini 3 thinking-effort preference.
///
/// Values use stable, lowercase database/form spellings rather than provider
/// enum names so a queued summary stays portable across SDK upgrades.
#[derive(Debug, Clone, Copy, PartialEq, Eq, Structural)]
pub enum ThinkingPreference {
    Auto,
    Minimal,
    Low,
    Medium,
    High,
}

pub open spec fn thinking_name(p: ThinkingPreference) -> Seq<char> {
    match p {
        ThinkingPreference::Auto => "auto"@,
        ThinkingPreference::Minimal => "minimal"@,
        ThinkingPreference::Low => "low"@,
        ThinkingPreference::Medium => "medium"@,
        ThinkingPreference::High => "high"@,
    }
}

pub open spec fn thinking_from_name(v: Seq<char>) -> Option<ThinkingPreference> {
    if v == "auto"@ {
        Some(ThinkingPreference::Auto)
    } else if v == "minimal"@ {
        Some(ThinkingPreference::Minimal)
    } else if v == "low"@ {
        Some(ThinkingPreference::Low)
    } else if v == "medium"@ {
        Some(ThinkingPreference::Medium)
    } else if v == "high"@ {
        Some(ThinkingPreference::High)
    } else {
        None
    }
}

impl ThinkingPreference {
    pub const ALL: [ThinkingPreference; 5] = [
        ThinkingPreference::Auto,
        ThinkingPreference::Minimal,
        ThinkingPreference::Low,
        ThinkingPreference::Medium,
        ThinkingPreference::High,
    ];

    pub fn as_str(self) -> (r: &'static str)
        ensures
            r@ == thinking_name(self),
    {
        match self {
            ThinkingPreference::Auto => "auto",
            ThinkingPreference::Minimal => "minimal",
            ThinkingPreference::Low => "low",
            ThinkingPreference::Medium => "medium",
            ThinkingPreference::High => "high",
        }
    }

    /// Parses the stable spelling back into a preference (what `FromStr` does).
    pub fn parse(value: &str) -> (r: Result<Self, &'static str>)
        ensures
            r matches Ok(p) ==> thinking_from_name(value@) == Some(p),
            r is Err <==> thinking_from_name(value@) is None,
            r matches Err(e) ==> e@
                == "thinking preference must be auto, minimal, low, medium, or high"@,
    {
        let v = to_chars(value);
        let v = v.as_slice();
        if crate::text::str_eq(v, "auto") {
            Ok(ThinkingPreference::Auto)
        } else if crate::text::str_eq(v, "minimal") {
            Ok(ThinkingPreference::Minimal)
        } else if crate::text::str_eq(v, "low") {
            Ok(ThinkingPreference::Low)
        } else if crate::text::str_eq(v, "medium") {
            Ok(ThinkingPreference::Medium)
        } else if crate::text::str_eq(v, "high") {
            Ok(ThinkingPreference::High)
        } else {
            Err("thinking preference must be auto, minimal, low, medium, or high")
        }
    }
}

impl Default for ThinkingPreference {
    fn default() -> (r: Self)
        ensures
            r is High,
    {
        ThinkingPreference::High
    }
}

impl core::str::FromStr for ThinkingPreference {
    type Err = &'static str;

    fn from_str(value: &str) -> (r: Result<Self, Self::Err>)
        ensures
            r matches Ok(x) ==> thinking_from_name(value@) == Some(x),
            r is Err <==> thinking_from_name(value@) is None,
            r matches Err(e) ==> e@ == "thinking preference must be auto, minimal, low, medium, or high"@,
    {
        ThinkingPreference::parse(value)
    }
}

/// Every preference spells differently, so parsing a spelling gives it back.
pub proof fn lemma_thinking_name_roundtrip(p: ThinkingPreference)
    ensures
        thinking_from_name(thinking_name(p)) == Some(p),
{
    reveal_strlit("auto");
    reveal_strlit("minimal");
    reveal_strlit("low");
    reveal_strlit("medium");
    reveal_strlit("high");
    assert("auto"@.len() == 4 && "minimal"@.len() == 7 && "low"@.len() == 3 && "medium"@.len() == 6
        && "high"@.len() == 4);
    assert("auto"@[0] != "high"@[0]);
}

/// A summarization request as submitted by the form.
#[derive(Debug)]
pub struct SubmitForm {
    pub original_source_link: String,
    pub transcript: Option<String>,
    pub model: String,
    pub google_search_grounding: bool,
    pub url_context: bool,
    pub include_glossary: bool,
    pub output_language: String,
    pub thinking_level: ThinkingPreference,
}

/// The output language used when a form gives none.
pub fn default_output_language() -> (r: String)
    ensures
        r@ == "en"@,
{
    crate::text::from_chars(to_chars("en").as_slice())
}

#[derive(Debug)]
pub struct SearchForm {
    pub query: String,
}

#[derive(Debug)]
pub struct BrowseParams {
    pub page: Option<u32>,
}

#[derive(Debug, Clone)]
pub struct SummaryRating {
    pub id: i64,
    pub summary_id: i64,
    pub client_ip: String,
    pub summary_rating: Option<i32>,
    pub content_rating: Option<i32>,
    pub created_at: String,
    pub updated_at: String,
}

#[derive(Debug)]
pub struct SubmitRatingForm {
    pub summary_rating: Option<i32>,
    pub content_rating: Option<i32>,
}

/// Why a rating was refused.
#[derive(Debug, Clone, Copy, PartialEq, Eq, Structural)]
pub enum RatingError {
    /// The summary rating lies outside 1..=5.
    SummaryRatingOutOfRange,
    /// The content rating lies outside 1..=5.
    ContentRatingOutOfRange,
}

pub open spec fn rating_in_range(r: Option<i32>) -> bool {
    match r {
        Some(v) => 1 <= v <= 5,
        None => true,
    }
}

/// Checks both ratings of a submission; the summary rating is checked first.
pub fn validate_ratings(summary_rating: Option<i32>, content_rating: Option<i32>) -> (r: Result<
    (),
    RatingError,
>)
    ensures
        r is Ok <==> rating_in_range(summary_rating) && rating_in_range(content_rating),
        r == Err::<(), RatingError>(RatingError::SummaryRatingOutOfRange) <==> !rating_in_range(
            summary_rating,
        ),
        r == Err::<(), RatingError>(RatingError::ContentRatingOutOfRange) <==> rating_in_range(
            summary_rating,
        ) && !rating_in_range(content_rating),
{
    if let Some(v) = summary_rating {
        if !(1 <= v && v <= 5) {
            return Err(RatingError::SummaryRatingOutOfRange);
        }
    }
    if let Some(v) = content_rating {
        if !(1 <= v && v <= 5) {
            return Err(RatingError::ContentRatingOutOfRange);
        }
    }
    Ok(())
}

impl RatingError {
    /// The message the store gives for this refusal.
    pub fn message(self) -> (r: &'static str)
        ensures
            self is SummaryRatingOutOfRange ==> r@ == "summary_rating must be between 1 and 5"@,
            self is ContentRatingOutOfRange ==> r@ == "content_rating must be between 1 and 5"@,
    {
        match self {
            RatingError::SummaryRatingOutOfRange => "summary_rating must be between 1 and 5",
            RatingError::ContentRatingOutOfRange => "content_rating must be between 1 and 5",
        }
    }
}

} // verus!
