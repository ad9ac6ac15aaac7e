use vstd::prelude::*;
use core::time::Duration;
use crate::text::{to_chars, from_chars, trim, trim_chars};
use crate::tasks::EmbeddingError;

verus! {

// ---------------------------------------------------------------------
// Duplicate submissions
// ---------------------------------------------------------------------

/// Finds recent submissions of the same content with the same model.
pub struct DeduplicationService {
    window: Duration,
}

impl DeduplicationService {
    /// How far back a submission counts as a duplicate.
    pub closed spec fn window_spec(&self) -> Duration {
        self.window
    }

    pub fn new(window: Duration) -> (r: Self)
        ensures
            r.window_spec() == window,
    {
        DeduplicationService { window }
    }

    pub fn window(&self) -> (r: Duration)
        ensures
            r == self.window_spec(),
    {
        self.window
    }

    /// The text a link or a transcript is matched by: trimmed.
    pub fn match_text(text: &str) -> (r: String)
        ensures
            r@ == trim(text@),
    {
        let v = to_chars(text);
        let t = trim_chars(v.as_slice());
        from_chars(t.as_slice())
    }
}

// ---------------------------------------------------------------------
// Embeddings
// ---------------------------------------------------------------------

/// Computes text embeddings with a Gemini embedding model.
pub struct EmbeddingService {
    api_key: String,
    model: String,
    dimensions: usize,
}

impl EmbeddingService {
    pub closed spec fn api_key_view(&self) -> Seq<char> {
        self.api_key@
    }

    pub closed spec fn model_view(&self) -> Seq<char> {
        self.model@
    }

    pub closed spec fn dimensions_view(&self) -> usize {
        self.dimensions
    }

    /// A service for a model and the number of output dimensions.
    pub fn new(api_key: String, model: &str, dimensions: usize) -> (r: Self)
        ensures
            r.api_key_view() == api_key@,
            r.model_view() == model@,
            r.dimensions_view() == dimensions,
    {
        let m = to_chars(model);
        EmbeddingService { api_key, model: from_chars(m.as_slice()), dimensions }
    }

    pub fn api_key(&self) -> (r: &str)
        ensures
            r@ == self.api_key_view(),
    {
        self.api_key.as_str()
    }

    pub fn model(&self) -> (r: &str)
        ensures
            r@ == self.model_view(),
    {
        self.model.as_str()
    }

    /// The output dimensionality sent with a request.
    pub fn output_dimensionality(&self) -> (r: i32)
        ensures
            r == self.dimensions_view() as i32,
    {
        self.dimensions as i32
    }

    /// Text may be embedded unless it is empty.
    pub fn check_text(text: &str) -> (r: Result<(), EmbeddingError>)
        ensures
            text@.len() == 0 ==> r matches Err(EmbeddingError::EmptyText),
            text@.len() > 0 ==> r is Ok,
    {
        let v = to_chars(text);
        if v.len() == 0 {
            Err(EmbeddingError::EmptyText)
        } else {
            Ok(())
        }
    }
}

} // verus!
