use rs_summarizer::models::{default_output_language, validate_ratings, RatingError, ThinkingPreference};

#[test]
fn thinking_preferences_parse_back() {
    for preference in ThinkingPreference::ALL {
        assert_eq!(preference.as_str().parse(), Ok(preference));
        assert_eq!(ThinkingPreference::parse(preference.as_str()), Ok(preference));
    }
    assert!("maximum".parse::<ThinkingPreference>().is_err());
    assert_eq!(ThinkingPreference::default(), ThinkingPreference::High);
}

#[test]
fn ratings_outside_one_to_five_are_refused() {
    assert_eq!(validate_ratings(Some(1), Some(5)), Ok(()));
    assert_eq!(validate_ratings(None, None), Ok(()));
    assert_eq!(validate_ratings(Some(0), Some(3)), Err(RatingError::SummaryRatingOutOfRange));
    assert_eq!(validate_ratings(Some(6), Some(9)), Err(RatingError::SummaryRatingOutOfRange));
    assert_eq!(validate_ratings(Some(3), Some(6)), Err(RatingError::ContentRatingOutOfRange));
    assert_eq!(RatingError::SummaryRatingOutOfRange.message(), "summary_rating must be between 1 and 5");
}

#[test]
fn default_language_is_english() {
    assert_eq!(default_output_language(), "en");
}
