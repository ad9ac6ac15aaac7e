use rs_summarizer::generation::{retry_delay, retry_delay_secs, validate_complete_output,
    GenerationStatus, PublicErrorCode};

#[test]
fn transitions_and_completion_are_strict() {
    assert!(GenerationStatus::Queued.can_transition_to(GenerationStatus::Running));
    assert!(!GenerationStatus::Succeeded.can_transition_to(GenerationStatus::Running));
    assert!(validate_complete_output("# Abstract\nEnough text to make this a meaningful response that continues beyond eighty characters.\n# Key Points\n- x\n# Discussion Highlights\n- y", true).is_ok());
    assert_eq!(
        validate_complete_output("# Abstract\ncut off", false),
        Err(PublicErrorCode::IncompleteOutput)
    );
}

#[test]
fn retry_policy_is_finite() {
    assert!(PublicErrorCode::Unavailable.retryable());
    assert!(!PublicErrorCode::RateLimited.retryable());
    assert!(retry_delay(2) > retry_delay(1));
}

#[test]
fn status_names_round_trip() {
    for s in [
        GenerationStatus::Queued,
        GenerationStatus::Running,
        GenerationStatus::Succeeded,
        GenerationStatus::Failed,
        GenerationStatus::PartialFailed,
    ] {
        assert_eq!(GenerationStatus::parse(s.as_str()), Ok(s));
        assert_eq!(s.as_str().parse::<GenerationStatus>(), Ok(s));
    }
    assert!(GenerationStatus::parse("paused").is_err());
}

#[test]
fn terminal_statuses_have_no_way_back_to_running() {
    assert!(GenerationStatus::Succeeded.is_terminal());
    assert!(GenerationStatus::Failed.is_terminal());
    assert!(!GenerationStatus::Queued.is_terminal());
    assert!(!GenerationStatus::Running.is_terminal());
    assert!(!GenerationStatus::Failed.can_transition_to(GenerationStatus::Running));
}

#[test]
fn error_codes_round_trip() {
    for c in [
        PublicErrorCode::RateLimited,
        PublicErrorCode::Unavailable,
        PublicErrorCode::IncompleteOutput,
    ] {
        assert_eq!(PublicErrorCode::parse(c.as_str()), Ok(c));
        assert!(!c.message().is_empty());
    }
}

#[test]
fn retry_delays_grow_and_stop() {
    assert!(retry_delay_secs(1) < retry_delay_secs(2));
    assert!(retry_delay_secs(2) <= retry_delay_secs(3));
    assert!(retry_delay_secs(40) >= retry_delay_secs(3));
}

#[test]
fn incomplete_answers_are_refused() {
    assert_eq!(validate_complete_output("", false), Err(PublicErrorCode::IncompleteOutput));
    assert_eq!(
        validate_complete_output("# Abstract\nshort\n# Key Points\n- x", true),
        Err(PublicErrorCode::IncompleteOutput)
    );
}

#[test]
fn messages_promise_a_retry_exactly_when_retryable() {
    let all = [
        PublicErrorCode::Unavailable,
        PublicErrorCode::RateLimited,
        PublicErrorCode::NetworkInterrupted,
        PublicErrorCode::ProviderAborted,
        PublicErrorCode::IncompleteOutput,
        PublicErrorCode::SafetyRefusal,
        PublicErrorCode::InvalidRequest,
        PublicErrorCode::Internal,
    ];
    for c in all {
        assert!(!c.message().is_empty());
        assert_eq!(c.message().contains("Retrying shortly"), c.retryable());
    }
}
