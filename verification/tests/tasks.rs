use rs_summarizer::summary::SummaryError;
use rs_summarizer::tasks::{duration_fits};
use rs_summarizer::tasks::{choose_starting_model, combined_transcript, error_card, format_process_error,
    get_fallback_chain, get_transcript_duration_secs, high_demand_retry_wait, is_summary_rate_limited,
    process_pasted_transcript, processing_mode, summary_header, CombinedOutput, ModelPipeline,
    PipelineAction, ProcessError, ProcessingMode};

#[test]
fn test_get_transcript_duration_secs_three_digits() {
    let transcript = "00:00:00 start\n01:15:30 end\n";
    assert_eq!(get_transcript_duration_secs(transcript), 3600 + 15 * 60 + 30);
}

#[test]
fn test_get_transcript_duration_secs_two_digits() {
    let transcript = "00:00 start\n15:45 end\n";
    assert_eq!(get_transcript_duration_secs(transcript), 15 * 60 + 45);
}

#[test]
fn test_get_transcript_duration_secs_fallback() {
    let words = "word ".repeat(300);
    assert_eq!(get_transcript_duration_secs(&words), 120);
}

#[test]
fn test_format_process_error_rate_limit() {
    let err = ProcessError::Summary(SummaryError::RateLimited);
    let formatted = format_process_error(&err);
    assert!(formatted.contains("rate limited"));
}

#[test]
fn test_format_process_error_quota() {
    let err = ProcessError::Summary(SummaryError::ApiError(
        "You exceeded your current quota, please check your plan and billing details.".to_string(),
    ));
    let formatted = format_process_error(&err);
    assert_eq!(
        formatted,
        "You exceeded your current quota, please check your plan and billing details."
    );
}

#[test]
fn test_get_fallback_chain_new_models() {
    let chain_37_flash = get_fallback_chain("gemini-3.7-flash");
    assert_eq!(chain_37_flash[0], "gemini-3.7-flash");
    assert!(chain_37_flash.contains(&"gemini-3.6-flash"));
    assert!(chain_37_flash.contains(&"gemini-3.5-flash"));
    assert!(chain_37_flash.contains(&"gemini-3.5-flash-lite"));
    assert!(chain_37_flash.contains(&"hetzner-qwen-3.8-27b"));
    assert!(chain_37_flash.contains(&"hetzner-qwen-3.6-35b"));

    let chain_36_flash = get_fallback_chain("gemini-3.6-flash");
    assert_eq!(chain_36_flash[0], "gemini-3.6-flash");
    assert!(chain_36_flash.contains(&"gemini-3.7-flash"));
    assert!(chain_36_flash.contains(&"gemini-3.5-flash"));
    assert!(chain_36_flash.contains(&"gemini-3.5-flash-lite"));
    assert!(chain_36_flash.contains(&"hetzner-qwen-3.8-27b"));
    assert!(chain_36_flash.contains(&"hetzner-qwen-3.6-35b"));

    let chain_35_lite = get_fallback_chain("gemini-3.5-flash-lite");
    assert_eq!(chain_35_lite[0], "gemini-3.5-flash-lite");
    assert!(chain_35_lite.contains(&"gemini-3.7-flash"));
    assert!(chain_35_lite.contains(&"gemini-3.1-flash-lite"));
    assert!(chain_35_lite.contains(&"gemini-2.5-flash-lite"));
    assert!(chain_35_lite.contains(&"hetzner-qwen-3.8-27b"));
    assert!(chain_35_lite.contains(&"hetzner-qwen-3.6-35b"));

    let chain_hetzner36 = get_fallback_chain("hetzner-qwen-3.6-35b");
    assert_eq!(chain_hetzner36[0], "hetzner-qwen-3.6-35b");
    assert!(chain_hetzner36.contains(&"hetzner-qwen-3.8-27b"));
    assert!(chain_hetzner36.contains(&"gemini-3.7-flash"));
    assert!(chain_hetzner36.contains(&"gemini-3.6-flash"));
}

#[test]
fn test_fallback_chain_hetzner_qwen38() {
    let chain = get_fallback_chain("hetzner-qwen-3.8-27b");
    assert_eq!(chain[0], "hetzner-qwen-3.8-27b");
    assert!(chain.contains(&"hetzner-qwen-3.6-35b"));
    assert!(chain.contains(&"gemini-3.7-flash"));
    assert!(chain.contains(&"gemini-3.6-flash"));
}

#[test]
fn test_gemini_chains_include_all_hetzner_models() {
    let hetzner_models = vec!["hetzner-qwen-3.8-27b", "hetzner-qwen-3.6-35b"];
    for gemini_model in &["gemini-3.7-flash", "gemini-3.6-flash", "gemini-3.5-flash"] {
        let chain = get_fallback_chain(gemini_model);
        for hetzner in &hetzner_models {
            assert!(
                chain.contains(hetzner),
                "Fallback chain for {} should contain {}",
                gemini_model,
                hetzner
            );
        }
    }
}

#[test]
fn test_process_pasted_transcript_bounds() {
    let text_short = "hello world ";
    assert!(matches!(process_pasted_transcript(text_short), Err(ProcessError::TranscriptTooShort)));

    let words_valid = "word ".repeat(50);
    let res = process_pasted_transcript(&words_valid);
    assert!(res.is_ok());
    assert_eq!(res.unwrap(), words_valid);

    let words_too_long = "word ".repeat(280_001);
    assert!(matches!(
        process_pasted_transcript(&words_too_long),
        Err(ProcessError::TranscriptTooLong(280001))
    ));
}

#[test]
fn test_is_summary_rate_limited_variations() {
    assert!(is_summary_rate_limited(&SummaryError::RateLimited));
    assert!(is_summary_rate_limited(&SummaryError::ApiError("RESOURCE_EXHAUSTED".into())));
    assert!(is_summary_rate_limited(&SummaryError::ApiError(
        "code 429; description: Quota exceeded".into()
    )));
    assert!(!is_summary_rate_limited(&SummaryError::TranscriptTooShort));
}

#[test]
fn test_hn_model_auto_selection_thresholds() {
    let short_hn_text = "word ".repeat(500);
    let long_hn_text = "word ".repeat(15300);
    let model_short = choose_starting_model("auto", &short_hn_text, true);
    let model_long = choose_starting_model("auto", &long_hn_text, true);
    assert_eq!(model_short, "gemini-3.5-flash-lite");
    assert_eq!(model_long, "gemini-3.6-flash");
}

#[test]
fn test_transcript_duration_auto_selection_thresholds() {
    let short_duration = "00:00:00 start\n00:29:59 end\n";
    let long_duration = "00:00:00 start\n00:30:00 end\n";
    assert_eq!(get_transcript_duration_secs(short_duration), 1799);
    assert_eq!(get_transcript_duration_secs(long_duration), 1800);
    let model_short = choose_starting_model("auto", short_duration, false);
    let model_long = choose_starting_model("auto", long_duration, false);
    assert_eq!(model_short, "gemini-3.5-flash-lite");
    assert_eq!(model_long, "gemini-3.6-flash");
}

#[test]
fn unknown_model_chain_is_itself_and_explicit_models_are_kept() {
    assert_eq!(get_fallback_chain("my-model"), vec!["my-model"]);
    assert_eq!(choose_starting_model("gemini-2.5-flash", "x", false), "gemini-2.5-flash");
}

#[test]
fn high_demand_waits_twice_then_stops() {
    assert_eq!(high_demand_retry_wait(1, false), Some(600_000));
    assert_eq!(high_demand_retry_wait(2, false), Some(14_400_000));
    assert_eq!(high_demand_retry_wait(3, false), None);
    assert_eq!(high_demand_retry_wait(1, true), Some(10));
    assert_eq!(high_demand_retry_wait(2, true), Some(20));
}

#[test]
fn pipeline_walks_the_chain_and_gives_up_with_the_last_rate_limit() {
    let (mut p, a) = ModelPipeline::start("hetzner-qwen-3.8-27b", "text", false, true);
    assert!(matches!(a, PipelineAction::Consider(ref n) if n == "hetzner-qwen-3.8-27b"));
    let a = p.admitted();
    assert!(matches!(a, PipelineAction::Generate(ref n) if n == "hetzner-qwen-3.8-27b"));
    let a = p.failed(SummaryError::ApiError("The model is experiencing high demand".into()));
    assert!(matches!(a, PipelineAction::RetryAfter(10)));
    let a = p.failed(SummaryError::ApiError("The model is experiencing high demand".into()));
    assert!(matches!(a, PipelineAction::RetryAfter(20)));
    let a = p.failed(SummaryError::ApiError("high demand again".into()));
    assert!(matches!(a, PipelineAction::Fail(SummaryError::ApiError(_))));

    let (mut p, _) = ModelPipeline::start("unknown-model", "text", false, true);
    let _ = p.admitted();
    let a = p.failed(SummaryError::ApiError("RESOURCE_EXHAUSTED".into()));
    match a {
        PipelineAction::Fail(SummaryError::ApiError(m)) => assert_eq!(m, "RESOURCE_EXHAUSTED"),
        _ => panic!("expected the last rate-limit error"),
    }
    let (mut p, _) = ModelPipeline::start("unknown-model", "text", false, false);
    assert!(p.has_current());
    assert!(!p.generating());
    assert!(matches!(p.skipped(), PipelineAction::Fail(SummaryError::RateLimited)));
    assert!(!p.has_current());
}

#[test]
fn pipeline_reports_when_a_generation_is_under_way() {
    let (mut p, _) = ModelPipeline::start("gemini-2.5-flash", "text", true, true);
    assert!(p.has_current() && !p.generating());
    let _ = p.admitted();
    assert!(p.generating());
    let a = p.failed(SummaryError::RateLimited);
    assert!(matches!(a, PipelineAction::Consider(ref n) if n == "gemini-3.7-flash"));
    assert!(p.has_current() && !p.generating());
}

#[test]
fn duration_estimates_that_fit() {
    assert!(duration_fits("00:00:00 start\n01:15:30 end\n"));
    assert!(duration_fits(&"word ".repeat(300)));
    assert!(!duration_fits("4294967295:00:00 too late\n"));
    assert!(!duration_fits("1193047:00:00 over\n"));
    assert!(duration_fits("1193046:28:15 just\n"));
}

#[test]
fn multi_item_output_is_put_together() {
    let mut out = CombinedOutput::new();
    out.add_success("u1", "S1", "T1", 1, 2, 3);
    out.add_success("u2", "S2", "T2", 10, 20, 30);
    let card = error_card("u3", &ProcessError::TranscriptTooShort);
    assert_eq!(card, "\n\n### Error for u3\nError: Transcript too short\n");
    out.add_failure(&card);
    assert_eq!(out.input_tokens, 11);
    assert_eq!(out.output_tokens, 22);
    assert_eq!(out.thinking_tokens, 33);
    assert_eq!(out.thinking_text, "--- Thinking for u1 ---\nT1\n\n--- Thinking for u2 ---\nT2");
    assert_eq!(out.summary_text, format!("S1S2{}", card));
    assert_eq!(summary_header("u1"), "\n\n### Summary for u1\n");
    let items = vec![("a".to_string(), "x".to_string()), ("b".to_string(), "y".to_string())];
    assert_eq!(combined_transcript(true, &items), "--- Transcript for a ---\nx\n\n--- Transcript for b ---\ny");
    assert_eq!(combined_transcript(false, &items[..1].to_vec()), "x");
}

#[test]
fn processing_mode_follows_the_stored_row() {
    assert_eq!(processing_mode("", "https://youtu.be/8S4a_LdHhsc"), ProcessingMode::PerItem);
    assert_eq!(processing_mode("article", "https://news.ycombinator.com/item?id=1"), ProcessingMode::HackerNews);
    assert_eq!(processing_mode("pasted text", "https://youtu.be/8S4a_LdHhsc"), ProcessingMode::Pasted);
}
