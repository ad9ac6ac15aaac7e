use rs_summarizer::models::ThinkingPreference;
use rs_summarizer::summary::{check_transcript_length, classify_api_error, gemini_2_5_thinking_budget,
    gemini_3_thinking_level, is_rate_limit_error, plan_request, resolve_hetzner_model_name,
    ModelArchitecture, PromptTexts, StreamAccumulator, SummaryError, SummaryService, ThinkingLevel};

#[test]
fn thinking_levels_map_only_for_gemini_3() {
    assert_eq!(
        gemini_3_thinking_level("gemini-3.8-flash", ThinkingPreference::Minimal),
        Some(ThinkingLevel::Minimal)
    );
    assert_eq!(
        gemini_3_thinking_level("gemini-3.7-flash", ThinkingPreference::Low),
        Some(ThinkingLevel::Low)
    );
    assert_eq!(
        gemini_3_thinking_level("gemini-3.6-flash", ThinkingPreference::Medium),
        Some(ThinkingLevel::Medium)
    );
    assert_eq!(
        gemini_3_thinking_level("gemini-3.5-flash", ThinkingPreference::High),
        Some(ThinkingLevel::High)
    );
    assert_eq!(
        gemini_3_thinking_level("gemini-3.8-flash", ThinkingPreference::Auto),
        None
    );
    assert_eq!(
        gemini_3_thinking_level("gemini-2.5-flash", ThinkingPreference::High),
        None
    );
    assert_eq!(
        gemini_3_thinking_level("hetzner-qwen-3.8-27b", ThinkingPreference::High),
        None
    );
    assert_eq!(gemini_2_5_thinking_budget("gemini-2.5-flash"), Some(24576));
    assert_eq!(gemini_2_5_thinking_budget("gemini-2.5-pro"), Some(32768));
    assert_eq!(gemini_2_5_thinking_budget("gemini-3.8-flash"), None);
}

#[test]
fn test_build_hn_prompt_content() {
    let svc = SummaryService::new("test-key".to_string());
    let content = "=== HACKER NEWS SUBMISSION ===\nTitle: Test Post";
    let prompt = svc.build_hn_prompt(content, false, "en");

    let today = chrono::Utc::now().format("%Y-%m-%d").to_string();
    assert!(prompt.contains(&today), "HN Prompt should contain today's date");
    assert!(prompt.contains("temporal awareness"), "HN Prompt should contain temporal awareness note");
    assert!(prompt.contains("Do NOT include any timestamps"), "HN Prompt should forbid timestamps for articles");
    assert!(prompt.contains("CONCISENESS REQUIREMENTS"), "HN Prompt should contain conciseness requirements");
    assert!(prompt.contains("Discussion Highlights"), "HN Prompt should request discussion highlights");
    assert!(prompt.contains("full breadth of the discussion"), "HN Prompt should instruct full discussion coverage");
}

#[test]
fn test_build_prompt_contains_transcript() {
    let svc = SummaryService::new("test-key".to_string());
    let transcript = "00:00:00 Hello world\n00:01:00 This is a test";
    let prompt = svc.build_prompt(transcript, false, "en");

    assert!(prompt.contains(transcript));
    assert!(prompt.contains("Example Input:"));
    assert!(prompt.contains("Example Output:"));
    assert!(prompt.contains("Below, I will provide input"), "Prompt should contain the instruction paragraph");
    assert!(prompt.contains("**Please give an abstract"), "Prompt should contain the bold formatting instruction");
    assert!(prompt.contains("Here is the real transcript"));
}

#[test]
fn test_build_prompt_non_empty() {
    let svc = SummaryService::new("test-key".to_string());
    let prompt = svc.build_prompt("some text", false, "en");
    assert!(!prompt.is_empty());
    assert!(prompt.contains("Example Input:"), "Prompt should contain 'Example Input:' marker");
    assert!(prompt.contains("Example Output:"), "Prompt should contain 'Example Output:' marker");
    assert!(prompt.contains("Below, I will provide input"), "Prompt should contain the instruction paragraph");
    assert!(prompt.contains("**Please give an abstract"), "Prompt should contain the bold formatting instruction");
}

#[test]
fn test_get_prompt_directives_glossary_and_german() {
    let directives_en_no_glossary = SummaryService::get_prompt_directives(false, "en");
    assert!(directives_en_no_glossary.is_empty());

    let directives_en_glossary = SummaryService::get_prompt_directives(true, "en");
    assert!(directives_en_glossary.contains("GLOSSARY DIRECTIVE"));
    assert!(directives_en_glossary.contains("## Glossary"));

    let directives_de_no_glossary = SummaryService::get_prompt_directives(false, "de");
    assert!(directives_de_no_glossary.contains("LANGUAGE DIRECTIVE (DEUTSCH)"));
    assert!(directives_de_no_glossary.contains("## Glossar"));

    let directives_de_glossary = SummaryService::get_prompt_directives(true, "de");
    assert!(directives_de_glossary.contains("LANGUAGE DIRECTIVE (DEUTSCH)"));
    assert!(directives_de_glossary.contains("GLOSSAR DIRECTIVE"));
    assert!(directives_de_glossary.contains("## Glossar"));
}

#[test]
fn test_transcript_validation_boundary_30_words() {
    let transcript_30 = "word ".repeat(30);
    assert!(matches!(check_transcript_length(&transcript_30), Ok(30)));
}

#[test]
fn test_transcript_validation_boundary_29_words() {
    let transcript_29 = "word ".repeat(29);
    assert!(matches!(check_transcript_length(&transcript_29), Err(SummaryError::TranscriptTooShort)));
}

#[test]
fn test_transcript_validation_boundary_280000_words() {
    let transcript = "word ".repeat(280_000);
    assert!(matches!(check_transcript_length(&transcript), Ok(280_000)));
}

#[test]
fn test_transcript_validation_boundary_280001_words() {
    let transcript = "word ".repeat(280_001);
    assert!(matches!(
        check_transcript_length(&transcript),
        Err(SummaryError::TranscriptTooLong(280_001, 280_000))
    ));
}

#[test]
fn test_is_rate_limit_error() {
    assert!(is_rate_limit_error("ResourceExhausted: quota exceeded"));
    assert!(is_rate_limit_error("bad response from server; code 429; description: rate limited"));
    assert!(is_rate_limit_error("RESOURCE_EXHAUSTED"));
    assert!(!is_rate_limit_error("some other error"));
    assert!(!is_rate_limit_error("network timeout"));
}

#[test]
fn test_hetzner_model_architecture_as_str() {
    assert_eq!(ModelArchitecture::Hetzner.as_str(), "Hetzner");
}

#[test]
fn test_resolve_hetzner_model_name() {
    assert_eq!(resolve_hetzner_model_name("hetzner-qwen-3.6-35b"), "Qwen/Qwen3.6-35B-A3B-FP8");
    assert_eq!(resolve_hetzner_model_name("hetzner-qwen-3.8-27b"), "Qwen3.8-27B");
    assert_eq!(resolve_hetzner_model_name("Qwen/Qwen3.6-35B-A3B-FP8"), "Qwen/Qwen3.6-35B-A3B-FP8");
    assert_eq!(resolve_hetzner_model_name("Qwen3.8-27B"), "Qwen3.8-27B");
    assert_eq!(resolve_hetzner_model_name("unknown-model"), "unknown-model");
}

fn sample_prompts() -> PromptTexts {
    PromptTexts {
        system_instruction: "### CORE INSTRUCTION\nBe precise.".to_string(),
        example_input: "EXAMPLE IN".to_string(),
        example_output_abstract: "## Abstract\nEX ABSTRACT".to_string(),
        example_output: "EX OUTPUT".to_string(),
    }
}

#[test]
fn gemma_prompt_is_persona_rule_then_routed_prompt() {
    let svc = SummaryService::with_prompts("k".to_string(), sample_prompts());
    let gemma = svc.build_prompt_for_gemma_on("test transcript", false, "en", "2024-05-01");
    assert!(gemma.starts_with("### CORE INSTRUCTION"));
    let delimiter = "\n\n---\n\n";
    let pos = gemma.find(delimiter).unwrap();
    assert_eq!(&gemma[pos + delimiter.len()..], svc.build_prompt_on("test transcript", false, "en", "2024-05-01"));
}

#[test]
fn test_build_prompt_for_gemma() {
    let svc = SummaryService::with_prompts("test-key".to_string(), sample_prompts());
    let transcript = "test transcript";
    let gemma_prompt = svc.build_prompt_for_gemma(transcript, false, "en");
    assert!(gemma_prompt.starts_with("### CORE INSTRUCTION"));
    assert!(gemma_prompt.contains("\n\n---\n\n"));
    let delimiter = "\n\n---\n\n";
    let delimiter_pos = gemma_prompt.find(delimiter).unwrap();
    let template_portion = &gemma_prompt[delimiter_pos + delimiter.len()..];
    let expected_template = svc.build_prompt(transcript, false, "en");
    assert_eq!(template_portion, expected_template);
}

#[test]
fn video_prompt_has_the_few_shot_material_in_order() {
    let svc = SummaryService::with_prompts("k".to_string(), sample_prompts());
    let p = svc.build_prompt_on("THE TRANSCRIPT", true, "de", "2024-05-01");
    assert!(p.starts_with("Today's date: 2024-05-01.\n"));
    let a = p.find("EXAMPLE IN").unwrap();
    let b = p.find("EX ABSTRACT").unwrap();
    let c = p.find("EX OUTPUT").unwrap();
    let d = p.find("THE TRANSCRIPT").unwrap();
    assert!(a < b && b < c && c < d);
    assert!(p.ends_with("THE TRANSCRIPT"));
    assert!(p.contains("GLOSSAR DIRECTIVE"));
    assert!(p.contains("## Abstract\nEX ABSTRACT\nEX OUTPUT\n"));
}

#[test]
fn dated_system_prompts_name_the_date() {
    let svc = SummaryService::with_prompts("k".to_string(), sample_prompts());
    let g = svc.gemini_system_prompt_on("2024-05-01");
    assert!(g.starts_with("### CORE INSTRUCTION\nBe precise.\n\nToday's date is 2024-05-01. Keep in mind"));
    let h = svc.hetzner_system_prompt_on("2024-05-01");
    assert!(h.ends_with("2024-05-01. Accept current facts presented in the input without making skeptical remarks or questioning them based on older training data."));
    let r = svc.build_routed_prompt_on("=== HACKER NEWS SUBMISSION ===\nx", false, "en", "2024-05-01");
    assert!(r.contains("This is an ARTICLE"));
}

#[test]
fn request_plans_follow_the_architecture() {
    let p = plan_request(ModelArchitecture::Gemini, "gemini-2.5-pro", true, true, ThinkingPreference::High);
    assert!(p.google_search && p.url_context && p.system_prompt && !p.gemma_prompt && !p.hetzner);
    assert_eq!(p.thinking_level, None);
    assert_eq!(p.thinking_budget, Some(32768));
    let p = plan_request(ModelArchitecture::Gemini, "gemini-3.8-flash", false, true, ThinkingPreference::Low);
    assert_eq!(p.thinking_level, Some(ThinkingLevel::Low));
    assert_eq!(p.thinking_budget, None);
    let p = plan_request(ModelArchitecture::Gemma, "gemma-4-31b-it", true, true, ThinkingPreference::High);
    assert!(p.google_search && !p.url_context && p.gemma_prompt && !p.system_prompt);
    let p = plan_request(ModelArchitecture::Hetzner, "hetzner-qwen-3.6-35b", true, true, ThinkingPreference::High);
    assert!(p.hetzner && !p.google_search && !p.url_context && p.thinking_budget.is_none());
}

#[test]
fn stream_accumulates_text_thoughts_and_usage() {
    let mut acc = StreamAccumulator::new();
    assert!(!acc.add_part("thinking...", Some(true)));
    assert!(acc.add_part("Hello ", Some(false)));
    assert!(!acc.add_part("", None));
    assert!(acc.add_chunk_text("world"));
    acc.record_usage(Some(100), None, Some(7));
    assert_eq!(acc.summary_text, "Hello world");
    assert_eq!(acc.thinking_text, "thinking...");
    let t = acc.finish_gemini("a prompt of 24 bytes....").unwrap();
    assert_eq!(t.input_tokens, 100);
    assert_eq!(t.output_tokens, 2);
    assert_eq!(t.thinking_tokens, 7);
    let empty = StreamAccumulator::new();
    match empty.finish_gemini("p") {
        Err(SummaryError::ApiError(m)) => assert_eq!(m, "Gemini returned empty response"),
        _ => panic!("expected an error"),
    }
    let mut h = StreamAccumulator::new();
    h.add_part("only thoughts", Some(true));
    assert!(matches!(h.finish_hetzner("p"), Err(SummaryError::ApiError(_))));
}

#[test]
fn api_errors_are_classified() {
    assert!(matches!(classify_api_error("429 Too Many".to_string()), SummaryError::RateLimited));
    match classify_api_error("boom".to_string()) {
        SummaryError::ApiError(m) => assert_eq!(m, "boom"),
        _ => panic!("expected an API error"),
    }
    assert_eq!(SummaryError::TranscriptTooLong(5, 3).message(), "Transcript too long (5 words, max 3)");
}

#[test]
fn dates_are_written_as_chrono_writes_them() {
    assert_eq!(rs_summarizer::num::format_date(2024, 3, 5), "2024-03-05");
    assert_eq!(rs_summarizer::num::format_date(2025, 12, 31), "2025-12-31");
    assert_eq!(rs_summarizer::num::format_date(987, 1, 2), "0987-01-02");
    assert_eq!(rs_summarizer::num::format_date(12345, 6, 7), "+12345-06-07");
    assert_eq!(rs_summarizer::num::format_date(-5, 10, 11), "-0005-10-11");
}

#[test]
fn today_text_matches_chrono() {
    let t = rs_summarizer::summary::today_text();
    let expected = chrono::Utc::now().format("%Y-%m-%d").to_string();
    assert_eq!(t, expected);
    assert_eq!(t.len(), 10);
    assert_eq!(&t[4..5], "-");
    assert_eq!(&t[7..8], "-");
}
