use rs_summarizer::limits::{la_day, rpm_delay_nanos, remaining_wait, setting_or, RateLimiter, UsageCounters};
use rs_summarizer::state::{default_model_specs, find_model, unknown_model_error};
use rs_summarizer::summary::{ModelArchitecture, ModelSpec, SummaryError};

fn model<'a>(models: &'a Vec<ModelSpec>, name: &str) -> &'a ModelSpec {
    &models[find_model(models, name).unwrap()]
}

#[test]
fn test_unique_model_names() {
    let models = default_model_specs();
    let mut names = std::collections::HashSet::new();
    for m in &models {
        assert!(names.insert(m.name.clone()), "Duplicate model configuration name registered: {}", m.name);
    }
    assert_eq!(models.len(), 14);
}

#[test]
fn test_updated_model_limits() {
    let models = default_model_specs();
    let g37 = model(&models, "gemini-3.7-flash");
    assert_eq!(g37.rpm_limit, 5);
    assert_eq!(g37.rpd_limit, 20);
    assert_eq!(g37.context_window, 1_000_000);
    assert_eq!(g37.architecture, ModelArchitecture::Gemini);
    let g36 = model(&models, "gemini-3.6-flash");
    assert_eq!((g36.rpm_limit, g36.rpd_limit), (5, 20));
    let lite = model(&models, "gemini-3.5-flash-lite");
    assert_eq!((lite.rpm_limit, lite.rpd_limit), (15, 500));
    let g35 = model(&models, "gemini-3.5-flash");
    assert_eq!((g35.rpm_limit, g35.rpd_limit), (5, 20));
    let gemma = model(&models, "gemma-4-26b-a4b-it");
    assert_eq!((gemma.rpm_limit, gemma.rpd_limit), (30, 14400));
    let hetzner = model(&models, "hetzner-qwen-3.6-35b");
    assert_eq!((hetzner.rpm_limit, hetzner.rpd_limit), (60, 14400));
    assert_eq!(hetzner.architecture, ModelArchitecture::Hetzner);
}

#[test]
fn test_all_hetzner_models_registered() {
    let models = default_model_specs();
    for name in ["hetzner-qwen-3.6-35b", "hetzner-qwen-3.8-27b"] {
        let found = find_model(&models, name);
        assert!(found.is_some(), "Hetzner model '{}' not found in defaults", name);
        assert_eq!(models[found.unwrap()].architecture, ModelArchitecture::Hetzner);
    }
}

#[test]
fn test_hetzner_context_windows() {
    let models = default_model_specs();
    assert_eq!(model(&models, "hetzner-qwen-3.6-35b").context_window, 262_144);
    assert_eq!(model(&models, "hetzner-qwen-3.8-27b").context_window, 262_144);
}

#[test]
fn unknown_models_are_refused() {
    let models = default_model_specs();
    assert_eq!(find_model(&models, "nope"), None);
    match unknown_model_error("nope") {
        SummaryError::ApiError(m) => assert_eq!(m, "Unknown model: nope"),
        _ => panic!("expected an API error"),
    }
}

#[test]
fn test_check_rate_limit_allows_under_limit() {
    let mut counters = UsageCounters::new();
    assert!(RateLimiter::check_rate_limit("test-model", 5, &mut counters));
}

#[test]
fn test_check_rate_limit_rejects_at_limit() {
    let mut counters = UsageCounters::new();
    let today = counters.last_reset_day();
    assert_eq!(today, None);
    RateLimiter::check_rate_limit("test-model", 3, &mut counters);
    for _ in 0..3 {
        RateLimiter::increment_counter("test-model", &mut counters);
    }
    assert!(!RateLimiter::check_rate_limit("test-model", 3, &mut counters));
}

#[test]
fn test_increment_counter() {
    let mut counters = UsageCounters::new();
    RateLimiter::increment_counter("model-a", &mut counters);
    RateLimiter::increment_counter("model-a", &mut counters);
    RateLimiter::increment_counter("model-b", &mut counters);
    assert_eq!(counters.count_for("model-a"), 2);
    assert_eq!(counters.count_for("model-b"), 1);
    assert_eq!(counters.count_for("model-c"), 0);
}

#[test]
fn test_daily_reset_clears_counters() {
    let mut counters = UsageCounters::new();
    RateLimiter::maybe_reset_counters(&mut counters, 19_998);
    RateLimiter::increment_counter("model-a", &mut counters);
    RateLimiter::increment_counter("model-b", &mut counters);
    RateLimiter::maybe_reset_counters(&mut counters, 20_000);
    assert_eq!(counters.count_for("model-a"), 0);
    assert_eq!(counters.count_for("model-b"), 0);
    assert_eq!(counters.last_reset_day(), Some(20_000));
}

#[test]
fn daily_limit_counts_and_resets() {
    let mut counters = UsageCounters::new();
    assert!(RateLimiter::check_rate_limit_on("m", 2, &mut counters, 100));
    RateLimiter::increment_counter("m", &mut counters);
    assert!(RateLimiter::check_rate_limit_on("m", 2, &mut counters, 100));
    RateLimiter::increment_counter("m", &mut counters);
    assert!(!RateLimiter::check_rate_limit_on("m", 2, &mut counters, 100));
    assert!(RateLimiter::check_rate_limit_on("other", 2, &mut counters, 100));
    assert!(RateLimiter::check_rate_limit_on("m", 2, &mut counters, 101));
    assert!(!RateLimiter::check_rate_limit_on("m", 0, &mut counters, 101));
}

#[test]
fn la_day_moves_back_eight_hours() {
    assert_eq!(la_day(0), -1);
    assert_eq!(la_day(28_800), 0);
    assert_eq!(la_day(28_799), -1);
    assert_eq!(la_day(86_400 + 28_800), 1);
    assert_eq!(la_day(-86_400), -2);
}

#[test]
fn waits_cover_the_rest_of_the_delay() {
    assert_eq!(remaining_wait(None, 1000), None);
    assert_eq!(remaining_wait(Some(300), 1000), Some(700));
    assert_eq!(remaining_wait(Some(1000), 1000), None);
    assert_eq!(setting_or(Some("7"), 2), 7);
    assert_eq!(setting_or(Some("seven"), 2), 2);
    assert_eq!(setting_or(None, 500), 500);
}

#[test]
fn per_minute_limits_space_requests_evenly() {
    assert_eq!(rpm_delay_nanos(0), None);
    assert_eq!(rpm_delay_nanos(5), Some(12_000_000_000));
    assert_eq!(rpm_delay_nanos(60), Some(1_000_000_000));
    assert_eq!(rpm_delay_nanos(7), Some(8_571_428_571));
}
