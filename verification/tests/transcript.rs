use rs_summarizer::transcript::{cookie_args, trimmed_setting, CookieSources};
use rs_summarizer::transcript::{base_uvx_args, extractor_args, is_language_code,
    pot_provider_disabled, pot_url_from_env, read_download_outcome, read_list_output,
    transcript_from_vtt, TranscriptError, TranscriptService};

#[test]
fn test_pick_best_language_orig_preferred() {
    let svc = TranscriptService::new("/dev/shm");
    let output = r#"[info] Available subtitles for VIDEO_ID:
Language Name                     Formats
de       German                  vtt, ttml, srv3, srv2, srv1, json3
en-orig  English (Original)      vtt, ttml, srv3, srv2, srv1, json3
fr       French                  vtt, ttml, srv3, srv2, srv1, json3
"#;
    assert_eq!(svc.pick_best_language(output), Some("en-orig".to_string()));
}

#[test]
fn test_pick_best_language_de_orig_over_non_orig() {
    let svc = TranscriptService::new("/dev/shm");
    let output = r#"[info] Available subtitles for VIDEO_ID:
Language Name                     Formats
en       English                  vtt, ttml, srv3, srv2, srv1, json3
de-orig  German (Original)       vtt, ttml, srv3, srv2, srv1, json3
fr       French                  vtt, ttml, srv3, srv2, srv1, json3
"#;
    // de-orig is preferred base + orig, so it wins over en (non-orig preferred base)
    assert_eq!(svc.pick_best_language(output), Some("de-orig".to_string()));
}

#[test]
fn test_pick_best_language_non_orig_preferred_base() {
    let svc = TranscriptService::new("/dev/shm");
    let output = r#"[info] Available subtitles for VIDEO_ID:
Language Name                     Formats
fr       French                  vtt, ttml, srv3, srv2, srv1, json3
de       German                  vtt, ttml, srv3, srv2, srv1, json3
ja       Japanese                vtt, ttml, srv3, srv2, srv1, json3
"#;
    // No -orig languages, so pick first preferred base match: de (index 1) before fr (index 2)
    // Actually: preferred order is en, de, fr, es, pt, it, nl, ja, ko, zh
    // de is at index 1, fr is at index 2 → de wins
    assert_eq!(svc.pick_best_language(output), Some("de".to_string()));
}

#[test]
fn test_pick_best_language_en_prefix_fallback() {
    let svc = TranscriptService::new("/dev/shm");
    let output = r#"[info] Available subtitles for VIDEO_ID:
Language Name                     Formats
en-US    English (US)            vtt, ttml, srv3, srv2, srv1, json3
ru       Russian                 vtt, ttml, srv3, srv2, srv1, json3
"#;
    // en-US is not in preferred bases exactly, but matches en* prefix
    // Actually "en" is in preferred bases, but "en-US" is not exactly "en"
    // Category 3 checks exact match, so "en-US" != "en"
    // Category 4: en* prefix → en-US
    assert_eq!(svc.pick_best_language(output), Some("en-US".to_string()));
}

#[test]
fn test_pick_best_language_first_sorted_fallback() {
    let svc = TranscriptService::new("/dev/shm");
    let output = r#"[info] Available subtitles for VIDEO_ID:
Language Name                     Formats
ru       Russian                 vtt, ttml, srv3, srv2, srv1, json3
ar       Arabic                  vtt, ttml, srv3, srv2, srv1, json3
"#;
    // No orig, no preferred base, no en* → first sorted: ar
    assert_eq!(svc.pick_best_language(output), Some("ar".to_string()));
}

#[test]
fn test_pick_best_language_no_subtitles() {
    let svc = TranscriptService::new("/dev/shm");
    let output = "[info] No subtitles available\n";
    assert_eq!(svc.pick_best_language(output), None);
}

#[test]
fn test_pick_best_language_empty_output() {
    let svc = TranscriptService::new("/dev/shm");
    assert_eq!(svc.pick_best_language(""), None);
}

#[test]
fn test_pick_best_language_any_orig_sorted() {
    let svc = TranscriptService::new("/dev/shm");
    let output = r#"[info] Available subtitles for VIDEO_ID:
Language Name                     Formats
xx-orig  Unknown (Original)      vtt, ttml, srv3, srv2, srv1, json3
ab-orig  Another (Original)      vtt, ttml, srv3, srv2, srv1, json3
ru       Russian                 vtt, ttml, srv3, srv2, srv1, json3
"#;
    // No preferred base -orig, so pick any -orig sorted: ab-orig < xx-orig
    assert_eq!(svc.pick_best_language(output), Some("ab-orig".to_string()));
}

#[test]
fn test_is_language_code() {
    assert!(is_language_code("en"));
    assert!(is_language_code("en-orig"));
    assert!(is_language_code("zh-hans"));
    assert!(is_language_code("en-us"));
    assert!(is_language_code("en-US"));
    assert!(is_language_code("zh-Hans"));
    assert!(!is_language_code(""));
    assert!(!is_language_code("123"));
    assert!(!is_language_code("-en"));
    assert!(!is_language_code("Language")); // starts with uppercase
}

#[test]
fn test_parse_language_codes() {
    let svc = TranscriptService::new("/dev/shm");
    let output = r#"[info] Available subtitles for VIDEO_ID:
Language Name                     Formats
en       English                  vtt, ttml, srv3, srv2, srv1, json3
en-orig  English (Original)      vtt, ttml, srv3, srv2, srv1, json3
de       German                  vtt, ttml, srv3, srv2, srv1, json3
"#;
    let codes = svc.parse_language_codes(output);
    assert_eq!(codes, vec!["en", "en-orig", "de"]);
}

#[test]
fn test_parse_language_codes_with_auto_captions() {
    let svc = TranscriptService::new("/dev/shm");
    let output = r#"[info] Available automatic captions for VIDEO_ID:
Language Name                     Formats
en       English                  vtt, ttml, srv3, srv2, srv1, json3
de       German                  vtt, ttml, srv3, srv2, srv1, json3

[info] Available subtitles for VIDEO_ID:
Language Name                     Formats
en-orig  English (Original)      vtt, ttml, srv3, srv2, srv1, json3
"#;
    let codes = svc.parse_language_codes(output);
    // Should capture from both sections
    assert!(codes.contains(&"en".to_string()));
    assert!(codes.contains(&"de".to_string()));
    assert!(codes.contains(&"en-orig".to_string()));
}

#[test]
fn test_base_uvx_args_default() {
    assert!(!pot_provider_disabled(None));
    assert_eq!(
        base_uvx_args(pot_provider_disabled(None)),
        vec!["--with".to_string(), "bgutil-ytdlp-pot-provider".to_string(), "yt-dlp".to_string()]
    );
}

#[test]
fn test_base_uvx_args_disabled() {
    assert_eq!(base_uvx_args(pot_provider_disabled(Some("1"))), vec!["yt-dlp".to_string()]);
}

#[test]
fn pot_provider_switch_values() {
    assert!(pot_provider_disabled(Some("1")));
    assert!(pot_provider_disabled(Some("TRUE")));
    assert!(!pot_provider_disabled(Some("0")));
    assert!(!pot_provider_disabled(None));
}

#[test]
fn test_extractor_args_default() {
    let args = extractor_args(None, None, None);
    assert!(args.contains(&"--extractor-args".to_string()));
    assert!(args.contains(&"youtube:player_client=mweb".to_string()));
}

#[test]
fn test_extractor_args_custom_pot_url_and_player_client() {
    let pot = pot_url_from_env(Some("http://192.168.1.50:4416"), None, None);
    let args = extractor_args(Some("android"), pot.as_deref(), Some("youtube:skip=hls"));
    assert!(args.contains(&"youtube:player_client=android".to_string()));
    assert!(args.contains(&"youtubepot-bgutilhttp:base_url=http://192.168.1.50:4416".to_string()));
    assert!(args.contains(&"youtube:skip=hls".to_string()));
}

#[test]
fn blank_extractor_settings_give_no_arguments() {
    assert_eq!(extractor_args(Some("  "), None, Some(" ")), Vec::<String>::new());
}

#[test]
fn test_resolve_pot_provider_url_env_precedence() {
    assert_eq!(pot_url_from_env(None, Some("http://bgutil-host:4416"), None), Some("http://bgutil-host:4416".to_string()));
    assert_eq!(pot_url_from_env(Some("http://pot-host:4416"), Some("http://bgutil-host:4416"), None), Some("http://pot-host:4416".to_string()));
    assert_eq!(pot_url_from_env(Some("  "), Some("http://bgutil-host:4416"), None), None);
    assert_eq!(pot_url_from_env(None, None, None), None);
}

#[test]
fn test_cookie_args_defaults() {
    let sources = CookieSources {
        ytdlp_cookies: None,
        cookies_file: None,
        local_cookies_txt: false,
        browser: trimmed_setting(Some("firefox")),
        firefox_profile: false,
    };
    assert_eq!(cookie_args(&sources), vec!["--cookies-from-browser".to_string(), "firefox".to_string()]);
}

#[test]
fn list_output_failures_are_recognised() {
    let ok = read_list_output("[info] Available subtitles for x:", "", false, "uvx yt-dlp");
    assert_eq!(ok.unwrap(), "[info] Available subtitles for x:\n");
    match read_list_output("", " ", true, "uvx yt-dlp") {
        Err(TranscriptError::YtDlpFailed(m)) => assert_eq!(m, "yt-dlp produced no output (cmd: `uvx yt-dlp`)"),
        _ => panic!("expected a failure"),
    }
    match read_list_output("", "HTTP Error 429: Too Many Requests", false, "c") {
        Err(TranscriptError::YtDlpFailed(m)) => assert!(m.starts_with("YouTube rate limited (429 Too Many Requests).")),
        _ => panic!("expected a failure"),
    }
    match read_list_output("", "  boom  ", false, "c") {
        Err(TranscriptError::YtDlpFailed(m)) => assert_eq!(m, "yt-dlp failed: boom (note: please restart Firefox to refresh cookies if needed) (cmd: `c`)"),
        _ => panic!("expected a failure"),
    }
}

#[test]
fn download_failures_are_reported() {
    assert!(read_download_outcome("anything", true, "c").is_ok());
    match read_download_outcome("The page needs to be reloaded", false, "c") {
        Err(TranscriptError::YtDlpFailed(m)) => assert!(m.ends_with("then try again. (cmd: `c`)")),
        _ => panic!("expected a failure"),
    }
}

#[test]
fn empty_vtt_gives_a_parse_error() {
    match transcript_from_vtt("WEBVTT\n\n") {
        Err(e) => assert_eq!(e.message(), "VTT parse error: Parsed transcript is empty"),
        Ok(_) => panic!("expected an error"),
    }
    let t = transcript_from_vtt("WEBVTT\n\n00:00:00.000 --> 00:00:01.000\na\n\n00:00:01.000 --> 00:00:02.000\nb\n\n00:00:02.000 --> 00:00:03.000\nc\n").unwrap();
    assert_eq!(t, "00:00:00 a\n00:00:01 b\n");
}

#[test]
fn chosen_language_is_one_listed() {
    let svc = TranscriptService::new("/dev/shm");
    let output = "Available subtitles\nLanguage Formats\nzz-orig  x\nyy  y\n";
    let codes = svc.parse_language_codes(output);
    let best = svc.pick_best_language(output).unwrap();
    assert!(codes.contains(&best));
    assert_eq!(best, "zz-orig");
    assert_eq!(svc.temp_dir(), "/dev/shm");
}

#[test]
fn cookie_sources_by_precedence() {
    let none = CookieSources { ytdlp_cookies: None, cookies_file: None, local_cookies_txt: false, browser: None, firefox_profile: false };
    assert!(cookie_args(&none).is_empty());
    let browser = CookieSources { browser: trimmed_setting(Some(" firefox ")), ..none };
    assert_eq!(cookie_args(&browser), vec!["--cookies-from-browser".to_string(), "firefox".to_string()]);
    let file = CookieSources { ytdlp_cookies: Some(("/tmp/c.txt".to_string(), true)), local_cookies_txt: true, browser: Some("chrome".to_string()), cookies_file: None, firefox_profile: true };
    assert_eq!(cookie_args(&file), vec!["--cookies".to_string(), "/tmp/c.txt".to_string()]);
    let missing = CookieSources { ytdlp_cookies: Some(("/tmp/none".to_string(), false)), cookies_file: None, local_cookies_txt: true, browser: None, firefox_profile: false };
    assert_eq!(cookie_args(&missing), vec!["--cookies".to_string(), "cookies.txt".to_string()]);
    assert_eq!(trimmed_setting(Some("   ")), None);
}
