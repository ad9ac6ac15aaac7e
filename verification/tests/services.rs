use rs_summarizer::export_db::{parse_export_args, ExportArgError};
use rs_summarizer::export_db::{check_export, exported_embedding, ExportDbArgs, ExportPaths, ExportRefusal};
use rs_summarizer::markdown_renderer::render_markdown_to_html;
use rs_summarizer::services::{DeduplicationService, EmbeddingService};
use rs_summarizer::tasks::EmbeddingError;
use rs_summarizer::templates::{generation_partial, timestamps_html};
use std::time::Duration;

#[test]
fn services_keep_their_settings() {
    let d = DeduplicationService::new(Duration::from_secs(300));
    assert_eq!(d.window(), Duration::from_secs(300));
    assert_eq!(DeduplicationService::match_text("  https://x \n"), "https://x");
    let e = EmbeddingService::new("key".to_string(), "gemini-embedding-001", 3072);
    assert_eq!(e.api_key(), "key");
    assert_eq!(e.model(), "gemini-embedding-001");
    assert_eq!(e.output_dimensionality(), 3072);
    assert!(matches!(EmbeddingService::check_text(""), Err(EmbeddingError::EmptyText)));
    assert!(EmbeddingService::check_text("x").is_ok());
}

fn args(compress: bool) -> ExportDbArgs {
    ExportDbArgs { source: "src.db".into(), output: "out/db.sqlite".into(), include_embeddings: false, compress }
}

#[test]
fn exports_are_checked_in_order() {
    let ok = ExportPaths { source_exists: true, output_exists: false, compressed: Some(("out/db.sqlite.zst".into(), false)), parent: Some(("out".into(), true)) };
    assert!(check_export(&args(true), &ok).is_ok());
    let missing = ExportPaths { source_exists: false, output_exists: true, compressed: None, parent: None };
    assert!(matches!(check_export(&args(false), &missing), Err(ExportRefusal::SourceNotFound(p)) if p == "src.db"));
    let exists = ExportPaths { source_exists: true, output_exists: true, compressed: None, parent: None };
    assert!(matches!(check_export(&args(false), &exists), Err(ExportRefusal::OutputExists(p)) if p == "out/db.sqlite"));
    let zst = ExportPaths { source_exists: true, output_exists: false, compressed: Some(("out/db.sqlite.zst".into(), true)), parent: None };
    assert!(matches!(check_export(&args(true), &zst), Err(ExportRefusal::OutputExists(p)) if p == "out/db.sqlite.zst"));
    assert!(check_export(&args(false), &zst).is_ok());
    let nodir = ExportPaths { source_exists: true, output_exists: false, compressed: None, parent: Some(("out".into(), false)) };
    assert!(matches!(check_export(&args(false), &nodir), Err(ExportRefusal::OutputDirMissing(p)) if p == "out"));
    assert_eq!(exported_embedding(false, Some(vec![1, 2]), "m".into()), (None, String::new()));
    assert_eq!(exported_embedding(true, Some(vec![1, 2]), "m".into()), (Some(vec![1, 2]), "m".to_string()));
}

fn paths_in(dir: &str, source: &str, output: &str) -> ExportDbArgs {
    ExportDbArgs {
        source: format!("{}/{}", dir, source),
        output: format!("{}/{}", dir, output),
        include_embeddings: false,
        compress: false,
    }
}

#[test]
fn test_output_exists_error() {
    let a = paths_in("/tmp/test", "source.db", "output.db");
    let p = ExportPaths { source_exists: true, output_exists: true, compressed: None, parent: Some(("/tmp/test".into(), true)) };
    let result = check_export(&a, &p);
    assert!(result.is_err());
    assert!(matches!(result, Err(ExportRefusal::OutputExists(_))));
}

#[test]
fn test_source_not_found() {
    let a = paths_in("/tmp/test", "nonexistent.db", "output.db");
    let p = ExportPaths { source_exists: false, output_exists: false, compressed: None, parent: Some(("/tmp/test".into(), true)) };
    let result = check_export(&a, &p);
    assert!(result.is_err());
    assert!(matches!(result, Err(ExportRefusal::SourceNotFound(_))));
}

#[test]
fn test_output_dir_missing() {
    let a = paths_in("/tmp/test", "source.db", "nonexistent/output.db");
    let p = ExportPaths { source_exists: true, output_exists: false, compressed: None, parent: Some(("/tmp/test/nonexistent".into(), false)) };
    let result = check_export(&a, &p);
    assert!(result.is_err());
    assert!(matches!(result, Err(ExportRefusal::OutputDirMissing(_))));
}

#[test]
fn partials_render_summary_and_links() {
    let p = generation_partial(7, "**hi**", true, true, "*00:01:30 Intro*", "https://youtu.be/8S4a_LdHhsc");
    assert_eq!(p.identifier, 7);
    assert_eq!(p.summary, render_markdown_to_html("**hi**"));
    assert!(p.summary_done);
    assert!(p.timestamps.contains("watch?v=8S4a_LdHhsc&t=90s"));
    assert_eq!(timestamps_html(false, "*00:01:30 Intro*", "https://youtu.be/8S4a_LdHhsc"), "");
}

fn strings(v: &[&str]) -> Vec<String> {
    v.iter().map(|s| s.to_string()).collect()
}

#[test]
fn export_arguments_are_read_in_order() {
    let a = parse_export_args(&strings(&["--source", "a.db", "--output", "b.db", "--compress"])).unwrap();
    assert_eq!((a.source.as_str(), a.output.as_str(), a.include_embeddings, a.compress), ("a.db", "b.db", false, true));
    let a = parse_export_args(&strings(&["--include-embeddings", "--output", "x", "--source", "y", "--output", "z"])).unwrap();
    assert_eq!((a.source.as_str(), a.output.as_str(), a.include_embeddings), ("y", "z", true));
    let e = parse_export_args(&strings(&["--source"])).unwrap_err();
    assert!(matches!(e, ExportArgError::MissingValue(ref f) if f == "--source"));
    assert_eq!(e.message(), "--source requires a path argument");
    let e = parse_export_args(&strings(&["--output", "o", "--verbose"])).unwrap_err();
    assert_eq!(e.message(), "Unknown argument '--verbose'");
    let e = parse_export_args(&strings(&["--output", "o"])).unwrap_err();
    assert!(matches!(e, ExportArgError::MissingSource));
    assert_eq!(e.message(), "--source argument is required");
    let e = parse_export_args(&strings(&["--source", "s"])).unwrap_err();
    assert_eq!(e.message(), "--output argument is required");
}

#[test]
fn compressed_output_keeps_the_name_and_appends_zst() {
    assert_eq!(rs_summarizer::export_db::compressed_output_path("out/export.db"), "out/export.db.zst");
    assert_eq!(rs_summarizer::export_db::compressed_output_path("export"), "export.zst");
}
