use vstd::prelude::*;
use crate::markdown_renderer::{summary_html, render_markdown_to_html};
use crate::timestamp_linker::{timestamps_linked, replace_timestamps_in_html};

verus! {

/// The polling partial of one generation.
#[derive(Debug)]
pub struct GenerationPartialTemplate {
    pub identifier: i64,
    pub summary: String,
    pub summary_done: bool,
    pub timestamps: String,
}

/// The timestamped summary shown under a summary: its rendered YouTube
/// format with links into the video, once that format exists.
pub open spec fn timestamps_section(done: bool, youtube_markdown: Seq<char>, source: Seq<char>) -> Seq<char> {
    if done {
        timestamps_linked(summary_html(youtube_markdown), source)
    } else {
        Seq::empty()
    }
}

pub fn timestamps_html(timestamps_done: bool, youtube_markdown: &str, source_link: &str) -> (r: String)
    ensures
        r@ == timestamps_section(timestamps_done, youtube_markdown@, source_link@),
{
    if timestamps_done {
        let html = render_markdown_to_html(youtube_markdown);
        replace_timestamps_in_html(html.as_str(), source_link)
    } else {
        String::new()
    }
}

/// The partial for a stored summary: its rendered text and, once available,
/// its linked timestamps.
pub fn generation_partial(
    identifier: i64,
    summary_markdown: &str,
    summary_done: bool,
    timestamps_done: bool,
    youtube_markdown: &str,
    source_link: &str,
) -> (r: GenerationPartialTemplate)
    ensures
        r.identifier == identifier,
        r.summary@ == summary_html(summary_markdown@),
        r.summary_done == summary_done,
        r.timestamps@ == timestamps_section(timestamps_done, youtube_markdown@, source_link@),
{
    let timestamps = timestamps_html(timestamps_done, youtube_markdown, source_link);
    let summary = render_markdown_to_html(summary_markdown);
    GenerationPartialTemplate { identifier, summary, summary_done, timestamps }
}

/// Shown when a polled summary does not exist.
pub const SUMMARY_NOT_FOUND_HTML: &'static str = "<p>Summary not found.</p>";

} // verus!
