use vstd::prelude::*;

verus! {

/// The HTML that pulldown-cmark renders for a markdown text, with each of its
/// tables, strikethrough, task list and footnote extensions enabled as the
/// flags say.
pub uninterp spec fn markdown_html(
    markdown: Seq<char>,
    tables: bool,
    strikethrough: bool,
    tasklists: bool,
    footnotes: bool,
) -> Seq<char>;

/// `pulldown_cmark::html::push_html` over `Parser::new_ext`, into an empty
/// string, with `Options` holding the extensions that the flags enable.
#[verifier::external_body]
fn push_markdown_html(
    markdown_input: &str,
    tables: bool,
    strikethrough: bool,
    tasklists: bool,
    footnotes: bool,
) -> (r: String)
    ensures
        r@ == markdown_html(markdown_input@, tables, strikethrough, tasklists, footnotes),
{
    let mut options = pulldown_cmark::Options::empty();
    options.set(pulldown_cmark::Options::ENABLE_TABLES, tables);
    options.set(pulldown_cmark::Options::ENABLE_STRIKETHROUGH, strikethrough);
    options.set(pulldown_cmark::Options::ENABLE_TASKLISTS, tasklists);
    options.set(pulldown_cmark::Options::ENABLE_FOOTNOTES, footnotes);
    let parser = pulldown_cmark::Parser::new_ext(markdown_input, options);
    let mut html_output = String::new();
    pulldown_cmark::html::push_html(&mut html_output, parser);
    html_output
}

/// The HTML of a summary: pulldown-cmark with tables, strikethrough, task
/// lists and footnotes all enabled.
pub open spec fn summary_html(markdown: Seq<char>) -> Seq<char> {
    markdown_html(markdown, true, true, true, true)
}

/// Renders markdown to HTML with tables, strikethrough, task lists and
/// footnotes enabled.
pub fn render_markdown_to_html(markdown_input: &str) -> (r: String)
    ensures
        r@ == summary_html(markdown_input@),
{
    push_markdown_html(markdown_input, true, true, true, true)
}

} // verus!
