//! Markdown rendering, delegated to the `comrak` crate behind trusted
//! wrappers.  Two fixed option sets are used: one for article bodies, one for
//! the template filter, so each is a distinct function of the markdown text.

use vstd::prelude::*;

verus! {

/// The HTML `comrak` produces for a markdown text with footnotes and tables
/// enabled; abstract because spelling it out would restate `comrak`.
pub uninterp spec fn article_html_of(md: Seq<char>) -> Seq<char>;

/// Relies on `comrak::markdown_to_html` with footnotes and tables enabled:
/// the HTML is a function of the markdown text alone.
#[verifier::external_body]
pub(crate) fn render_article_html(md: &str) -> (r: String)
    ensures
        r@ == article_html_of(md@),
{
    let mut options = comrak::Options::default();
    options.extension.footnotes = true;
    options.extension.table = true;
    comrak::markdown_to_html(md, &options)
}

/// The HTML `comrak` produces for a markdown text with the template filter's
/// option set (footnotes, tables, header ids, strikethrough, tag filtering,
/// autolinking, escaping).
pub uninterp spec fn filtered_html_of(md: Seq<char>) -> Seq<char>;

/// Relies on `comrak::markdown_to_html` with the template filter's option
/// set: the HTML is a function of the markdown text alone.
#[verifier::external_body]
fn render_filtered_html(md: &str) -> (r: String)
    ensures
        r@ == filtered_html_of(md@),
{
    let mut options = comrak::Options::default();
    options.extension.footnotes = true;
    options.extension.table = true;
    options.extension.header_id_prefix = Some("content-".to_string());
    options.extension.strikethrough = true;
    options.extension.tagfilter = true;
    options.extension.autolink = true;
    options.render.escape = true;
    comrak::markdown_to_html(md, &options)
}

/// The markdown filter the page templates apply to article content.
pub fn markdown(s: &str) -> (r: String)
    ensures
        r@ == filtered_html_of(s@),
{
    render_filtered_html(s)
}

} // verus!
