//! The editor's preview: markdown rendered to HTML and sanitized.

use vstd::prelude::*;

verus! {

/// `pulldown_cmark` option bit for tables.
pub const ENABLE_TABLES: u32 = 2;

/// `pulldown_cmark` option bit for `~~strikethrough~~`.
pub const ENABLE_STRIKETHROUGH: u32 = 8;

/// `pulldown_cmark` option bit for `- [ ]` task lists.
pub const ENABLE_TASKLISTS: u32 = 16;

/// The markdown extensions the preview turns on: tables, strikethrough and
/// task lists.
pub open spec fn preview_options() -> u32 {
    ENABLE_TABLES | ENABLE_STRIKETHROUGH | ENABLE_TASKLISTS
}

/// The HTML `pulldown_cmark` renders for a markdown text with the given
/// option bits.
pub uninterp spec fn cmark_html(text: Seq<char>, options: u32) -> Seq<char>;

/// The HTML `ammonia::clean` keeps of an HTML text.
pub uninterp spec fn sanitized(html: Seq<char>) -> Seq<char>;

/// `pulldown_cmark::Parser::new_ext` with `Options::from_bits_truncate(options)`,
/// written out by `pulldown_cmark::html::push_html` into an empty string:
/// the result is named `cmark_html`.  Writing into a `String` cannot fail.
#[verifier::external_body]
fn markdown_to_html(input: &str, options: u32) -> (r: String)
    ensures
        r@ == cmark_html(input@, options),
{
    let mut out = String::new();
    pulldown_cmark::html::push_html(
        &mut out,
        pulldown_cmark::Parser::new_ext(input, pulldown_cmark::Options::from_bits_truncate(options)),
    );
    out
}

/// `ammonia::clean`: removes scripts, event handlers and other unsafe HTML
/// with ammonia's default rules.  The result is named `sanitized`; what it
/// removes is not stated.
#[verifier::external_body]
fn sanitize_html(html: &str) -> (r: String)
    ensures
        r@ == sanitized(html@),
{
    ammonia::clean(html)
}

/// Renders markdown for the preview (tables, strikethrough, task lists) and
/// sanitizes the HTML against script injection.
pub fn render_markdown(input: &str) -> (r: String)
    ensures
        r@ == sanitized(cmark_html(input@, preview_options())),
{
    let options = ENABLE_TABLES | ENABLE_STRIKETHROUGH | ENABLE_TASKLISTS;
    let html = markdown_to_html(input, options);
    sanitize_html(html.as_str())
}

} // verus!
