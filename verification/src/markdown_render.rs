//! Markdown rendering through the comrak engine, with optional syntect
//! syntax highlighting. The engine itself is outside code; this module holds
//! the trusted boundary around it.

use crate::config::MarkdownRenderConfig;
use comrak::plugins::syntect::SyntectAdapter;
use vstd::prelude::*;

verus! {

/// Declares comrak's syntect-based highlighting adapter so values of it can
/// be carried through the library; the library never looks inside one.
#[verifier::external_type_specification]
#[verifier::external_body]
pub struct ExSyntectAdapter(SyntectAdapter);

/// Relies on comrak::markdown_to_html_with_plugins: renders CommonMark to
/// HTML with tables, autolinks, task lists, superscript, strikethrough,
/// multiline block quotes and heading anchors enabled, escaping or passing
/// through raw HTML as the configuration says, and highlighting code fences
/// through the given adapter. The output is taken on trust; nothing is
/// assumed of it.
///
/// The adapter is opaque here, so one thing cannot be stated as a
/// precondition and is owed by whoever builds the adapter instead: an
/// adapter that names a theme absent from its own theme set makes comrak
/// abort at the first fenced code block. Construct adapters only with a
/// theme their theme set holds, or in CSS-class mode with no theme.
#[verifier::external_body]
pub fn render(markdown: &str, config: &MarkdownRenderConfig, syntect: Option<&SyntectAdapter>) -> (r:
    String) {
    let mut options = comrak::Options::default();
    options.extension.table = true;
    options.extension.autolink = true;
    options.extension.tasklist = true;
    options.extension.superscript = true;
    options.extension.strikethrough = true;
    options.extension.multiline_block_quotes = true;
    options.extension.header_ids = Some(String::new());
    options.render.escape = config.escape;
    options.render.unsafe_ = config.raw_html;
    let mut plugins = comrak::Plugins::default();
    plugins.render.codefence_syntax_highlighter = syntect.map(|s| s as _);
    comrak::markdown_to_html_with_plugins(markdown, &options, &plugins)
}

} // verus!
