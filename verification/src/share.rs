//! Sharing a note: the clipboard payload pairs the note's markdown with its
//! HTML rendering.

use vstd::prelude::*;

verus! {

use vstd::string::StringExecFns;

#[derive(Debug, Clone)]
pub struct ClipboardPayload {
    pub plain_text: String,
    pub html: String,
}

/// The HTML that the markdown renderer produces for a given markdown text,
/// with tables, strikethrough and task lists enabled.  The result depends
/// on the text alone.
pub uninterp spec fn html_of(markdown: Seq<char>) -> Seq<char>;

/// Relies on pulldown_cmark's Parser and push_html: renders markdown to
/// HTML with the tables, strikethrough and task-list extensions on.  The
/// rendering is a pure function of the input text.
#[verifier::external_body]
fn markdown_to_html(markdown: &str) -> (r: String)
    ensures
        r@ == html_of(markdown@),
{
    let mut options = pulldown_cmark::Options::empty();
    options.insert(pulldown_cmark::Options::ENABLE_TABLES);
    options.insert(pulldown_cmark::Options::ENABLE_STRIKETHROUGH);
    options.insert(pulldown_cmark::Options::ENABLE_TASKLISTS);
    let parser = pulldown_cmark::Parser::new_ext(markdown, options);
    let mut html_output = String::new();
    pulldown_cmark::html::push_html(&mut html_output, parser);
    html_output
}

/// The payload handed to the clipboard: the markdown itself as plain text,
/// and its HTML rendering.
pub fn build_clipboard_payload(markdown: String) -> (r: Result<ClipboardPayload, String>)
    ensures
        r is Ok,
        r->Ok_0.plain_text@ == markdown@,
        r->Ok_0.html@ == html_of(markdown@),
{
    let html = markdown_to_html(markdown.as_str());
    Ok(ClipboardPayload { plain_text: markdown, html })
}

} // verus!
