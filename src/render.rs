//! The placeholder page written for each processed document.
use vstd::prelude::*;
use crate::document::DocumentContent;
use crate::text::concat;

verus! {

/// `s` with `&`, `<` and `>` written as the entities `&amp;`, `&lt;`, `&gt;`.
pub open spec fn html_text(s: Seq<char>) -> Seq<char>
    decreases s.len(),
{
    if s.len() == 0 {
        Seq::empty()
    } else {
        let c = s.last();
        html_text(s.drop_last()) + if c == '&' {
            "&amp;"@
        } else if c == '<' {
            "&lt;"@
        } else if c == '>' {
            "&gt;"@
        } else {
            seq![c]
        }
    }
}

/// Relies on `html_escape::encode_text`: `&`, `<` and `>` become entities,
/// every other character is kept.
#[verifier::external_body]
pub fn encode_text(s: &str) -> (r: String)
    ensures
        r@ == html_text(s@),
{
    html_escape::encode_text(s).to_string()
}

/// The HTML page for a document's text: the text escaped, inside `html`
/// and `body` elements.
pub fn render_page(text: &str) -> (r: String)
    ensures
        r@ == "<html><body>"@ + html_text(text@) + "</body></html>"@,
{
    let body = encode_text(text);
    let head = concat("<html><body>", body.as_str());
    concat(head.as_str(), "</body></html>")
}

/// The source text of a document body.
pub open spec fn content_text(c: DocumentContent) -> Seq<char> {
    match c {
        DocumentContent::RestructuredText(r) => r.raw@,
        DocumentContent::Markdown(m) => m.raw@,
        DocumentContent::PlainText(t) => t@,
    }
}

impl DocumentContent {
    /// The source text of the body, whatever its markup.
    pub fn text(&self) -> (r: &str)
        ensures
            r@ == content_text(*self),
    {
        match self {
            DocumentContent::RestructuredText(r) => r.raw.as_str(),
            DocumentContent::Markdown(m) => m.raw.as_str(),
            DocumentContent::PlainText(t) => t.as_str(),
        }
    }
}

} // verus!
