//! Markdown conversion, done by the commonmark converter of the
//! `pulldown_cmark` crate.

use vstd::prelude::*;

verus! {

/// The HTML that the commonmark conversion produces for a Markdown text.
/// The conversion is a pure function of the text alone, so its result can be
/// named, though stating it in full is out of the question here.
pub uninterp spec fn md_html_of(md: Seq<char>) -> Seq<char>;

/// Relies on pulldown_cmark::Parser::new and pulldown_cmark::html::push_html:
/// parsing the Markdown text and writing the events back out as HTML depends
/// on the text alone.
#[verifier::external_body]
pub fn md_to_html(md: &str) -> (r: String)
    ensures
        r@ == md_html_of(md@),
{
    let parser = pulldown_cmark::Parser::new(md);
    let mut out = String::new();
    pulldown_cmark::html::push_html(&mut out, parser);
    out
}

} // verus!
