//! Rich text between the HTML of a provider and the Markdown of the editor.
use super::markup::{can_be_converted, is_tame};
use crate::text::{join, joined, replace, replaced, split_words, words};
use vstd::prelude::*;

pub mod laws;

verus! {

/// What `html2md::parse_html` makes of a text.
pub uninterp spec fn markdown_of(html: Seq<char>) -> Seq<char>;

/// What `pulldown_cmark` renders a Markdown text to.
pub uninterp spec fn html_of(md: Seq<char>) -> Seq<char>;

/// Calls `html2md::parse_html`. Claimed of it: the Markdown depends on the text alone.
///
/// Left out are texts on which the converter may not return. It calls itself for each level of
/// elements, which is limited by the stack. It renders the cells of a table in a table again and
/// again, wider each time. And it can panic at an item without a list around it inside a link, a
/// quotation or marked text. Where elements nest as they are written, no item is without a list and
/// no table in a table; elsewhere that is left out unless the text holds nothing of the kind.
#[verifier::external_body]
fn convert_html(html: &str) -> (r: String)
    requires
        is_tame(html@),
    ensures
        r@ == markdown_of(html@),
{
    html2md::parse_html(html)
}

/// Calls `pulldown_cmark::html::push_html` on `pulldown_cmark::Parser::new`. Claimed of them: the
/// HTML depends on the text alone.
#[verifier::external_body]
fn render_markdown(md: &str) -> (r: String)
    ensures
        r@ == html_of(md@),
{
    let mut out = String::new();
    pulldown_cmark::html::push_html(&mut out, pulldown_cmark::Parser::new(md));
    out
}

/// The Markdown of an HTML text; `None` where its markup is not tame, which is left to the caller.
pub fn html_to_md(html: &str) -> (r: Option<String>)
    ensures
        match r {
            Some(md) => is_tame(html@) && md@ == markdown_of(html@),
            None => !is_tame(html@),
        },
{
    if can_be_converted(html) {
        Some(convert_html(html))
    } else {
        None
    }
}

/// The HTML of a Markdown text.
pub fn md_to_html(md: &str) -> (r: String)
    ensures
        r@ == html_of(md@),
{
    render_markdown(md)
}

/// Whether the text after `s` is inside a tag: the last angle bracket of `s` is a `<`.
pub open spec fn in_tag(s: Seq<char>) -> bool
    decreases s.len(),
{
    if s.len() == 0 {
        false
    } else if s.last() == '<' {
        true
    } else if s.last() == '>' {
        false
    } else {
        in_tag(s.drop_last())
    }
}

/// A text without its tags.
pub open spec fn without_tags(s: Seq<char>) -> Seq<char>
    decreases s.len(),
{
    if s.len() == 0 {
        Seq::empty()
    } else {
        let c = s.last();
        let head = without_tags(s.drop_last());
        if c == '<' || c == '>' || in_tag(s.drop_last()) {
            head
        } else {
            head.push(c)
        }
    }
}

/// A text with the usual entities decoded, one kind after the other.
pub open spec fn decoded(s: Seq<char>) -> Seq<char> {
    let s1 = replaced(s, "&nbsp;"@, " "@);
    let s2 = replaced(s1, "&amp;"@, "&"@);
    let s3 = replaced(s2, "&lt;"@, "<"@);
    let s4 = replaced(s3, "&gt;"@, ">"@);
    let s5 = replaced(s4, "&quot;"@, "\""@);
    replaced(s5, "&#39;"@, "'"@)
}

/// The plain text of an HTML text: no tags, entities decoded, words with single spaces between.
pub open spec fn plain_text(html: Seq<char>) -> Seq<char> {
    joined(words(decoded(without_tags(html))), " "@)
}

/// The plain text of an HTML text: no tags, entities decoded, words with single spaces between.
pub fn strip_html(html: &str) -> (r: String)
    ensures
        r@ == plain_text(html@),
{
    let cs: Vec<char> = crate::text::chars_of(html);
    let mut out: String = String::new();
    let mut inside: bool = false;
    let mut i: usize = 0;
    while i < cs.len()
        invariant
            i <= cs@.len(),
            cs@ == html@,
            inside == in_tag(html@.take(i as int)),
            out@ == without_tags(html@.take(i as int)),
        decreases cs@.len() - i,
    {
        proof {
            crate::text::lemma_take_step(html@, i as int);
        }
        let c: char = cs[i];
        if c == '<' {
            inside = true;
        } else if c == '>' {
            inside = false;
        } else if !inside {
            out.push(c);
        }
        i += 1;
    }
    assert(html@.take(i as int) =~= html@);
    proof {
        reveal_strlit("&nbsp;");
        reveal_strlit("&amp;");
        reveal_strlit("&lt;");
        reveal_strlit("&gt;");
        reveal_strlit("&quot;");
        reveal_strlit("&#39;");
    }
    let t: String = replace(out.as_str(), "&nbsp;", " ");
    let t: String = replace(t.as_str(), "&amp;", "&");
    let t: String = replace(t.as_str(), "&lt;", "<");
    let t: String = replace(t.as_str(), "&gt;", ">");
    let t: String = replace(t.as_str(), "&quot;", "\"");
    let t: String = replace(t.as_str(), "&#39;", "'");
    let list: Vec<String> = split_words(t.as_str());
    join(&list, " ")
}

} // verus!
