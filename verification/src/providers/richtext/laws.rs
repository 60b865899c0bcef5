//! What plain text promises of the HTML that it comes from.
use super::{decoded, in_tag, plain_text, without_tags};
use crate::text::laws::law_replacing;
use crate::text::{joined, occurs, occurs_at, replaced, words};
use vstd::prelude::*;

verus! {

/// A text without angle brackets has no tags to lose.
pub proof fn law_text_without_tags_stays(s: Seq<char>)
    requires
        !s.contains('<'),
        !s.contains('>'),
    ensures
        without_tags(s) == s,
        !in_tag(s),
    decreases s.len(),
{
    if s.len() > 0 {
        let head = s.drop_last();
        assert(!head.contains('<') && !head.contains('>')) by {
            if head.contains('<') {
                let i = choose|i: int| 0 <= i < head.len() && head[i] == '<';
                assert(s[i] == '<');
            }
            if head.contains('>') {
                let i = choose|i: int| 0 <= i < head.len() && head[i] == '>';
                assert(s[i] == '>');
            }
        }
        law_text_without_tags_stays(head);
        assert(s[s.len() - 1] != '<' && s[s.len() - 1] != '>');
        assert(head.push(s.last()) =~= s);
    } else {
        assert(without_tags(s) =~= s);
    }
}

/// A tag is dropped, and what stands before and after it is treated alike.
pub proof fn law_tag_is_dropped(a: Seq<char>, tag: Seq<char>, b: Seq<char>)
    requires
        !in_tag(a),
        !tag.contains('>'),
    ensures
        without_tags(a + seq!['<'] + tag + seq!['>'] + b) == without_tags(a) + without_tags(b),
{
    lemma_inside_tag(a, tag);
    let inside = a + seq!['<'] + tag;
    let closed = inside + seq!['>'];
    assert(closed.drop_last() =~= inside);
    lemma_after(closed, b);
    assert(a + seq!['<'] + tag + seq!['>'] + b =~= closed + b);
}

proof fn lemma_inside_tag(a: Seq<char>, tag: Seq<char>)
    requires
        !tag.contains('>'),
    ensures
        in_tag(a + seq!['<'] + tag),
        without_tags(a + seq!['<'] + tag) == without_tags(a),
    decreases tag.len(),
{
    let whole = a + seq!['<'] + tag;
    if tag.len() == 0 {
        assert(whole =~= a.push('<'));
        assert(whole.drop_last() =~= a);
    } else {
        let head = tag.drop_last();
        assert(!head.contains('>')) by {
            if head.contains('>') {
                let i = choose|i: int| 0 <= i < head.len() && head[i] == '>';
                assert(tag[i] == '>');
            }
        }
        lemma_inside_tag(a, head);
        assert(whole.drop_last() =~= a + seq!['<'] + head);
        assert(tag[tag.len() - 1] != '>');
    }
}

proof fn lemma_after(a: Seq<char>, b: Seq<char>)
    requires
        !in_tag(a),
    ensures
        without_tags(a + b) == without_tags(a) + without_tags(b),
        in_tag(a + b) == in_tag(b),
    decreases b.len(),
{
    if b.len() == 0 {
        assert(a + b =~= a);
        assert(without_tags(a) + without_tags(b) =~= without_tags(a));
    } else {
        lemma_after(a, b.drop_last());
        assert((a + b).drop_last() =~= a + b.drop_last());
        assert(without_tags(a + b) =~= without_tags(a) + without_tags(b));
    }
}

/// Plain text is the words that are left, with single spaces between them.
pub proof fn law_plain_text_is_words(html: Seq<char>)
    ensures
        plain_text(html) == joined(words(decoded(without_tags(html))), " "@),
        !html.contains('<') && !html.contains('>') && !html.contains('&') ==> plain_text(html)
            == joined(words(html), " "@),
{
    if !html.contains('<') && !html.contains('>') && !html.contains('&') {
        law_text_without_tags_stays(html);
        law_no_entities(html);
    }
}

proof fn lemma_needs_ampersand(s: Seq<char>, n: Seq<char>, by: Seq<char>)
    requires
        !s.contains('&'),
        n.len() > 0,
        n[0] == '&',
    ensures
        replaced(s, n, by) == s,
{
    assert(!occurs(s, n)) by {
        if occurs(s, n) {
            let i = choose|i: int| #[trigger] occurs_at(s, n, i);
            assert(s.subrange(i, i + n.len())[0] == '&');
            assert(s[i] == '&');
        }
    }
    law_replacing(s, n, by, 0);
}

/// A text without an ampersand holds no entities.
pub proof fn law_no_entities(s: Seq<char>)
    requires
        !s.contains('&'),
    ensures
        decoded(s) == s,
{
    reveal_entities();
    lemma_needs_ampersand(s, "&nbsp;"@, " "@);
    lemma_needs_ampersand(s, "&amp;"@, "&"@);
    lemma_needs_ampersand(s, "&lt;"@, "<"@);
    lemma_needs_ampersand(s, "&gt;"@, ">"@);
    lemma_needs_ampersand(s, "&quot;"@, "\""@);
    lemma_needs_ampersand(s, "&#39;"@, "'"@);
}

proof fn reveal_entities()
    ensures
        "&nbsp;"@ =~= seq!['&', 'n', 'b', 's', 'p', ';'],
        "&amp;"@ =~= seq!['&', 'a', 'm', 'p', ';'],
        "&lt;"@ =~= seq!['&', 'l', 't', ';'],
        "&gt;"@ =~= seq!['&', 'g', 't', ';'],
        "&quot;"@ =~= seq!['&', 'q', 'u', 'o', 't', ';'],
        "&#39;"@ =~= seq!['&', '#', '3', '9', ';'],
        " "@ =~= seq![' '],
        "<"@ =~= seq!['<'],
        ">"@ =~= seq!['>'],
        "\""@ =~= seq!['"'],
        "'"@ =~= seq!['\''],
{
    reveal_strlit("&nbsp;");
    reveal_strlit("&amp;");
    reveal_strlit("&lt;");
    reveal_strlit("&gt;");
    reveal_strlit("&quot;");
    reveal_strlit("&#39;");
    reveal_strlit(" ");
    reveal_strlit("<");
    reveal_strlit(">");
    reveal_strlit("\"");
    reveal_strlit("'");
}

/// Whether a text is an ampersand, something else, and no further ampersand.
spec fn is_entity(n: Seq<char>) -> bool {
    &&& n.len() >= 2
    &&& n[0] == '&'
    &&& forall|i: int| 1 <= i < n.len() ==> #[trigger] n[i] != '&'
}

proof fn lemma_only_there(a: Seq<char>, n: Seq<char>, b: Seq<char>, m: Seq<char>, i: int)
    requires
        !a.contains('&'),
        !b.contains('&'),
        is_entity(n),
        is_entity(m),
        occurs_at(a + n + b, m, i),
    ensures
        i == a.len(),
        (a + n + b)[i + 1] == m[1],
{
    let s = a + n + b;
    assert(s.subrange(i, i + m.len())[0] == '&');
    assert(s.subrange(i, i + m.len())[1] == m[1]);
    assert(s[i] == '&');
    if i < a.len() {
        assert(a[i] == '&');
    } else if i < a.len() + n.len() {
        assert(n[i - a.len()] == '&');
    } else {
        assert(b[i - a.len() - n.len()] == '&');
    }
}

proof fn lemma_other_entity(
    a: Seq<char>,
    n: Seq<char>,
    b: Seq<char>,
    m: Seq<char>,
    by: Seq<char>,
)
    requires
        !a.contains('&'),
        !b.contains('&'),
        is_entity(n),
        is_entity(m),
        n[1] != m[1],
    ensures
        replaced(a + n + b, m, by) == a + n + b,
{
    let s = a + n + b;
    assert(!occurs(s, m)) by {
        if occurs(s, m) {
            let i = choose|i: int| #[trigger] occurs_at(s, m, i);
            lemma_only_there(a, n, b, m, i);
            assert(s[i + 1] == n[1]);
        }
    }
    law_replacing(s, m, by, 0);
}

proof fn lemma_this_entity(a: Seq<char>, n: Seq<char>, b: Seq<char>, by: Seq<char>)
    requires
        !a.contains('&'),
        !b.contains('&'),
        is_entity(n),
    ensures
        replaced(a + n + b, n, by) == a + by + b,
{
    let s = a + n + b;
    let at = a.len() as int;
    assert(s.subrange(at, at + n.len()) =~= n);
    assert(occurs_at(s, n, at));
    assert forall|j: int| 0 <= j < at implies !#[trigger] occurs_at(s, n, j) by {
        if occurs_at(s, n, j) {
            lemma_only_there(a, n, b, n, j);
        }
    }
    law_replacing(s, n, by, at);
    assert(s.take(at) =~= a);
    assert(s.skip(at + n.len()) =~= b);
    lemma_needs_ampersand(b, n, by);
}

proof fn lemma_plain_around(a: Seq<char>, c: char, b: Seq<char>)
    requires
        !a.contains('&'),
        !b.contains('&'),
        c != '&',
    ensures
        !(a + seq![c] + b).contains('&'),
{
    let s = a + seq![c] + b;
    if s.contains('&') {
        let i = choose|i: int| 0 <= i < s.len() && s[i] == '&';
        if i < a.len() {
            assert(a[i] == '&');
        } else if i > a.len() {
            assert(b[i - a.len() - 1] == '&');
        }
    }
}

/// Each of the usual entities stands for its character.
pub proof fn law_entities_are_decoded(a: Seq<char>, b: Seq<char>)
    requires
        !a.contains('&'),
        !b.contains('&'),
    ensures
        decoded(a + "&nbsp;"@ + b) == a + " "@ + b,
        decoded(a + "&lt;"@ + b) == a + "<"@ + b,
        decoded(a + "&gt;"@ + b) == a + ">"@ + b,
        decoded(a + "&quot;"@ + b) == a + "\""@ + b,
        decoded(a + "&#39;"@ + b) == a + "'"@ + b,
{
    reveal_entities();
    let nbsp = "&nbsp;"@;
    let amp = "&amp;"@;
    let lt = "&lt;"@;
    let gt = "&gt;"@;
    let quot = "&quot;"@;
    let apos = "&#39;"@;
    // A blank.
    lemma_this_entity(a, nbsp, b, " "@);
    lemma_plain_around(a, ' ', b);
    lemma_rest_stays(a + " "@ + b);
    // An opening bracket.
    lemma_other_entity(a, lt, b, nbsp, " "@);
    lemma_other_entity(a, lt, b, amp, "&"@);
    lemma_this_entity(a, lt, b, "<"@);
    lemma_plain_around(a, '<', b);
    lemma_rest_stays(a + "<"@ + b);
    // A closing one.
    lemma_other_entity(a, gt, b, nbsp, " "@);
    lemma_other_entity(a, gt, b, amp, "&"@);
    lemma_other_entity(a, gt, b, lt, "<"@);
    lemma_this_entity(a, gt, b, ">"@);
    lemma_plain_around(a, '>', b);
    lemma_rest_stays(a + ">"@ + b);
    // A double quote.
    lemma_other_entity(a, quot, b, nbsp, " "@);
    lemma_other_entity(a, quot, b, amp, "&"@);
    lemma_other_entity(a, quot, b, lt, "<"@);
    lemma_other_entity(a, quot, b, gt, ">"@);
    lemma_this_entity(a, quot, b, "\""@);
    lemma_plain_around(a, '"', b);
    lemma_rest_stays(a + "\""@ + b);
    // A single one.
    lemma_other_entity(a, apos, b, nbsp, " "@);
    lemma_other_entity(a, apos, b, amp, "&"@);
    lemma_other_entity(a, apos, b, lt, "<"@);
    lemma_other_entity(a, apos, b, gt, ">"@);
    lemma_other_entity(a, apos, b, quot, "\""@);
    lemma_this_entity(a, apos, b, "'"@);
}

proof fn lemma_rest_stays(s: Seq<char>)
    requires
        !s.contains('&'),
    ensures
        replaced(s, "&amp;"@, "&"@) == s,
        replaced(s, "&lt;"@, "<"@) == s,
        replaced(s, "&gt;"@, ">"@) == s,
        replaced(s, "&quot;"@, "\""@) == s,
        replaced(s, "&#39;"@, "'"@) == s,
{
    reveal_entities();
    lemma_needs_ampersand(s, "&amp;"@, "&"@);
    lemma_needs_ampersand(s, "&lt;"@, "<"@);
    lemma_needs_ampersand(s, "&gt;"@, ">"@);
    lemma_needs_ampersand(s, "&quot;"@, "\""@);
    lemma_needs_ampersand(s, "&#39;"@, "'"@);
}

} // verus!
