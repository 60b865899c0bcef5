//! Markup that can be converted without surprises: its elements nest as they are written, or it has
//! nothing in it that could upset the conversion.
use crate::text::{
    ascii_alnum, chars_of, find_char, first_at, group_text, has_prefix, is_ascii_alnum,
    lemma_failure_stays, lemma_take_step, list_contains, lower, pieces, same, split, starts_with,
    string_of, to_lower, views,
};
use vstd::prelude::*;

verus! {

broadcast use group_text;

/// How deep elements may stand in each other.
pub const MAX_LEVELS: usize = 400;

/// White space between the parts of a tag.
pub open spec fn tag_space(c: char) -> bool {
    c == ' ' || c == '\t' || c == '\n' || c == '\r' || c == '\x0c'
}

/// What ends the name of a tag.
pub open spec fn ends_name(c: char) -> bool {
    tag_space(c) || c == '/' || c == '>'
}

fn is_tag_space(c: char) -> (r: bool)
    ensures
        r == tag_space(c),
{
    c == ' ' || c == '\t' || c == '\n' || c == '\r' || c == '\x0c'
}

fn is_end_of_name(c: char) -> (r: bool)
    ensures
        r == ends_name(c),
{
    is_tag_space(c) || c == '/' || c == '>'
}

// ---------------------------------------------------------------------------------------------
// Tags
// ---------------------------------------------------------------------------------------------

/// Where in the attributes of a tag the reading of them stands.
#[derive(Debug, Clone, Copy, PartialEq, Eq, Structural)]
pub enum Place {
    /// Before an attribute.
    Between,
    /// In the name of an attribute.
    Name,
    /// After the name of an attribute and white space.
    AfterName,
    /// After an equals sign.
    BeforeValue,
    /// In a value between double quotes.
    Double,
    /// In a value between single quotes.
    Single,
    /// In a value without quotes.
    Bare,
}

/// Where the reading of attributes stands after one more character.
pub open spec fn place_after(at: Place, c: char) -> Place {
    match at {
        Place::Double => if c == '"' {
            Place::Between
        } else {
            at
        },
        Place::Single => if c == '\'' {
            Place::Between
        } else {
            at
        },
        Place::Bare => if tag_space(c) {
            Place::Between
        } else {
            at
        },
        Place::BeforeValue => if tag_space(c) {
            at
        } else if c == '"' {
            Place::Double
        } else if c == '\'' {
            Place::Single
        } else {
            Place::Bare
        },
        _ => if tag_space(c) {
            if at == Place::Between {
                Place::Between
            } else {
                Place::AfterName
            }
        } else if c == '/' {
            Place::Between
        } else if c == '=' && at != Place::Between {
            Place::BeforeValue
        } else {
            Place::Name
        },
    }
}

/// Where the reading of attributes stands after all of them.
pub open spec fn place_of(attributes: Seq<char>) -> Place
    decreases attributes.len(),
{
    if attributes.len() == 0 {
        Place::Between
    } else {
        place_after(place_of(attributes.drop_last()), attributes.last())
    }
}

/// Whether every quoted value among attributes is closed.
pub open spec fn values_are_closed(attributes: Seq<char>) -> bool {
    place_of(attributes) != Place::Double && place_of(attributes) != Place::Single
}

/// The number of letters and digits at the start of a text.
pub open spec fn name_len(s: Seq<char>) -> nat
    decreases s.len(),
{
    if s.len() == 0 || !is_ascii_alnum(s[0]) {
        0
    } else {
        1 + name_len(s.skip(1))
    }
}

/// A tag: whether it ends an element, and the element's name.
#[verifier::ext_equal]
pub struct TagView {
    pub closing: bool,
    pub name: Seq<char>,
}

/// The tag at the start of what follows a `<`, when it is plainly written: a name, and attributes
/// whose values are closed before the `>`.
pub open spec fn tag_at(piece: Seq<char>) -> Option<TagView> {
    match first_at(piece, '>') {
        Some(end) => {
            let closing = end > 0 && piece[0] == '/';
            let inside = piece.subrange(
                if closing {
                    1
                } else {
                    0
                },
                end,
            );
            let name = inside.take(name_len(inside) as int);
            let attributes = inside.skip(name_len(inside) as int);
            if (attributes.len() == 0 || ends_name(attributes[0])) && values_are_closed(attributes) {
                Some(TagView { closing, name })
            } else {
                None
            }
        },
        None => None,
    }
}

/// A tag: whether it ends an element, and the element's name.
struct Tag {
    closing: bool,
    name: String,
}

impl View for Tag {
    type V = TagView;

    closed spec fn view(&self) -> TagView {
        TagView { closing: self.closing, name: self.name@ }
    }
}

fn next_place(at: Place, c: char) -> (r: Place)
    ensures
        r == place_after(at, c),
{
    match at {
        Place::Double => if c == '"' {
            Place::Between
        } else {
            at
        },
        Place::Single => if c == '\'' {
            Place::Between
        } else {
            at
        },
        Place::Bare => if is_tag_space(c) {
            Place::Between
        } else {
            at
        },
        Place::BeforeValue => if is_tag_space(c) {
            at
        } else if c == '"' {
            Place::Double
        } else if c == '\'' {
            Place::Single
        } else {
            Place::Bare
        },
        _ => if is_tag_space(c) {
            if at == Place::Between {
                Place::Between
            } else {
                Place::AfterName
            }
        } else if c == '/' {
            Place::Between
        } else if c == '=' && at != Place::Between {
            Place::BeforeValue
        } else {
            Place::Name
        },
    }
}

fn are_values_closed(attributes: &str) -> (r: bool)
    ensures
        r == values_are_closed(attributes@),
{
    let cs: Vec<char> = chars_of(attributes);
    let mut at: Place = Place::Between;
    let mut i: usize = 0;
    while i < cs.len()
        invariant
            i <= cs@.len(),
            at == place_of(cs@.take(i as int)),
        decreases cs@.len() - i,
    {
        proof {
            lemma_take_step(cs@, i as int);
        }
        at = next_place(at, cs[i]);
        i += 1;
    }
    assert(cs@.take(i as int) =~= cs@);
    at != Place::Double && at != Place::Single
}

proof fn lemma_name_len(s: Seq<char>, n: int)
    requires
        0 <= n <= s.len(),
        forall|i: int| 0 <= i < n ==> is_ascii_alnum(#[trigger] s[i]),
        n < s.len() ==> !is_ascii_alnum(s[n]),
    ensures
        name_len(s) == n,
    decreases n,
{
    if n > 0 {
        assert(is_ascii_alnum(s[0]));
        let t = s.skip(1);
        assert forall|i: int| 0 <= i < n - 1 implies is_ascii_alnum(#[trigger] t[i]) by {
            assert(is_ascii_alnum(s[i + 1]));
        }
        lemma_name_len(t, n - 1);
    }
}

fn read_tag(piece: &str) -> (r: Option<Tag>)
    ensures
        match r {
            Some(tag) => tag_at(piece@) == Some(tag@),
            None => tag_at(piece@) is None,
        },
{
    let cs: Vec<char> = chars_of(piece);
    let end: usize = match find_char(&cs, '>') {
        Some(end) => end,
        None => {
            return None;
        },
    };
    let closing: bool = end > 0 && cs[0] == '/';
    let start: usize = if closing {
        1
    } else {
        0
    };
    let ghost inside = piece@.subrange(start as int, end as int);
    let mut to: usize = start;
    while to < end && ascii_alnum(cs[to])
        invariant
            start <= to <= end <= cs@.len(),
            cs@ == piece@,
            inside == piece@.subrange(start as int, end as int),
            forall|i: int| 0 <= i < to - start ==> is_ascii_alnum(#[trigger] inside[i]),
        decreases end - to,
    {
        assert(inside[to - start] == cs@[to as int]);
        to += 1;
    }
    proof {
        if to < end {
            assert(inside[to - start] == cs@[to as int]);
        }
        lemma_name_len(inside, to - start);
    }
    let name: String = string_of(&cs, start, to);
    let attributes: String = string_of(&cs, to, end);
    assert(name@ =~= inside.take(to - start));
    assert(attributes@ =~= inside.skip(to - start));
    if (to == end || is_end_of_name(cs[to])) && are_values_closed(attributes.as_str()) {
        Some(Tag { closing, name })
    } else {
        None
    }
}

// ---------------------------------------------------------------------------------------------
// Nesting
// ---------------------------------------------------------------------------------------------

/// Elements that hold the items of a list.
pub open spec fn is_list(name: Seq<char>) -> bool {
    name == "ul"@ || name == "ol"@ || name == "menu"@
}

/// Headings.
pub open spec fn is_heading(name: Seq<char>) -> bool {
    name == "h1"@ || name == "h2"@ || name == "h3"@ || name == "h4"@ || name == "h5"@ || name
        == "h6"@
}

/// Elements without an end.
pub open spec fn is_void(name: Seq<char>) -> bool {
    name == "br"@ || name == "hr"@ || name == "img"@
}

/// Parts of the text that stand on lines of their own.
pub open spec fn is_block(name: Seq<char>) -> bool {
    ||| name == "article"@
    ||| name == "blockquote"@
    ||| name == "center"@
    ||| name == "details"@
    ||| name == "div"@
    ||| name == "footer"@
    ||| name == "header"@
    ||| name == "pre"@
    ||| name == "section"@
    ||| name == "summary"@
}

/// Parts of a line.
pub open spec fn is_inline(name: Seq<char>) -> bool {
    ||| name == "abbr"@
    ||| name == "b"@
    ||| name == "big"@
    ||| name == "cite"@
    ||| name == "code"@
    ||| name == "del"@
    ||| name == "em"@
    ||| name == "font"@
    ||| name == "i"@
    ||| name == "ins"@
    ||| name == "kbd"@
    ||| name == "mark"@
    ||| name == "q"@
    ||| name == "s"@
    ||| name == "samp"@
    ||| name == "small"@
    ||| name == "span"@
    ||| name == "strike"@
    ||| name == "strong"@
    ||| name == "sub"@
    ||| name == "sup"@
    ||| name == "tt"@
    ||| name == "u"@
    ||| name == "var"@
}

/// Parts of a table that hold rows.
pub open spec fn is_row_group(name: Seq<char>) -> bool {
    name == "thead"@ || name == "tbody"@ || name == "tfoot"@
}

/// The cells of a table.
pub open spec fn is_cell(name: Seq<char>) -> bool {
    name == "td"@ || name == "th"@
}

/// Whether nothing but parts of a table may stand directly in an element.
pub open spec fn is_table_frame(name: Seq<char>) -> bool {
    name == "table"@ || name == "tr"@ || is_row_group(name)
}

/// Whether the end of an element also ends the paragraph or item in it that is still open.
pub open spec fn ends_loose(name: Seq<char>) -> bool {
    is_block(name) || is_list(name) || is_cell(name) || name == "li"@
}

/// The open elements without the paragraphs and items at their end, up to one that is called
/// `name`.
pub open spec fn without_loose(open: Seq<Seq<char>>, name: Seq<char>) -> Seq<Seq<char>>
    decreases open.len(),
{
    if open.len() > 0 && (open.last() == "p"@ || open.last() == "li"@) && open.last() != name {
        without_loose(open.drop_last(), name)
    } else {
        open
    }
}

/// The name of the innermost element; empty where none is open.
pub open spec fn innermost(open: Seq<Seq<char>>) -> Seq<char> {
    if open.len() == 0 {
        Seq::empty()
    } else {
        open.last()
    }
}

/// Whether an element fits into the open ones: an element of text, a link not in a link, a heading
/// not in a heading, a table not in a table, and the parts of a table in their places.
pub open spec fn fits(open: Seq<Seq<char>>, name: Seq<char>) -> bool {
    let within = innermost(open);
    if is_table_frame(within) {
        ||| is_row_group(name) && within == "table"@
        ||| name == "tr"@ && within != "tr"@
        ||| is_cell(name) && within == "tr"@
    } else {
        ||| is_block(name) || is_inline(name) || is_list(name) || name == "p"@
        ||| name == "a"@ && !open.contains("a"@)
        ||| name == "table"@ && !open.contains("table"@)
        ||| is_heading(name) && forall|i: int|
            0 <= i < open.len() ==> !is_heading(#[trigger] open[i])
    }
}

/// The elements that are open once one more is, unless they stand too deep in each other.
pub open spec fn one_more(open: Seq<Seq<char>>, name: Seq<char>) -> Option<Seq<Seq<char>>> {
    if open.len() < MAX_LEVELS {
        Some(open.push(name))
    } else {
        None
    }
}

/// The elements that are open after a tag, innermost last; `None` where the tag does not fit. An
/// item stands directly in a list and ends the item before it, and a paragraph ends the paragraph
/// that it stands directly in. Any other element is ended by its own end alone.
pub open spec fn nested(open: Seq<Seq<char>>, tag: TagView) -> Option<Seq<Seq<char>>> {
    if tag.closing {
        let base = if ends_loose(tag.name) {
            without_loose(open, tag.name)
        } else {
            open
        };
        if base.len() > 0 && base.last() == tag.name {
            Some(base.drop_last())
        } else {
            None
        }
    } else if is_void(tag.name) && !is_table_frame(innermost(open)) {
        Some(open)
    } else if tag.name == "li"@ {
        let base = without_loose(open, Seq::empty());
        if is_list(innermost(base)) {
            one_more(base, tag.name)
        } else {
            None
        }
    } else if tag.name == "p"@ && innermost(open) == "p"@ {
        Some(open)
    } else if fits(open, tag.name) {
        one_more(open, tag.name)
    } else {
        None
    }
}

/// The elements that are open after pieces that follow a `<` each, when all tags fit.
pub open spec fn open_after(list: Seq<Seq<char>>) -> Option<Seq<Seq<char>>>
    decreases list.len(),
{
    if list.len() == 0 {
        Some(Seq::empty())
    } else {
        match (open_after(list.drop_last()), tag_at(list.last())) {
            (Some(open), Some(tag)) => nested(open, tag),
            _ => None,
        }
    }
}

fn names_list(name: &str) -> (r: bool)
    ensures
        r == is_list(name@),
{
    same(name, "ul") || same(name, "ol") || same(name, "menu")
}

fn names_heading(name: &str) -> (r: bool)
    ensures
        r == is_heading(name@),
{
    same(name, "h1") || same(name, "h2") || same(name, "h3") || same(name, "h4") || same(name, "h5") || same(name, "h6")
}

fn names_void(name: &str) -> (r: bool)
    ensures
        r == is_void(name@),
{
    same(name, "br") || same(name, "hr") || same(name, "img")
}

fn names_block(name: &str) -> (r: bool)
    ensures
        r == is_block(name@),
{
    same(name, "article") || same(name, "blockquote") || same(name, "center") || same(name, "details") || same(name, "div") || same(name, "footer") || same(name, "header") || same(name, "pre") || same(name, "section") || same(name, "summary")
}

fn names_inline(name: &str) -> (r: bool)
    ensures
        r == is_inline(name@),
{
    same(name, "abbr") || same(name, "b") || same(name, "big") || same(name, "cite") || same(name, "code") || same(name, "del") || same(name, "em") || same(name, "font") || same(name, "i") || same(name, "ins") || same(name, "kbd") || same(name, "mark") || same(name, "q") || same(name, "s") || same(name, "samp") || same(name, "small") || same(name, "span") || same(name, "strike") || same(name, "strong") || same(name, "sub") || same(name, "sup") || same(name, "tt") || same(name, "u") || same(name, "var")
}

fn names_row_group(name: &str) -> (r: bool)
    ensures
        r == is_row_group(name@),
{
    same(name, "thead") || same(name, "tbody") || same(name, "tfoot")
}

fn names_cell(name: &str) -> (r: bool)
    ensures
        r == is_cell(name@),
{
    same(name, "td") || same(name, "th")
}

fn names_table_frame(name: &str) -> (r: bool)
    ensures
        r == is_table_frame(name@),
{
    same(name, "table") || same(name, "tr") || names_row_group(name)
}

fn no_heading_in(open: &Vec<String>) -> (r: bool)
    ensures
        r == (forall|i: int|
            0 <= i < views(open@).len() ==> !is_heading(#[trigger] views(open@)[i])),
{
    let mut i: usize = 0;
    while i < open.len()
        invariant
            i <= open@.len(),
            forall|j: int| 0 <= j < i ==> !is_heading(#[trigger] views(open@)[j]),
        decreases open@.len() - i,
    {
        if names_heading(open[i].as_str()) {
            assert(is_heading(views(open@)[i as int]));
            return false;
        }
        i += 1;
    }
    true
}

fn innermost_of(open: &Vec<String>) -> (r: &str)
    ensures
        r@ == innermost(views(open@)),
{
    if open.len() == 0 {
        proof {
            reveal_strlit("");
        }
        assert(""@ =~= Seq::<char>::empty());
        ""
    } else {
        assert(views(open@).last() == open@[open@.len() - 1]@);
        open[open.len() - 1].as_str()
    }
}

fn does_fit(open: &Vec<String>, name: &str) -> (r: bool)
    ensures
        r == fits(views(open@), name@),
{
    let within: &str = innermost_of(open);
    if names_table_frame(within) {
        (names_row_group(name) && same(within, "table")) || (same(name, "tr") && !same(
            within,
            "tr",
        )) || (names_cell(name) && same(within, "tr"))
    } else {
        names_block(name) || names_inline(name) || names_list(name) || same(name, "p") || (same(
            name,
            "a",
        ) && !list_contains(open, "a")) || (same(name, "table") && !list_contains(open, "table"))
            || (names_heading(name) && no_heading_in(open))
    }
}

fn drop_loose(open: &mut Vec<String>, name: &str)
    ensures
        views(final(open)@) == without_loose(views(old(open)@), name@),
{
    let ghost before = views(open@);
    while open.len() > 0 && (same(open[open.len() - 1].as_str(), "p") || same(
        open[open.len() - 1].as_str(),
        "li",
    )) && !same(open[open.len() - 1].as_str(), name)
        invariant
            without_loose(views(open@), name@) == without_loose(before, name@),
        decreases open@.len(),
    {
        let ghost now = views(open@);
        assert(now.last() == open@[open@.len() - 1]@);
        open.pop();
        assert(views(open@) =~= now.drop_last());
    }
    assert(open@.len() > 0 ==> views(open@).last() == open@[open@.len() - 1]@);
}

fn push_name(open: &mut Vec<String>, name: String) -> (ok: bool)
    ensures
        ok == one_more(views(old(open)@), name@) is Some,
        ok ==> one_more(views(old(open)@), name@) == Some(views(final(open)@)),
{
    if open.len() < MAX_LEVELS {
        open.push(name);
        true
    } else {
        false
    }
}

/// Takes a tag into account; says whether it fits.
fn nest(open: &mut Vec<String>, tag: Tag) -> (ok: bool)
    ensures
        ok == nested(views(old(open)@), tag@) is Some,
        ok ==> nested(views(old(open)@), tag@) == Some(views(final(open)@)),
{
    let name: &str = tag.name.as_str();
    if tag.closing {
        if names_block(name) || names_list(name) || names_cell(name) || same(name, "li") {
            drop_loose(open, name);
        }
        let ghost base = views(open@);
        let n: usize = open.len();
        assert(n > 0 ==> base.last() == open@[n - 1]@);
        if n > 0 && same(open[n - 1].as_str(), name) {
            open.pop();
            assert(views(open@) =~= base.drop_last());
            true
        } else {
            false
        }
    } else if names_void(name) && !names_table_frame(innermost_of(open)) {
        true
    } else if same(name, "li") {
        proof {
            reveal_strlit("");
        }
        assert(""@ =~= Seq::<char>::empty());
        drop_loose(open, "");
        names_list(innermost_of(open)) && push_name(open, tag.name)
    } else if same(name, "p") && same(innermost_of(open), "p") {
        true
    } else {
        does_fit(open, name) && push_name(open, tag.name)
    }
}

// ---------------------------------------------------------------------------------------------
// Whole texts
// ---------------------------------------------------------------------------------------------

/// Whether what follows a `<` starts an element with a name.
pub open spec fn starts(piece: Seq<char>, name: Seq<char>) -> bool {
    has_prefix(piece, name) && piece.len() > name.len() && ends_name(piece[name.len() as int])
}

/// Whether what follows a `<` may start an element that others can stand in.
pub open spec fn may_hold(piece: Seq<char>) -> bool {
    piece.len() > 0 && is_ascii_alnum(piece[0]) && !starts(piece, "br"@) && !starts(piece, "hr"@)
        && !starts(piece, "img"@)
}

/// Whether what follows a `<` starts an element whose text is marked once it is known: a link, a
/// quotation or emphasis.
pub open spec fn marks_text(piece: Seq<char>) -> bool {
    ||| starts(piece, "a"@)
    ||| starts(piece, "b"@)
    ||| starts(piece, "i"@)
    ||| starts(piece, "s"@)
    ||| starts(piece, "q"@)
    ||| starts(piece, "em"@)
    ||| starts(piece, "del"@)
    ||| starts(piece, "cite"@)
    ||| starts(piece, "strong"@)
    ||| starts(piece, "blockquote"@)
}

/// The number of pieces that may start an element that others can stand in.
pub open spec fn holders_in(list: Seq<Seq<char>>) -> nat
    decreases list.len(),
{
    if list.len() == 0 {
        0
    } else {
        holders_in(list.drop_last()) + if may_hold(list.last()) {
            1nat
        } else {
            0nat
        }
    }
}

/// The number of pieces that start a table.
pub open spec fn tables_in(list: Seq<Seq<char>>) -> nat
    decreases list.len(),
{
    if list.len() == 0 {
        0
    } else {
        tables_in(list.drop_last()) + if has_prefix(list.last(), "table"@) {
            1nat
        } else {
            0nat
        }
    }
}

/// Whether some piece starts a list item.
pub open spec fn has_item(list: Seq<Seq<char>>) -> bool {
    exists|i: int| 0 <= i < list.len() && starts(#[trigger] list[i], "li"@)
}

/// Whether some piece starts an element whose text is marked.
pub open spec fn has_mark(list: Seq<Seq<char>>) -> bool {
    exists|i: int| 0 <= i < list.len() && marks_text(#[trigger] list[i])
}

/// Whether markup, in pieces that follow a `<` each, is harmless however it nests: it has too few
/// elements to stand too deep in each other, no table that could stand in another, and no item that
/// could stand outside a list in marked text.
pub open spec fn is_harmless(list: Seq<Seq<char>>) -> bool {
    &&& holders_in(list) <= MAX_LEVELS
    &&& tables_in(list) <= 1
    &&& !has_item(list) || !has_mark(list)
}

/// Whether the markup of a text can be converted: its elements nest as they are written, or it is
/// harmless however they do.
pub open spec fn is_tame(html: Seq<char>) -> bool {
    let list = pieces(lower(html), '<').skip(1);
    open_after(list) is Some || is_harmless(list)
}

fn does_start(piece: &str, name: &str) -> (r: bool)
    ensures
        r == starts(piece@, name@),
{
    if !starts_with(piece, name) {
        return false;
    }
    let cs: Vec<char> = chars_of(piece);
    let n: usize = crate::text::char_count(name);
    cs.len() > n && is_end_of_name(cs[n])
}

fn can_hold(piece: &str) -> (r: bool)
    ensures
        r == may_hold(piece@),
{
    let cs: Vec<char> = chars_of(piece);
    cs.len() > 0 && ascii_alnum(cs[0]) && !does_start(piece, "br") && !does_start(piece, "hr")
        && !does_start(piece, "img")
}

fn does_mark_text(piece: &str) -> (r: bool)
    ensures
        r == marks_text(piece@),
{
    does_start(piece, "a") || does_start(piece, "b") || does_start(piece, "i") || does_start(
        piece,
        "s",
    ) || does_start(piece, "q") || does_start(piece, "em") || does_start(piece, "del")
        || does_start(piece, "cite") || does_start(piece, "strong") || does_start(
        piece,
        "blockquote",
    )
}

/// Whether the elements of a text nest as they are written.
fn nests(list: &Vec<String>) -> (r: bool)
    requires
        list@.len() >= 1,
    ensures
        r == open_after(views(list@).skip(1)) is Some,
{
    let ghost all = views(list@).skip(1);
    let mut open: Vec<String> = Vec::new();
    let mut i: usize = 1;
    assert(all.take(0) =~= Seq::<Seq<char>>::empty());
    while i < list.len()
        invariant
            1 <= i <= list@.len(),
            all == views(list@).skip(1),
            open_after(all.take(i - 1)) == Some(views(open@)),
        decreases list@.len() - i,
    {
        proof {
            lemma_take_step(all, i - 1);
            assert(all[i - 1] == list@[i as int]@);
        }
        let ok: bool = match read_tag(list[i].as_str()) {
            Some(tag) => nest(&mut open, tag),
            None => false,
        };
        if !ok {
            proof {
                lemma_failure_stays(|l: Seq<Seq<char>>| open_after(l), all, i as int);
            }
            return false;
        }
        i += 1;
    }
    assert(all.take(i - 1) =~= all);
    true
}

/// Whether the markup of a text is harmless however it nests.
fn harmless(list: &Vec<String>) -> (r: bool)
    requires
        list@.len() >= 1,
    ensures
        r == is_harmless(views(list@).skip(1)),
{
    let ghost all = views(list@).skip(1);
    let mut holders: usize = 0;
    let mut tables: usize = 0;
    let mut items: bool = false;
    let mut marks: bool = false;
    let mut i: usize = 1;
    assert(all.take(0) =~= Seq::<Seq<char>>::empty());
    while i < list.len()
        invariant
            1 <= i <= list@.len(),
            all == views(list@).skip(1),
            holders == holders_in(all.take(i - 1)),
            holders <= i - 1,
            tables == tables_in(all.take(i - 1)),
            tables <= i - 1,
            items == (exists|j: int| 0 <= j < i - 1 && starts(#[trigger] all[j], "li"@)),
            marks == (exists|j: int| 0 <= j < i - 1 && marks_text(#[trigger] all[j])),
        decreases list@.len() - i,
    {
        proof {
            lemma_take_step(all, i - 1);
            assert(all[i - 1] == list@[i as int]@);
        }
        let piece: &str = list[i].as_str();
        if can_hold(piece) {
            holders += 1;
        }
        if starts_with(piece, "table") {
            tables += 1;
        }
        if does_start(piece, "li") {
            items = true;
        }
        if does_mark_text(piece) {
            marks = true;
        }
        i += 1;
    }
    assert(all.take(i - 1) =~= all);
    holders <= MAX_LEVELS && tables <= 1 && (!items || !marks)
}

/// Whether the markup of a text can be converted.
pub fn can_be_converted(html: &str) -> (r: bool)
    ensures
        r == is_tame(html@),
{
    let list: Vec<String> = split(to_lower(html).as_str(), '<');
    nests(&list) || harmless(&list)
}

} // verus!
