//! What a language model is asked.
use super::instructions::{GWT_ACCEPTANCE_CRITERIA_INSTRUCTION, TITLE_DRAFT_INSTRUCTION};
use crate::rules::{carries, carries_tag};
use crate::text::{
    cat2, cat3, chars_of, clone_all, clone_opt, contains, ends_with, group_text, has_prefix,
    has_suffix, is_blank, join, joined, lemma_take_step, lower, lowercase, occurs, opt_view, same,
    starts_with, string_of, take_chars, first_chars, to_lower, to_lowercase, to_uppercase, trim,
    trimmed, uppercase, views,
};
use crate::work_item::WorkItem;
use vstd::prelude::*;

pub mod laws;

verus! {

broadcast use group_text;

/// How much of a description or field goes into a prompt.
pub const MAX_DESC_CHARS: usize = 1000;

/// How many keywords are shown with a tag.
pub const MAX_HINTS_PER_TAG: usize = 6;

// ---------------------------------------------------------------------------------------------
// Tagging
// ---------------------------------------------------------------------------------------------

/// What a model is told about an item to be tagged.
#[derive(Debug, Clone)]
pub struct TaggerInput {
    pub id: i64,
    pub title: String,
    pub work_item_type: String,
    pub current_tags: Vec<String>,
    pub description: Option<String>,
}

impl TaggerInput {
    /// What a model is told about a work item.
    pub fn from(w: &WorkItem) -> (r: Self)
        ensures
            r.id == w.id,
            r.title == w.title,
            r.work_item_type == w.work_item_type,
            r.current_tags@ == w.tags@,
            r.description == w.description,
    {
        TaggerInput {
            id: w.id,
            title: w.title.clone(),
            work_item_type: w.work_item_type.clone(),
            current_tags: clone_all(&w.tags),
            description: clone_opt(&w.description),
        }
    }
}

/// The keywords that say what a tag means; the tag in lower case.
#[derive(Debug, Clone)]
pub struct TagHint {
    pub tag: String,
    pub keywords: Vec<String>,
}

#[verifier::ext_equal]
pub struct TagHintView {
    pub tag: Seq<char>,
    pub keywords: Seq<Seq<char>>,
}

impl View for TagHint {
    type V = TagHintView;

    open spec fn view(&self) -> TagHintView {
        TagHintView { tag: self.tag@, keywords: views(self.keywords@) }
    }
}

/// The hints for tags. A tag may have several entries: the last counts.
#[derive(Debug, Clone)]
pub struct TagHints {
    entries: Vec<TagHint>,
}

impl View for TagHints {
    type V = Seq<TagHintView>;

    closed spec fn view(&self) -> Seq<TagHintView> {
        views(self.entries@)
    }
}

/// The keywords for a tag in a list of hints: those of its last entry.
pub open spec fn keywords_of(hints: Seq<TagHintView>, tag: Seq<char>) -> Option<Seq<Seq<char>>>
    decreases hints.len(),
{
    if hints.len() == 0 {
        None
    } else if hints.last().tag == tag {
        Some(hints.last().keywords)
    } else {
        keywords_of(hints.drop_last(), tag)
    }
}

impl TagHints {
    /// No hints.
    pub fn new() -> (r: Self)
        ensures
            r@.len() == 0,
    {
        TagHints { entries: Vec::new() }
    }

    /// Sets the keywords for a tag. They count in place of any that it had.
    pub fn insert(&mut self, tag: String, keywords: Vec<String>)
        ensures
            final(self)@ == old(self)@.push(
                TagHintView { tag: tag@, keywords: views(keywords@) },
            ),
            keywords_of(final(self)@, tag@) == Some(views(keywords@)),
            forall|t: Seq<char>|
                t != tag@ ==> #[trigger] keywords_of(final(self)@, t) == keywords_of(old(self)@, t),
    {
        let ghost start = self@;
        let ghost added = TagHintView { tag: tag@, keywords: views(keywords@) };
        self.entries.push(TagHint { tag, keywords });
        assert(self@ =~= start.push(added));
        assert(self@.drop_last() =~= start);
    }

    /// The keywords for a tag.
    pub fn get(&self, tag: &str) -> (r: Option<&Vec<String>>)
        ensures
            match r {
                Some(k) => keywords_of(self@, tag@) == Some(views(k@)),
                None => keywords_of(self@, tag@) is None,
            },
    {
        let ghost all = self@;
        let mut n: usize = self.entries.len();
        while n > 0
            invariant
                n <= self.entries@.len(),
                all == views(self.entries@),
                keywords_of(all, tag@) == keywords_of(all.take(n as int), tag@),
            decreases n,
        {
            proof {
                lemma_take_step(all, n - 1);
            }
            if same(self.entries[n - 1].tag.as_str(), tag) {
                return Some(&self.entries[n - 1].keywords);
            }
            n -= 1;
        }
        None
    }
}

impl Default for TagHints {
    fn default() -> (r: Self)
        ensures
            r@.len() == 0,
    {
        TagHints::new()
    }
}

/// Whether a tag matches a pattern, ASCII case aside: a trailing star stands for any ending.
pub open spec fn pattern_accepts(pattern: Seq<char>, tag: Seq<char>) -> bool {
    let p = lower(trimmed(pattern));
    let t = lower(trimmed(tag));
    if p.len() > 0 && p.last() == '*' {
        has_prefix(t, p.drop_last())
    } else {
        p == t
    }
}

fn pattern_matches(pattern: &str, tag: &str) -> (r: bool)
    ensures
        r == pattern_accepts(pattern@, tag@),
{
    let p: String = to_lower(trim(pattern).as_str());
    let t: String = to_lower(trim(tag).as_str());
    let cs: Vec<char> = chars_of(p.as_str());
    let n: usize = cs.len();
    if n > 0 && cs[n - 1] == '*' {
        let head: String = string_of(&cs, 0, n - 1);
        assert(head@ =~= p@.drop_last());
        starts_with(t.as_str(), head.as_str())
    } else {
        same(p.as_str(), t.as_str())
    }
}

/// The keywords of a list, trimmed, that are not blank.
pub open spec fn real_keywords(list: Seq<Seq<char>>) -> Seq<Seq<char>>
    decreases list.len(),
{
    if list.len() == 0 {
        Seq::empty()
    } else {
        let k = trimmed(list.last());
        let head = real_keywords(list.drop_last());
        if k.len() > 0 {
            head.push(k)
        } else {
            head
        }
    }
}

/// The first `n` elements of a list, or all of them where it has fewer.
pub open spec fn at_most<T>(list: Seq<T>, n: nat) -> Seq<T> {
    if list.len() <= n {
        list
    } else {
        list.take(n as int)
    }
}

/// A tag as the model is shown it: with the first of its keywords, where it has any.
pub open spec fn annotated(tag: Seq<char>, hints: Seq<TagHintView>) -> Seq<char> {
    match keywords_of(hints, lowercase(tag)) {
        Some(list) => {
            let shown = joined(at_most(real_keywords(list), 6), ", "@);
            if shown.len() == 0 {
                tag
            } else {
                tag + " (e.g. "@ + shown + ")"@
            }
        },
        None => tag,
    }
}

fn annotate(tag: &str, hints: &TagHints) -> (r: String)
    ensures
        r@ == annotated(tag@, hints@),
{
    match hints.get(to_lowercase(tag).as_str()) {
        Some(list) => {
            let ghost all = views(list@);
            let mut kept: Vec<String> = Vec::new();
            let mut i: usize = 0;
            while i < list.len()
                invariant
                    i <= list@.len(),
                    all == views(list@),
                    views(kept@) == real_keywords(all.take(i as int)),
                decreases list@.len() - i,
            {
                proof {
                    lemma_take_step(all, i as int);
                }
                let k: String = trim(list[i].as_str());
                if !k.as_str().is_empty() {
                    kept.push(k);
                }
                i += 1;
            }
            let ghost kept_all = views(kept@);
            if kept.len() > MAX_HINTS_PER_TAG {
                kept.truncate(MAX_HINTS_PER_TAG);
                assert(views(kept@) =~= kept_all.take(6));
            }
            assert(views(kept@) == at_most(kept_all, 6));
            let shown: String = join(&kept, ", ");
            if shown.as_str().is_empty() {
                tag.to_owned()
            } else {
                let mut r: String = cat3(tag, " (e.g. ", shown.as_str());
                r.append(")");
                r
            }
        },
        None => tag.to_owned(),
    }
}

/// The allowed tags that match a pattern, in order.
pub open spec fn options_of(pattern: Seq<char>, allowed: Seq<Seq<char>>) -> Seq<Seq<char>>
    decreases allowed.len(),
{
    if allowed.len() == 0 {
        Seq::empty()
    } else if pattern_accepts(pattern, allowed.last()) {
        options_of(pattern, allowed.drop_last()).push(allowed.last())
    } else {
        options_of(pattern, allowed.drop_last())
    }
}

/// Tags as the model is shown them.
pub open spec fn annotated_all(tags: Seq<Seq<char>>, hints: Seq<TagHintView>) -> Seq<Seq<char>> {
    Seq::new(tags.len(), |i: int| annotated(tags[i], hints))
}

/// Whether some tag of the list matches the pattern.
pub open spec fn any_accepted(pattern: Seq<char>, tags: Seq<Seq<char>>) -> bool {
    exists|i: int| 0 <= i < tags.len() && pattern_accepts(pattern, #[trigger] tags[i])
}

/// Whether a required pattern asks the model for a choice: it is not blank, no tag of the item
/// matches it, and some allowed tag does.
pub open spec fn asks(
    pattern: Seq<char>,
    current: Seq<Seq<char>>,
    allowed: Seq<Seq<char>>,
) -> bool {
    let p = trimmed(pattern);
    p.len() > 0 && !any_accepted(p, current) && options_of(p, allowed).len() > 0
}

/// The name of a required category: its pattern without a trailing star.
pub open spec fn category_label(pattern: Seq<char>) -> Seq<char> {
    if pattern.len() > 0 && pattern.last() == '*' {
        pattern.drop_last()
    } else {
        pattern
    }
}

/// The line for a required category.
pub open spec fn category_line(
    pattern: Seq<char>,
    allowed: Seq<Seq<char>>,
    hints: Seq<TagHintView>,
) -> Seq<char> {
    let p = trimmed(pattern);
    "- "@ + category_label(p) + " (choose one): "@ + joined(
        annotated_all(options_of(p, allowed), hints),
        ", "@,
    )
}

/// The lines for the required categories that ask for a choice, in order.
pub open spec fn category_lines(
    required: Seq<Seq<char>>,
    current: Seq<Seq<char>>,
    allowed: Seq<Seq<char>>,
    hints: Seq<TagHintView>,
) -> Seq<Seq<char>>
    decreases required.len(),
{
    if required.len() == 0 {
        Seq::empty()
    } else {
        let head = category_lines(required.drop_last(), current, allowed, hints);
        if asks(required.last(), current, allowed) {
            head.push(category_line(required.last(), allowed, hints))
        } else {
            head
        }
    }
}

/// The tags that the required categories offer, in the order in which they do.
pub open spec fn claimed_tags(
    required: Seq<Seq<char>>,
    current: Seq<Seq<char>>,
    allowed: Seq<Seq<char>>,
) -> Seq<Seq<char>>
    decreases required.len(),
{
    if required.len() == 0 {
        Seq::empty()
    } else {
        let head = claimed_tags(required.drop_last(), current, allowed);
        if asks(required.last(), current, allowed) {
            head + options_of(trimmed(required.last()), allowed)
        } else {
            head
        }
    }
}

/// The lines for the allowed tags that no required category offers.
pub open spec fn optional_lines(
    allowed: Seq<Seq<char>>,
    claimed: Seq<Seq<char>>,
    hints: Seq<TagHintView>,
) -> Seq<Seq<char>>
    decreases allowed.len(),
{
    if allowed.len() == 0 {
        Seq::empty()
    } else {
        let head = optional_lines(allowed.drop_last(), claimed, hints);
        if carries(claimed, allowed.last()) {
            head
        } else {
            head.push("- "@ + annotated(allowed.last(), hints))
        }
    }
}

/// The team's background, under a heading; nothing where it is blank.
pub open spec fn background_block(heading: Seq<char>, background: Seq<char>) -> Seq<char> {
    if trimmed(background).len() == 0 {
        Seq::empty()
    } else {
        heading + trimmed(background) + "\n\n"@
    }
}

pub const TAG_BACKGROUND_HEADING: &'static str = "TEAM BACKGROUND (this team's systems + internal names - use it to interpret the item):\n";

pub const REQUIRED_HEADING: &'static str = "\nREQUIRED categories - pick exactly ONE value for EACH (best guess even if unsure):\n";

/// The line for an item's description; nothing where it is blank.
pub open spec fn description_line(d: Option<Seq<char>>) -> Seq<char> {
    match d {
        Some(t) => if trimmed(t).len() > 0 {
            "\n- Description: "@ + first_chars(trimmed(t), 1000)
        } else {
            Seq::empty()
        },
        None => Seq::empty(),
    }
}

/// The block for the item to be tagged.
pub open spec fn item_block(input: TaggerInput) -> Seq<char> {
    "Work item:\n- Title: "@ + input.title@ + "\n- Type: "@ + input.work_item_type@
        + description_line(opt_view(input.description)) + "\n- Current tags: "@ + (
    if input.current_tags@.len() == 0 {
        "(none)"@
    } else {
        joined(views(input.current_tags@), ", "@)
    }) + "\n"@
}

/// The block for the required categories; nothing where there are none.
pub open spec fn required_block(lines: Seq<Seq<char>>) -> Seq<char> {
    if lines.len() == 0 {
        Seq::empty()
    } else {
        REQUIRED_HEADING@ + joined(lines, "\n"@) + "\n"@
    }
}

/// The block for the optional tags; nothing where there are none.
pub open spec fn optional_block(lines: Seq<Seq<char>>, any_required: bool) -> Seq<char> {
    if lines.len() == 0 {
        Seq::empty()
    } else {
        (if any_required {
            "\nOPTIONAL tags (only if they CLEARLY apply):\n"@
        } else {
            "\nALLOWED tags:\n"@
        }) + joined(lines, "\n"@) + "\n"@
    }
}

/// What a model is asked to tag an item.
pub open spec fn tag_prompt(
    input: TaggerInput,
    allowed: Seq<Seq<char>>,
    required: Seq<Seq<char>>,
    hints: Seq<TagHintView>,
    background: Seq<char>,
) -> Seq<char> {
    let current = views(input.current_tags@);
    let categories = category_lines(required, current, allowed, hints);
    let optional = optional_lines(allowed, claimed_tags(required, current, allowed), hints);
    background_block(TAG_BACKGROUND_HEADING@, background) + item_block(input) + required_block(
        categories,
    ) + optional_block(optional, categories.len() > 0) + "\nReturn the JSON now."@
}

fn any_matches(pattern: &str, tags: &Vec<String>) -> (r: bool)
    ensures
        r == any_accepted(pattern@, views(tags@)),
{
    let mut i: usize = 0;
    while i < tags.len()
        invariant
            i <= tags@.len(),
            forall|j: int| 0 <= j < i ==> !pattern_accepts(pattern@, #[trigger] views(tags@)[j]),
        decreases tags@.len() - i,
    {
        if pattern_matches(pattern, tags[i].as_str()) {
            assert(pattern_accepts(pattern@, views(tags@)[i as int]));
            return true;
        }
        i += 1;
    }
    false
}

fn find_options(pattern: &str, allowed: &[String]) -> (r: Vec<String>)
    ensures
        views(r@) == options_of(pattern@, views(allowed@)),
{
    let ghost all = views(allowed@);
    let mut out: Vec<String> = Vec::new();
    let mut i: usize = 0;
    while i < allowed.len()
        invariant
            i <= allowed@.len(),
            all == views(allowed@),
            views(out@) == options_of(pattern@, all.take(i as int)),
        decreases allowed@.len() - i,
    {
        proof {
            lemma_take_step(all, i as int);
        }
        if pattern_matches(pattern, allowed[i].as_str()) {
            out.push(allowed[i].clone());
        }
        i += 1;
    }
    assert(all.take(i as int) =~= all);
    out
}

fn annotate_all(tags: &Vec<String>, hints: &TagHints) -> (r: Vec<String>)
    ensures
        views(r@) == annotated_all(views(tags@), hints@),
{
    let ghost all = annotated_all(views(tags@), hints@);
    let mut out: Vec<String> = Vec::new();
    let mut i: usize = 0;
    while i < tags.len()
        invariant
            i <= tags@.len(),
            all == annotated_all(views(tags@), hints@),
            views(out@) == all.take(i as int),
        decreases tags@.len() - i,
    {
        out.push(annotate(tags[i].as_str(), hints));
        assert(views(out@) =~= all.take(i + 1));
        i += 1;
    }
    assert(all.take(i as int) =~= all);
    out
}

fn strip_star(pattern: &str) -> (r: String)
    ensures
        r@ == category_label(pattern@),
{
    let cs: Vec<char> = chars_of(pattern);
    let n: usize = cs.len();
    if n > 0 && cs[n - 1] == '*' {
        let r: String = string_of(&cs, 0, n - 1);
        assert(r@ =~= pattern@.drop_last());
        r
    } else {
        pattern.to_owned()
    }
}

/// Appends the team's background, under a heading, unless it is blank.
fn push_background(out: &mut String, heading: &str, background: &str)
    ensures
        final(out)@ == old(out)@ + background_block(heading@, background@),
{
    let ghost start = out@;
    let bg: String = trim(background);
    if !bg.as_str().is_empty() {
        out.append(heading);
        out.append(bg.as_str());
        out.append("\n\n");
    }
    assert(out@ =~= start + background_block(heading@, background@));
}

/// The lines for the required categories, and the tags that they offer.
fn list_categories(
    required: &[String],
    current: &Vec<String>,
    allowed: &[String],
    hints: &TagHints,
) -> (r: (Vec<String>, Vec<String>))
    ensures
        views(r.0@) == category_lines(
            views(required@),
            views(current@),
            views(allowed@),
            hints@,
        ),
        views(r.1@) == claimed_tags(views(required@), views(current@), views(allowed@)),
{
    let ghost all = views(required@);
    let mut lines: Vec<String> = Vec::new();
    let mut claimed: Vec<String> = Vec::new();
    let mut i: usize = 0;
    while i < required.len()
        invariant
            i <= required@.len(),
            all == views(required@),
            views(lines@) == category_lines(
                all.take(i as int),
                views(current@),
                views(allowed@),
                hints@,
            ),
            views(claimed@) == claimed_tags(
                all.take(i as int),
                views(current@),
                views(allowed@),
            ),
        decreases required@.len() - i,
    {
        proof {
            lemma_take_step(all, i as int);
        }
        let p: String = trim(required[i].as_str());
        assert(p@ == trimmed(all[i as int]));
        if !p.as_str().is_empty() && !any_matches(p.as_str(), current) {
            let options: Vec<String> = find_options(p.as_str(), allowed);
            if options.len() > 0 {
                let shown: Vec<String> = annotate_all(&options, hints);
                let label: String = strip_star(p.as_str());
                let mut line: String = cat3("- ", label.as_str(), " (choose one): ");
                line.append(join(&shown, ", ").as_str());
                lines.push(line);
                let ghost before = views(claimed@);
                crate::text::extend_all(&mut claimed, &options);
                assert(views(claimed@) =~= before + views(options@));
            }
        }
        i += 1;
    }
    assert(all.take(i as int) =~= all);
    (lines, claimed)
}

fn list_optional(allowed: &[String], claimed: &Vec<String>, hints: &TagHints) -> (r: Vec<String>)
    ensures
        views(r@) == optional_lines(views(allowed@), views(claimed@), hints@),
{
    let ghost all = views(allowed@);
    let mut out: Vec<String> = Vec::new();
    let mut i: usize = 0;
    while i < allowed.len()
        invariant
            i <= allowed@.len(),
            all == views(allowed@),
            views(out@) == optional_lines(all.take(i as int), views(claimed@), hints@),
        decreases allowed@.len() - i,
    {
        proof {
            lemma_take_step(all, i as int);
        }
        if !carries_tag(claimed, allowed[i].as_str()) {
            out.push(cat2("- ", annotate(allowed[i].as_str(), hints).as_str()));
        }
        i += 1;
    }
    assert(all.take(i as int) =~= all);
    out
}

fn push_item(out: &mut String, input: &TaggerInput)
    ensures
        final(out)@ == old(out)@ + item_block(*input),
{
    let ghost start = out@;
    out.append("Work item:\n- Title: ");
    out.append(input.title.as_str());
    out.append("\n- Type: ");
    out.append(input.work_item_type.as_str());
    let ghost before = out@;
    match &input.description {
        Some(d) => {
            let d: String = trim(d.as_str());
            if !d.as_str().is_empty() {
                out.append("\n- Description: ");
                out.append(take_chars(d.as_str(), MAX_DESC_CHARS).as_str());
            }
        },
        None => {},
    }
    assert(out@ =~= before + description_line(opt_view(input.description)));
    out.append("\n- Current tags: ");
    if input.current_tags.len() == 0 {
        out.append("(none)");
    } else {
        out.append(join(&input.current_tags, ", ").as_str());
    }
    out.append("\n");
    assert(out@ =~= start + item_block(*input));
}

/// What a model is asked to tag an item: the background, the item, the required categories that
/// still need a choice with their options, and the other allowed tags.
pub fn build_prompt(
    input: &TaggerInput,
    allowed: &[String],
    required: &[String],
    hints: &TagHints,
    background: &str,
) -> (r: String)
    ensures
        r@ == tag_prompt(*input, views(allowed@), views(required@), hints@, background@),
{
    let (categories, claimed): (Vec<String>, Vec<String>) = list_categories(
        required,
        &input.current_tags,
        allowed,
        hints,
    );
    let optional: Vec<String> = list_optional(allowed, &claimed, hints);
    let mut out: String = String::new();
    push_background(&mut out, TAG_BACKGROUND_HEADING, background);
    push_item(&mut out, input);
    let ghost head = out@;
    assert(head =~= background_block(TAG_BACKGROUND_HEADING@, background@) + item_block(*input));
    if categories.len() > 0 {
        out.append(REQUIRED_HEADING);
        out.append(join(&categories, "\n").as_str());
        out.append("\n");
    }
    assert(out@ =~= head + required_block(views(categories@)));
    let ghost middle = out@;
    if optional.len() > 0 {
        if categories.len() == 0 {
            out.append("\nALLOWED tags:\n");
        } else {
            out.append("\nOPTIONAL tags (only if they CLEARLY apply):\n");
        }
        out.append(join(&optional, "\n").as_str());
        out.append("\n");
    }
    assert(out@ =~= middle + optional_block(views(optional@), categories@.len() > 0));
    out.append("\nReturn the JSON now.");
    out
}

/// A blank background is as good as none.
pub proof fn law_blank_background(
    input: TaggerInput,
    allowed: Seq<Seq<char>>,
    required: Seq<Seq<char>>,
    hints: Seq<TagHintView>,
    background: Seq<char>,
)
    requires
        trimmed(background).len() == 0,
    ensures
        tag_prompt(input, allowed, required, hints, background) == tag_prompt(
            input,
            allowed,
            required,
            hints,
            Seq::empty(),
        ),
{
}

proof fn lemma_optional_holds(
    allowed: Seq<Seq<char>>,
    claimed: Seq<Seq<char>>,
    hints: Seq<TagHintView>,
    k: int,
)
    requires
        0 <= k < allowed.len(),
        !carries(claimed, allowed[k]),
    ensures
        optional_lines(allowed, claimed, hints).contains("- "@ + annotated(allowed[k], hints)),
    decreases allowed.len(),
{
    let all = optional_lines(allowed, claimed, hints);
    let head = optional_lines(allowed.drop_last(), claimed, hints);
    let line = "- "@ + annotated(allowed[k], hints);
    if k < allowed.len() - 1 {
        lemma_optional_holds(allowed.drop_last(), claimed, hints, k);
        let i = choose|i: int| 0 <= i < head.len() && head[i] == line;
        assert(all[i] == line);
    } else {
        assert(all[all.len() - 1] == line);
    }
}

/// Every allowed tag is offered: by a required category that asks for a choice, or on a line of its
/// own.
pub proof fn law_every_allowed_tag_is_offered(
    input: TaggerInput,
    allowed: Seq<Seq<char>>,
    required: Seq<Seq<char>>,
    hints: Seq<TagHintView>,
    k: int,
)
    requires
        0 <= k < allowed.len(),
    ensures
        ({
            let claimed = claimed_tags(required, views(input.current_tags@), allowed);
            carries(claimed, allowed[k]) || optional_lines(allowed, claimed, hints).contains(
                "- "@ + annotated(allowed[k], hints),
            )
        }),
{
    let claimed = claimed_tags(required, views(input.current_tags@), allowed);
    if !carries(claimed, allowed[k]) {
        lemma_optional_holds(allowed, claimed, hints, k);
    }
}

/// There is a line for each required category that asks for a choice, and for no other.
pub proof fn law_one_line_per_open_category(
    required: Seq<Seq<char>>,
    current: Seq<Seq<char>>,
    allowed: Seq<Seq<char>>,
    hints: Seq<TagHintView>,
)
    ensures
        category_lines(required, current, allowed, hints).len() == required.filter(
            |p: Seq<char>| asks(p, current, allowed),
        ).len(),
    decreases required.len(),
{
    let f = |p: Seq<char>| asks(p, current, allowed);
    reveal(Seq::filter);
    if required.len() > 0 {
        law_one_line_per_open_category(required.drop_last(), current, allowed, hints);
    }
}

// ---------------------------------------------------------------------------------------------
// Drafting a field
// ---------------------------------------------------------------------------------------------

/// Whether a field is written anew or improved.
#[derive(Debug, Clone, Copy, PartialEq, Eq, Structural)]
pub enum DraftMode {
    Draft,
    Improve,
}

/// What a model is told about a field to be drafted.
#[derive(Debug, Clone)]
pub struct FieldDraftContext {
    pub work_item_type: String,
    pub title: String,
    pub field_label: String,
    pub current_value: String,
    /// Labels and values of the other fields.
    pub other_fields: Vec<(String, String)>,
    pub background: String,
    pub mode: DraftMode,
    /// Whether acceptance criteria are written as Given-When-Then.
    pub acceptance_criteria_gwt: bool,
}

/// Whether a label is that of acceptance criteria.
pub open spec fn names_acceptance_criteria(label: Seq<char>) -> bool {
    let l = lower(trimmed(label));
    occurs(l, "acceptance criteria"@) || l == "acceptance"@ || l == "ac"@
}

/// Whether a label is that of acceptance criteria.
pub fn is_acceptance_criteria(label: &str) -> (r: bool)
    ensures
        r == names_acceptance_criteria(label@),
{
    let l: String = to_lower(trim(label).as_str());
    let l: &str = l.as_str();
    contains(l, "acceptance criteria") || same(l, "acceptance") || same(l, "ac")
}

/// Whether a label is that of a title.
pub open spec fn names_title(label: Seq<char>) -> bool {
    let l = lower(trimmed(label));
    l == "title"@ || l == "summary"@ || has_suffix(l, " title"@)
}

/// Whether a label is that of a title.
pub fn is_title(label: &str) -> (r: bool)
    ensures
        r == names_title(label@),
{
    let l: String = to_lower(trim(label).as_str());
    let l: &str = l.as_str();
    same(l, "title") || same(l, "summary") || ends_with(l, " title")
}

/// The lines for the other fields that are not blank, in order.
pub open spec fn sibling_lines(fields: Seq<(String, String)>) -> Seq<char>
    decreases fields.len(),
{
    if fields.len() == 0 {
        Seq::empty()
    } else {
        let (label, value) = fields.last();
        let head = sibling_lines(fields.drop_last());
        if trimmed(value@).len() == 0 {
            head
        } else {
            head + "- "@ + trimmed(label@) + ": "@ + first_chars(trimmed(value@), 1000) + "\n"@
        }
    }
}

/// The task: improve what is there, or write the field anew.
pub open spec fn draft_task(ctx: FieldDraftContext) -> Seq<char> {
    let label = trimmed(ctx.field_label@);
    if ctx.mode == DraftMode::Improve && trimmed(ctx.current_value@).len() > 0 {
        "Improve the \""@ + label
            + "\" field below - fix clarity, structure and completeness while keeping its intent. Return the improved field only.\n\nCURRENT "@
            + uppercase(label) + ":\n"@ + trimmed(ctx.current_value@)
    } else {
        "Draft the \""@ + label
            + "\" field for this work item from the context above. Return the field content only."@
    }
}

/// What a model is asked to draft a field.
pub open spec fn draft_prompt(ctx: FieldDraftContext) -> Seq<char> {
    background_block("TEAM BACKGROUND:\n"@, ctx.background@) + ("WORK ITEM\n- Type: "@ + trimmed(
        ctx.work_item_type@,
    ) + "\n- Title: "@ + trimmed(ctx.title@) + "\n"@) + sibling_lines(ctx.other_fields@) + "\n"@
        + draft_task(ctx) + (if ctx.acceptance_criteria_gwt && names_acceptance_criteria(
        ctx.field_label@,
    ) {
        "\n\n"@ + GWT_ACCEPTANCE_CRITERIA_INSTRUCTION@
    } else {
        Seq::empty()
    }) + (if names_title(ctx.field_label@) {
        "\n\n"@ + TITLE_DRAFT_INSTRUCTION@
    } else {
        Seq::empty()
    })
}

fn push_siblings(out: &mut String, fields: &Vec<(String, String)>)
    ensures
        final(out)@ == old(out)@ + sibling_lines(fields@),
{
    let ghost start = out@;
    let mut i: usize = 0;
    assert(out@ =~= start + sibling_lines(fields@.take(0)));
    while i < fields.len()
        invariant
            i <= fields@.len(),
            out@ == start + sibling_lines(fields@.take(i as int)),
        decreases fields@.len() - i,
    {
        proof {
            lemma_take_step(fields@, i as int);
        }
        let ghost before = out@;
        let value: String = trim(fields[i].1.as_str());
        if !value.as_str().is_empty() {
            out.append("- ");
            out.append(trim(fields[i].0.as_str()).as_str());
            out.append(": ");
            out.append(take_chars(value.as_str(), MAX_DESC_CHARS).as_str());
            out.append("\n");
        }
        assert(out@ =~= start + sibling_lines(fields@.take(i + 1)));
        i += 1;
    }
}

fn push_task(out: &mut String, ctx: &FieldDraftContext)
    ensures
        final(out)@ == old(out)@ + draft_task(*ctx),
{
    let ghost start = out@;
    let label: String = trim(ctx.field_label.as_str());
    let improve: bool = match ctx.mode {
        DraftMode::Improve => !is_blank(ctx.current_value.as_str()),
        DraftMode::Draft => false,
    };
    if improve {
        out.append("Improve the \"");
        out.append(label.as_str());
        out.append(
            "\" field below - fix clarity, structure and completeness while keeping its intent. Return the improved field only.\n\nCURRENT ",
        );
        out.append(to_uppercase(label.as_str()).as_str());
        out.append(":\n");
        out.append(trim(ctx.current_value.as_str()).as_str());
    } else {
        out.append("Draft the \"");
        out.append(label.as_str());
        out.append(
            "\" field for this work item from the context above. Return the field content only.",
        );
    }
    assert(out@ =~= start + draft_task(*ctx));
}

/// What a model is asked to draft a field: the background, the item with its other fields, and the
/// task, with the house style where the field has one.
pub fn build_field_draft_prompt(ctx: &FieldDraftContext) -> (r: String)
    ensures
        r@ == draft_prompt(*ctx),
{
    let mut p: String = String::new();
    push_background(&mut p, "TEAM BACKGROUND:\n", ctx.background.as_str());
    let ghost head = p@;
    assert(head =~= background_block("TEAM BACKGROUND:\n"@, ctx.background@));
    p.append("WORK ITEM\n- Type: ");
    p.append(trim(ctx.work_item_type.as_str()).as_str());
    p.append("\n- Title: ");
    p.append(trim(ctx.title.as_str()).as_str());
    p.append("\n");
    let ghost item = "WORK ITEM\n- Type: "@ + trimmed(ctx.work_item_type@) + "\n- Title: "@
        + trimmed(ctx.title@) + "\n"@;
    assert(p@ =~= head + item);
    push_siblings(&mut p, &ctx.other_fields);
    p.append("\n");
    push_task(&mut p, ctx);
    let ghost tasked = p@;
    if ctx.acceptance_criteria_gwt && is_acceptance_criteria(ctx.field_label.as_str()) {
        p.append("\n\n");
        p.append(GWT_ACCEPTANCE_CRITERIA_INSTRUCTION);
    }
    let ghost gwt = if ctx.acceptance_criteria_gwt && names_acceptance_criteria(ctx.field_label@) {
        "\n\n"@ + GWT_ACCEPTANCE_CRITERIA_INSTRUCTION@
    } else {
        Seq::empty()
    };
    assert(p@ =~= tasked + gwt);
    let ghost styled = p@;
    if is_title(ctx.field_label.as_str()) {
        p.append("\n\n");
        p.append(TITLE_DRAFT_INSTRUCTION);
    }
    let ghost title = if names_title(ctx.field_label@) {
        "\n\n"@ + TITLE_DRAFT_INSTRUCTION@
    } else {
        Seq::empty()
    };
    assert(p@ =~= styled + title);
    p
}

// ---------------------------------------------------------------------------------------------
// Judging an item
// ---------------------------------------------------------------------------------------------

/// What a model is told about an item to be judged.
#[derive(Debug, Clone)]
pub struct AuditInput {
    pub id: i64,
    pub title: String,
    pub work_item_type: String,
    pub state: String,
    pub description: Option<String>,
}

impl AuditInput {
    /// What a model is told about a work item.
    pub fn from(w: &WorkItem) -> (r: Self)
        ensures
            r.id == w.id,
            r.title == w.title,
            r.work_item_type == w.work_item_type,
            r.state == w.state,
            r.description == w.description,
    {
        AuditInput {
            id: w.id,
            title: w.title.clone(),
            work_item_type: w.work_item_type.clone(),
            state: w.state.clone(),
            description: clone_opt(&w.description),
        }
    }
}

pub const AUDIT_BACKGROUND_HEADING: &'static str = "TEAM BACKGROUND (this team's systems + internal names - so you don't mistake correct jargon for nonsense):\n";

/// The line for the description of an item to be judged, which says so where it is blank.
pub open spec fn described(d: Option<Seq<char>>) -> Seq<char> {
    match d {
        Some(t) => if trimmed(t).len() > 0 {
            "- Description: "@ + first_chars(trimmed(t), 1000) + "\n"@
        } else {
            "- Description: (empty)\n"@
        },
        None => "- Description: (empty)\n"@,
    }
}

/// What a model is asked to judge an item.
pub open spec fn audit_prompt(input: AuditInput, background: Seq<char>) -> Seq<char> {
    background_block(AUDIT_BACKGROUND_HEADING@, background) + ("Work item to audit:\n- Type: "@
        + trimmed(input.work_item_type@) + "\n- State: "@ + trimmed(input.state@) + "\n- Title: "@
        + trimmed(input.title@) + "\n"@) + described(opt_view(input.description)) + "\nReturn the JSON now."@
}

/// What a model is asked to judge an item: the background, and the item with the start of its
/// description.
pub fn build_audit_prompt(input: &AuditInput, background: &str) -> (r: String)
    ensures
        r@ == audit_prompt(*input, background@),
{
    let mut out: String = String::new();
    push_background(&mut out, AUDIT_BACKGROUND_HEADING, background);
    let ghost head = out@;
    assert(head =~= background_block(AUDIT_BACKGROUND_HEADING@, background@));
    out.append("Work item to audit:\n- Type: ");
    out.append(trim(input.work_item_type.as_str()).as_str());
    out.append("\n- State: ");
    out.append(trim(input.state.as_str()).as_str());
    out.append("\n- Title: ");
    out.append(trim(input.title.as_str()).as_str());
    out.append("\n");
    let ghost item = "Work item to audit:\n- Type: "@ + trimmed(input.work_item_type@)
        + "\n- State: "@ + trimmed(input.state@) + "\n- Title: "@ + trimmed(input.title@) + "\n"@;
    assert(out@ =~= head + item);
    let ghost middle = out@;
    let body: String = match &input.description {
        Some(d) => trim(d.as_str()),
        None => String::new(),
    };
    if body.as_str().is_empty() {
        out.append("- Description: (empty)\n");
    } else {
        out.append("- Description: ");
        out.append(take_chars(body.as_str(), MAX_DESC_CHARS).as_str());
        out.append("\n");
    }
    assert(out@ =~= middle + described(opt_view(input.description)));
    out.append("\nReturn the JSON now.");
    out
}

// ---------------------------------------------------------------------------------------------
// Making fields agree
// ---------------------------------------------------------------------------------------------

/// One field and its proposed value.
#[derive(Debug, Clone)]
pub struct DraftFieldValue {
    pub reference: String,
    pub label: String,
    pub value: String,
}

/// What a model is told about fields that are to agree.
#[derive(Debug, Clone)]
pub struct FieldsConsistencyContext {
    pub work_item_type: String,
    pub title: String,
    pub background: String,
    pub fields: Vec<DraftFieldValue>,
    /// Whether acceptance criteria are written as Given-When-Then.
    pub acceptance_criteria_gwt: bool,
}

/// The block for one field.
pub open spec fn field_block(f: DraftFieldValue) -> Seq<char> {
    let value = first_chars(trimmed(f.value@), 1000);
    "\n--- reference: "@ + trimmed(f.reference@) + " | label: "@ + trimmed(f.label@) + " ---\n"@ + (
    if value.len() == 0 {
        "(empty)"@
    } else {
        value
    }) + "\n"@
}

/// The blocks for the fields of a list, in order.
pub open spec fn field_blocks(fields: Seq<DraftFieldValue>) -> Seq<char>
    decreases fields.len(),
{
    if fields.len() == 0 {
        Seq::empty()
    } else {
        field_blocks(fields.drop_last()) + field_block(fields.last())
    }
}

/// Whether one of the fields holds acceptance criteria.
pub open spec fn any_acceptance_criteria(fields: Seq<DraftFieldValue>) -> bool
    decreases fields.len(),
{
    fields.len() > 0 && (names_acceptance_criteria(fields.last().label@)
        || any_acceptance_criteria(fields.drop_last()))
}

/// What a model is asked to make fields agree.
pub open spec fn consistency_prompt(ctx: FieldsConsistencyContext) -> Seq<char> {
    background_block("TEAM BACKGROUND:\n"@, ctx.background@) + ("WORK ITEM\n- Type: "@ + trimmed(
        ctx.work_item_type@,
    ) + "\n- Title: "@ + trimmed(ctx.title@) + "\n\nFIELDS TO HARMONISE:\n"@) + field_blocks(
        ctx.fields@,
    ) + (if ctx.acceptance_criteria_gwt && any_acceptance_criteria(ctx.fields@) {
        "\n"@ + GWT_ACCEPTANCE_CRITERIA_INSTRUCTION@
    } else {
        Seq::empty()
    }) + "\nReturn the JSON now, one entry per field above."@
}

fn push_fields(out: &mut String, fields: &Vec<DraftFieldValue>) -> (has_ac: bool)
    ensures
        final(out)@ == old(out)@ + field_blocks(fields@),
        has_ac == any_acceptance_criteria(fields@),
{
    let ghost start = out@;
    let mut has_ac: bool = false;
    let mut i: usize = 0;
    assert(out@ =~= start + field_blocks(fields@.take(0)));
    while i < fields.len()
        invariant
            i <= fields@.len(),
            out@ == start + field_blocks(fields@.take(i as int)),
            has_ac == any_acceptance_criteria(fields@.take(i as int)),
        decreases fields@.len() - i,
    {
        proof {
            lemma_take_step(fields@, i as int);
        }
        let f: &DraftFieldValue = &fields[i];
        let value: String = take_chars(trim(f.value.as_str()).as_str(), MAX_DESC_CHARS);
        let ghost before = out@;
        out.append("\n--- reference: ");
        out.append(trim(f.reference.as_str()).as_str());
        out.append(" | label: ");
        out.append(trim(f.label.as_str()).as_str());
        out.append(" ---\n");
        if value.as_str().is_empty() {
            out.append("(empty)");
        } else {
            out.append(value.as_str());
        }
        out.append("\n");
        assert(out@ =~= before + field_block(*f));
        assert(out@ =~= start + field_blocks(fields@.take(i + 1)));
        if is_acceptance_criteria(f.label.as_str()) {
            has_ac = true;
        }
        i += 1;
    }
    has_ac
}

/// What a model is asked to make fields agree: the background, the item, and every field with its
/// reference.
pub fn build_fields_consistency_prompt(ctx: &FieldsConsistencyContext) -> (r: String)
    ensures
        r@ == consistency_prompt(*ctx),
{
    let mut p: String = String::new();
    push_background(&mut p, "TEAM BACKGROUND:\n", ctx.background.as_str());
    let ghost head = p@;
    assert(head =~= background_block("TEAM BACKGROUND:\n"@, ctx.background@));
    p.append("WORK ITEM\n- Type: ");
    p.append(trim(ctx.work_item_type.as_str()).as_str());
    p.append("\n- Title: ");
    p.append(trim(ctx.title.as_str()).as_str());
    p.append("\n\nFIELDS TO HARMONISE:\n");
    let ghost item = "WORK ITEM\n- Type: "@ + trimmed(ctx.work_item_type@) + "\n- Title: "@
        + trimmed(ctx.title@) + "\n\nFIELDS TO HARMONISE:\n"@;
    assert(p@ =~= head + item);
    let has_ac: bool = push_fields(&mut p, &ctx.fields);
    let ghost listed = p@;
    if ctx.acceptance_criteria_gwt && has_ac {
        p.append("\n");
        p.append(GWT_ACCEPTANCE_CRITERIA_INSTRUCTION);
    }
    let ghost gwt = if ctx.acceptance_criteria_gwt && any_acceptance_criteria(ctx.fields@) {
        "\n"@ + GWT_ACCEPTANCE_CRITERIA_INSTRUCTION@
    } else {
        Seq::empty()
    };
    assert(p@ =~= listed + gwt);
    p.append("\nReturn the JSON now, one entry per field above.");
    p
}

} // verus!
