//! What reading the answers of Azure DevOps and writing patches promise.
use super::{
    artifact_of, chosen, distinct_names, fields_patch, first_parent, linked_pr, linked_prs_of,
    link_position, name_at, name_end, names_from, normalised_item, normalised_pipeline,
    normalised_pr, normalised_run, organization_address, parent_of, project_address, repos_of,
    run_status, short_name, tags_of, trimmed_texts, update_patch, wanted, with_hyperlinks,
    AdoBuild, AdoDefinition, AdoPullRequest, AdoRelation, AdoWorkItem, PatchOpView, GIT_MARK,
    NAME_STOPS,
};
use crate::editable_field::FieldChange;
use crate::number::{decimal, law_numbers_read_back, lemma_decimal_reads_back, signed_decimal};
use crate::pipeline::{Pipeline, RunStatus};
use crate::providers::richtext::{html_of, plain_text};
use crate::providers::url::encoded_segment;
use crate::pull_request::PrStatus;
use crate::text::{
    after_last, any_same, has_prefix, has_suffix, is_digit, lemma_after_last_keeps_tail,
    lemma_next_at_is_occurrence, lemma_replaced_keeps_tail, lower, next_at, occurs, occurs_at,
    opt_view, pieces, replaced, replaced_from, same_ignoring_case, stripped_end, trimmed, views,
};
use crate::time::Timestamp;
use crate::work_item::WorkItemUpdate;
use vstd::prelude::*;

verus! {

// ---------------------------------------------------------------------------------------------
// Work items
// ---------------------------------------------------------------------------------------------

/// What an item is called, what it is, who has it and when it was closed are what the answer says:
/// an item that the answer does not close is open.
pub proof fn law_item_says_what_the_answer_says(
    raw: AdoWorkItem,
    team: Seq<char>,
    organization: Seq<char>,
    project: Seq<char>,
)
    ensures
        ({
            let item = normalised_item(raw, team, organization, project);
            let f = raw.fields;
            &&& item.id == raw.id
            &&& item.provider == "azure-devops"@
            &&& item.team == team
            &&& f.title is Some ==> item.title == f.title->0@
            &&& f.title is None ==> item.title.len() == 0
            &&& f.work_item_type is Some ==> item.work_item_type == f.work_item_type->0@
            &&& f.work_item_type is None ==> item.work_item_type.len() == 0
            &&& f.state is Some ==> item.state == f.state->0@
            &&& f.state is None ==> item.state.len() == 0
            &&& item.closed_at == f.closed_date
            &&& item.closed_at is None <==> f.closed_date is None
            &&& f.assigned_to is Some ==> item.assigned_to == Some(f.assigned_to->0@)
            &&& f.assigned_to is None ==> item.assigned_to is None
            &&& f.iteration_path is Some ==> item.iteration_path == Some(f.iteration_path->0@)
            &&& f.iteration_path is None ==> item.iteration_path is None
            &&& f.story_points is Some ==> item.story_points == Some(f.story_points->0@)
            &&& f.story_points is None ==> item.story_points is None
            &&& item.linked_prs.len() == 0
            &&& item.tag_suggestions.len() == 0
        }),
{
}

/// An item was created and last changed when the answer says; where it gives only one of the two
/// times, that is both, and where it gives neither, both are the start of 1970.
pub proof fn law_item_times(
    raw: AdoWorkItem,
    team: Seq<char>,
    organization: Seq<char>,
    project: Seq<char>,
)
    ensures
        ({
            let item = normalised_item(raw, team, organization, project);
            let f = raw.fields;
            &&& f.created_date is Some ==> item.created_at == f.created_date->0
            &&& f.changed_date is Some ==> item.changed_at == f.changed_date->0
            &&& f.created_date is None && f.changed_date is Some ==> item.created_at
                == f.changed_date->0
            &&& f.changed_date is None && f.created_date is Some ==> item.changed_at
                == f.created_date->0
            &&& f.changed_date is None && f.created_date is None ==> item.created_at
                == item.changed_at && item.created_at.total() == 0
        }),
{
}

/// The description is the plain text of the described body or, where nothing is left of that, of the
/// steps to reproduce; an item without either has none.
pub proof fn law_item_description(
    raw: AdoWorkItem,
    team: Seq<char>,
    organization: Seq<char>,
    project: Seq<char>,
)
    ensures
        ({
            let text = normalised_item(raw, team, organization, project).description;
            let f = raw.fields;
            let described = f.description is Some && plain_text(f.description->0@).len() > 0;
            let reproduced = f.repro_steps is Some && plain_text(f.repro_steps->0@).len() > 0;
            &&& described ==> text == Some(plain_text(f.description->0@))
            &&& !described && reproduced ==> text == Some(plain_text(f.repro_steps->0@))
            &&& !described && !reproduced ==> text is None
        }),
{
}

/// The address is the one that the answer links, else the item's page in the project.
pub proof fn law_item_address(
    raw: AdoWorkItem,
    team: Seq<char>,
    organization: Seq<char>,
    project: Seq<char>,
)
    ensures
        ({
            let url = normalised_item(raw, team, organization, project).url;
            &&& raw.html_url is Some ==> url == raw.html_url->0@
            &&& raw.html_url is None ==> url == organization + "/"@ + encoded_segment(project)
                + "/_workitems/edit/"@ + signed_decimal(raw.id as int)
        }),
{
}

/// The tags are the texts between the semicolons, without the white space around them and without
/// the blank ones, in their order.
pub proof fn law_item_tags(
    raw: AdoWorkItem,
    team: Seq<char>,
    organization: Seq<char>,
    project: Seq<char>,
)
    ensures
        ({
            let tags = normalised_item(raw, team, organization, project).tags;
            &&& raw.fields.tags is None ==> tags.len() == 0
            &&& raw.fields.tags is Some ==> tags == pieces(raw.fields.tags->0@, ';').map_values(
                |t: Seq<char>| trimmed(t),
            ).filter(|t: Seq<char>| t.len() > 0)
        }),
{
    if raw.fields.tags is Some {
        lemma_trimmed_texts(pieces(raw.fields.tags->0@, ';'));
    }
}

proof fn lemma_trimmed_texts(list: Seq<Seq<char>>)
    ensures
        trimmed_texts(list) == list.map_values(|t: Seq<char>| trimmed(t)).filter(
            |t: Seq<char>| t.len() > 0,
        ),
    decreases list.len(),
{
    reveal(Seq::filter);
    let cut = list.map_values(|t: Seq<char>| trimmed(t));
    if list.len() > 0 {
        lemma_trimmed_texts(list.drop_last());
        assert(cut.drop_last() =~= list.drop_last().map_values(|t: Seq<char>| trimmed(t)));
        assert(cut.last() == trimmed(list.last()));
    } else {
        assert(trimmed_texts(list) =~= cut);
    }
}

/// The pull requests of an item are those that its relations link, one for each linking relation and
/// in their order.
pub proof fn law_item_pull_requests(
    raw: AdoWorkItem,
    team: Seq<char>,
    organization: Seq<char>,
    project: Seq<char>,
)
    ensures
        normalised_item(raw, team, organization, project).linked_pr_ids == raw.relations@.filter(
            |r: AdoRelation| linked_pr(r) is Some,
        ).map_values(|r: AdoRelation| linked_pr(r)->0),
{
    lemma_linked_prs(raw.relations@);
}

proof fn lemma_linked_prs(relations: Seq<AdoRelation>)
    ensures
        linked_prs_of(relations) == relations.filter(
            |r: AdoRelation| linked_pr(r) is Some,
        ).map_values(|r: AdoRelation| linked_pr(r)->0),
    decreases relations.len(),
{
    reveal(Seq::filter);
    let links = |r: AdoRelation| linked_pr(r) is Some;
    let id = |r: AdoRelation| linked_pr(r)->0;
    if relations.len() > 0 {
        let head = relations.drop_last();
        lemma_linked_prs(head);
        if linked_pr(relations.last()) is Some {
            assert(head.filter(links).push(relations.last()).map_values(id) =~= head.filter(
                links,
            ).map_values(id).push(linked_pr(relations.last())->0));
        }
    } else {
        assert(relations.filter(links).map_values(id) =~= Seq::empty());
    }
}

/// A relation links a pull request only as an artifact link whose address speaks of pull requests.
pub proof fn law_only_artifact_links_link(rel: AdoRelation)
    requires
        linked_pr(rel) is Some,
    ensures
        lower(rel.rel@) == lower("ArtifactLink"@),
        occurs(rel.url@, "PullRequestId"@),
{
}

/// The parent of an item is the one that the first relation with a parent names.
pub proof fn law_item_parent(
    raw: AdoWorkItem,
    team: Seq<char>,
    organization: Seq<char>,
    project: Seq<char>,
)
    ensures
        match normalised_item(raw, team, organization, project).parent_id {
            Some(id) => exists|i: int|
                0 <= i < raw.relations@.len() && parent_of(#[trigger] raw.relations@[i]) == Some(id)
                    && forall|j: int|
                    0 <= j < i ==> parent_of(#[trigger] raw.relations@[j]) is None,
            None => forall|j: int|
                0 <= j < raw.relations@.len() ==> parent_of(#[trigger] raw.relations@[j]) is None,
        },
{
    lemma_first_parent(raw.relations@);
}

proof fn lemma_first_parent(relations: Seq<AdoRelation>)
    ensures
        match first_parent(relations) {
            Some(id) => exists|i: int|
                0 <= i < relations.len() && parent_of(#[trigger] relations[i]) == Some(id)
                    && forall|j: int| 0 <= j < i ==> parent_of(#[trigger] relations[j]) is None,
            None => forall|j: int|
                0 <= j < relations.len() ==> parent_of(#[trigger] relations[j]) is None,
        },
    decreases relations.len(),
{
    if relations.len() > 0 {
        let head = relations.drop_last();
        lemma_first_parent(head);
        assert forall|j: int| 0 <= j < head.len() implies #[trigger] relations[j] == head[j] by {}
        if first_parent(head) is Some {
            let id = first_parent(head)->0;
            let i = choose|i: int|
                0 <= i < head.len() && parent_of(#[trigger] head[i]) == Some(id) && forall|j: int|
                    0 <= j < i ==> parent_of(#[trigger] head[j]) is None;
            assert(parent_of(relations[i]) == Some(id));
            assert forall|j: int| 0 <= j < i implies parent_of(#[trigger] relations[j]) is None by {
                assert(parent_of(head[j]) is None);
            }
        } else {
            assert forall|j: int| 0 <= j < head.len() implies parent_of(
                #[trigger] relations[j],
            ) is None by {
                assert(parent_of(head[j]) is None);
            }
            if parent_of(relations.last()) is Some {
                assert(relations[relations.len() - 1] == relations.last());
            }
        }
    }
}

proof fn lemma_next_within(s: Seq<char>, n: Seq<char>, from: int, k: int)
    requires
        0 <= from <= k,
        occurs_at(s, n, k),
    ensures
        next_at(s, n, from) is Some,
        from <= next_at(s, n, from)->0 <= k,
    decreases k - from,
{
    if !occurs_at(s, n, from) {
        lemma_next_within(s, n, from + 1, k);
    }
}

proof fn lemma_last_mark_is_written(s: Seq<char>, from: int, k: int)
    requires
        0 <= from <= k,
        occurs_at(s, "%2f"@, k),
        forall|j: int| k < j ==> !#[trigger] occurs_at(s, "%2f"@, j),
    ensures
        has_suffix(replaced_from(s, "%2f"@, "%2F"@, from), "%2F"@ + s.skip(k + 3)),
    decreases s.len() - from,
{
    let n = "%2f"@;
    let by = "%2F"@;
    reveal_strlit("%2f");
    reveal_strlit("%2F");
    lemma_next_at_is_occurrence(s, n, from);
    let r = replaced_from(s, n, by, from);
    let tail = by + s.skip(k + 3);
    lemma_next_within(s, n, from, k);
    let i = next_at(s, n, from)->0;
    let rest = replaced_from(s, n, by, i + 3);
    assert(r == s.subrange(from, i) + by + rest);
    if i == k {
        lemma_next_at_is_occurrence(s, n, k + 3);
        assert(rest == s.skip(k + 3));
        assert(r.skip(r.len() - tail.len()) =~= tail);
    } else {
        assert(s.subrange(k, k + 3)[0] == '%');
        assert(s.subrange(i, i + 3)[1] == '2');
        assert(s.subrange(i, i + 3)[2] == 'f');
        assert(k >= i + 3) by {
            if k == i + 1 {
                assert(s[i + 1] == '%');
            } else if k == i + 2 {
                assert(s[i + 2] == '%');
            }
        }
        lemma_last_mark_is_written(s, i + 3, k);
        assert(r.skip(r.len() - tail.len()) =~= rest.skip(rest.len() - tail.len()));
    }
}

proof fn lemma_marked_in_lower_case(front: Seq<char>, number: Seq<char>)
    requires
        forall|i: int| 0 <= i < number.len() ==> #[trigger] number[i] != '%' && number[i] != '/',
    ensures
        ({
            let url = front + "%2f"@ + number;
            after_last(after_last(replaced(url, "%2f"@, "%2F"@), "/"@), "%2F"@) == number
        }),
{
    let url = front + "%2f"@ + number;
    let tail = "%2F"@ + number;
    let k = front.len() as int;
    reveal_strlit("%2f");
    reveal_strlit("%2F");
    reveal_strlit("/");
    assert(url.subrange(k, k + 3) =~= "%2f"@);
    assert(occurs_at(url, "%2f"@, k));
    assert forall|j: int| k < j implies !#[trigger] occurs_at(url, "%2f"@, j) by {
        if occurs_at(url, "%2f"@, j) {
            assert(url.subrange(j, j + 3)[0] == '%');
            if j >= k + 3 {
                assert(url[j] == number[j - k - 3]);
            }
        }
    }
    lemma_last_mark_is_written(url, 0, k);
    assert(url.skip(k + 3) =~= number);
    let fixed = replaced(url, "%2f"@, "%2F"@);
    let m = fixed.len() - tail.len();
    assert(fixed.skip(m) == tail);
    assert forall|j: int| #[trigger] occurs_at(fixed, "/"@, j) implies j + 1 <= m by {
        assert(fixed.subrange(j, j + 1)[0] == '/');
        if j >= m {
            assert(fixed[j] == tail[j - m]);
            if j - m >= 3 {
                assert(tail[j - m] == number[j - m - 3]);
            }
        }
    }
    lemma_after_last_keeps_tail(fixed, "/"@, m);
    super::lemma_number_follows(after_last(fixed, "/"@), number);
}

proof fn lemma_after_a_slash(front: Seq<char>, id: i64)
    ensures
        ({
            let url = front + "/"@ + signed_decimal(id as int);
            after_last(after_last(replaced(url, "%2f"@, "%2F"@), "/"@), "%2F"@) == signed_decimal(
                id as int,
            )
        }),
{
    let number = signed_decimal(id as int);
    let tail = "/"@ + number;
    let url = front + "/"@ + number;
    let k = front.len() as int;
    reveal_strlit("%2f");
    reveal_strlit("%2F");
    reveal_strlit("/");
    super::lemma_number_chars(id);
    lemma_digits_only(id);
    assert(url.skip(k) =~= tail);
    assert forall|j: int| #[trigger] occurs_at(url, "%2f"@, j) implies j + 3 <= k by {
        assert(url.subrange(j, j + 3)[0] == '%');
        assert(url.subrange(j, j + 3)[2] == 'f');
        if j + 3 > k {
            assert(url[j + 2] == tail[j + 2 - k]);
            if j + 2 > k {
                assert(tail[j + 2 - k] == number[j + 1 - k]);
            }
        }
    }
    lemma_replaced_keeps_tail(url, "%2f"@, "%2F"@, 0, k);
    let fixed = replaced(url, "%2f"@, "%2F"@);
    let m = fixed.len() - tail.len();
    assert(fixed.skip(m) == tail);
    assert(fixed.subrange(m, m + 1) =~= "/"@) by {
        assert(fixed[m] == tail[0]);
    }
    assert(occurs_at(fixed, "/"@, m));
    assert forall|j: int| m < j implies !#[trigger] occurs_at(fixed, "/"@, j) by {
        if occurs_at(fixed, "/"@, j) {
            assert(fixed.subrange(j, j + 1)[0] == '/');
            assert(fixed[j] == tail[j - m]);
            assert(tail[j - m] == number[j - m - 1]);
        }
    }
    crate::text::lemma_after_last_found(fixed, "/"@, m);
    assert(fixed.skip(m + 1) =~= number) by {
        assert forall|i: int| 0 <= i < number.len() implies fixed[m + 1 + i] == number[i] by {
            assert(fixed[m + 1 + i] == tail[1 + i]);
        }
    }
    assert(!occurs(number, "%2F"@)) by {
        if occurs(number, "%2F"@) {
            let j = choose|j: int| occurs_at(number, "%2F"@, j);
            assert(number.subrange(j, j + 3)[0] == '%');
            assert(number[j] == '%');
        }
    }
    crate::text::laws::law_after_the_last(number, "%2F"@, 0);
}

proof fn lemma_digits_only(id: i64)
    ensures
        forall|i: int|
            0 <= i < signed_decimal(id as int).len() ==> #[trigger] signed_decimal(id as int)[i]
                != 'f',
{
    let s = signed_decimal(id as int);
    let size = (if id < 0 {
        -id
    } else {
        id as int
    }) as nat;
    lemma_decimal_reads_back(size);
    let digits = decimal(size);
    assert forall|i: int| 0 <= i < s.len() implies #[trigger] s[i] != 'f' by {
        if id < 0 {
            if i > 0 {
                assert(s[i] == digits[i - 1]);
                assert(is_digit(digits[i - 1]));
            }
        } else {
            assert(is_digit(digits[i]));
        }
    }
}

/// An artifact link, whatever the case of its kind, whose address speaks of pull requests links the
/// one whose number stands after the last slash, be that slash encoded in either case or not at all.
pub proof fn law_linked_pull_request_is_the_number_at_the_end(
    rel: AdoRelation,
    front: Seq<char>,
    slash: Seq<char>,
    id: i64,
)
    requires
        lower(rel.rel@) == lower("ArtifactLink"@),
        occurs(rel.url@, "PullRequestId"@),
        slash == "/"@ || slash == "%2f"@ || slash == "%2F"@,
        rel.url@ == front + slash + signed_decimal(id as int),
    ensures
        linked_pr(rel) == Some(id),
{
    let number = signed_decimal(id as int);
    super::lemma_number_chars(id);
    law_numbers_read_back(id);
    if slash == "/"@ {
        lemma_after_a_slash(front, id);
    } else if slash == "%2f"@ {
        lemma_marked_in_lower_case(front, number);
    } else {
        assert(front + slash + number =~= front + ("%2F"@ + number));
        super::lemma_last_part_stays(front, number);
        let segment = after_last(replaced(rel.url@, "%2f"@, "%2F"@), "/"@);
        assert("%2F"@.len() == 3) by {
            reveal_strlit("%2F");
        }
        super::lemma_number_follows(segment, number);
    }
}

/// A relation names a parent only as the reverse of a hierarchy, and then the item whose number
/// stands after the last slash of its address.
pub proof fn law_parent_is_the_number_at_the_end(rel: AdoRelation, front: Seq<char>, id: i64)
    ensures
        parent_of(rel) is Some ==> lower(rel.rel@) == lower("System.LinkTypes.Hierarchy-Reverse"@),
        lower(rel.rel@) == lower("System.LinkTypes.Hierarchy-Reverse"@) && rel.url@ == front + "/"@
            + signed_decimal(id as int) ==> parent_of(rel) == Some(id),
{
    if lower(rel.rel@) == lower("System.LinkTypes.Hierarchy-Reverse"@) && rel.url@ == front + "/"@
        + signed_decimal(id as int) {
        let number = signed_decimal(id as int);
        let url = rel.url@;
        reveal_strlit("/");
        super::lemma_number_chars(id);
        assert(number.len() > 0);
        assert(url.last() == number.last());
        assert(!"/"@.contains(url.last())) by {
            assert(number[number.len() - 1] != '/');
        }
        assert(stripped_end(url, "/"@) == url);
        let at = front.len() as int;
        assert(url.subrange(at, at + 1) =~= "/"@);
        assert(occurs_at(url, "/"@, at));
        assert forall|j: int| at < j implies !#[trigger] occurs_at(url, "/"@, j) by {
            if occurs_at(url, "/"@, j) {
                assert(url.subrange(j, j + 1)[0] == '/');
                assert(url[j] == number[j - at - 1]);
            }
        }
        crate::text::lemma_after_last_found(url, "/"@, at);
        assert(url.skip(at + 1) =~= number);
        law_numbers_read_back(id);
    }
}

// ---------------------------------------------------------------------------------------------
// Repositories
// ---------------------------------------------------------------------------------------------

/// The text that is searched for repositories holds the description and the steps to reproduce, and
/// after a blank each the address of every hyperlink; other relations add nothing.
pub proof fn law_text_searched_for_repositories(
    bodies: Seq<char>,
    before: Seq<AdoRelation>,
    rel: AdoRelation,
    after: Seq<AdoRelation>,
)
    ensures
        with_hyperlinks(bodies, Seq::empty()) == bodies,
        lower(rel.rel@) == lower("Hyperlink"@) ==> has_prefix(
            with_hyperlinks(bodies, before + seq![rel] + after),
            with_hyperlinks(bodies, before) + seq![' '] + rel.url@,
        ),
        lower(rel.rel@) != lower("Hyperlink"@) ==> with_hyperlinks(
            bodies,
            before + seq![rel] + after,
        ) == with_hyperlinks(bodies, before + after),
    decreases after.len(),
{
    let list = before + seq![rel] + after;
    if after.len() == 0 {
        assert(list.drop_last() =~= before);
        assert(list.last() == rel);
        assert(before + after =~= before);
        let long = with_hyperlinks(bodies, list);
        let short = with_hyperlinks(bodies, before) + seq![' '] + rel.url@;
        if lower(rel.rel@) == lower("Hyperlink"@) {
            assert(long =~= short);
            assert(long.take(short.len() as int) =~= short);
        }
    } else {
        let less = after.drop_last();
        law_text_searched_for_repositories(bodies, before, rel, less);
        assert(list.drop_last() =~= before + seq![rel] + less);
        assert((before + after).drop_last() =~= before + less);
        let long = with_hyperlinks(bodies, list);
        let mid = with_hyperlinks(bodies, list.drop_last());
        let short = with_hyperlinks(bodies, before) + seq![' '] + rel.url@;
        assert(mid.len() <= long.len() && long.take(mid.len() as int) =~= mid);
        if lower(rel.rel@) == lower("Hyperlink"@) {
            assert(long.take(short.len() as int) =~= mid.take(short.len() as int));
        }
    }
}

/// The repositories of an item are those that its bodies and hyperlinks link.
pub proof fn law_item_repositories(
    raw: AdoWorkItem,
    team: Seq<char>,
    organization: Seq<char>,
    project: Seq<char>,
)
    ensures
        ({
            let f = raw.fields;
            let described = if f.description is Some {
                f.description->0@
            } else {
                Seq::empty()
            };
            let steps = if f.repro_steps is Some {
                f.repro_steps->0@
            } else {
                Seq::empty()
            };
            normalised_item(raw, team, organization, project).linked_repos == repos_of(
                with_hyperlinks(described + " "@ + steps, raw.relations@),
            )
        }),
{
}

/// The name in a link: what stands between two places, blanks written out, without white space
/// around it.
pub open spec fn link_name(s: Seq<char>, from: int, to: int) -> Seq<char> {
    trimmed(replaced(s.subrange(from, to), "%20"@, " "@))
}

/// Whether a name in a link ends at a place: no stop before it, and a stop or the end there.
pub open spec fn name_ends(s: Seq<char>, from: int, to: int) -> bool {
    &&& from <= to <= s.len()
    &&& forall|k: int| from <= k < to ==> !"/?&#)\"'< \n\r\t"@.contains(#[trigger] s[k])
    &&& to < s.len() ==> "/?&#)\"'< \n\r\t"@.contains(s[to])
}

proof fn lemma_name_ends(s: Seq<char>, from: int)
    requires
        0 <= from <= s.len(),
    ensures
        name_ends(s, from, name_end(s, from, NAME_STOPS@)),
    decreases s.len() - from,
{
    if from < s.len() && !NAME_STOPS@.contains(s[from]) {
        lemma_name_ends(s, from + 1);
        let to = name_end(s, from, NAME_STOPS@);
        assert forall|k: int| from <= k < to implies !"/?&#)\"'< \n\r\t"@.contains(
            #[trigger] s[k],
        ) by {
            if k > from {
                assert(name_ends(s, from + 1, to));
            }
        }
    }
}

proof fn lemma_next_first(h: Seq<char>, n: Seq<char>, from: int, i: int)
    requires
        0 <= from <= i,
        occurs_at(h, n, i),
    ensures
        next_at(h, n, from) matches Some(k) && from <= k <= i && occurs_at(h, n, k),
    decreases i - from,
{
    if from < i && !occurs_at(h, n, from) {
        lemma_next_first(h, n, from + 1, i);
    }
}

proof fn lemma_names_hold(s: Seq<char>, from: int, i: int)
    requires
        0 <= from <= i,
        occurs_at(s, GIT_MARK@, i),
        forall|j: int| i - 6 < j < i ==> !#[trigger] occurs_at(s, GIT_MARK@, j),
    ensures
        names_from(s, from).contains(name_at(s, i + 6)),
    decreases s.len() - from,
{
    reveal_strlit("/_git/");
    assert(GIT_MARK@.len() == 6);
    lemma_next_first(s, GIT_MARK@, from, i);
    let k = next_at(s, GIT_MARK@, from)->0;
    let all = names_from(s, from);
    let rest = names_from(s, k + 6);
    assert(all == seq![name_at(s, k + 6)] + rest);
    if k == i {
        assert(all[0] == name_at(s, i + 6));
    } else {
        lemma_names_hold(s, k + 6, i);
        let m = choose|m: int| 0 <= m < rest.len() && rest[m] == name_at(s, i + 6);
        assert(all[m + 1] == rest[m]);
    }
}

proof fn lemma_names_only(s: Seq<char>, from: int, m: int)
    requires
        0 <= from <= s.len(),
        0 <= m < names_from(s, from).len(),
    ensures
        exists|i: int|
            #[trigger] occurs_at(s, GIT_MARK@, i) && names_from(s, from)[m] == name_at(s, i + 6),
    decreases s.len() - from,
{
    reveal_strlit("/_git/");
    assert(GIT_MARK@.len() == 6);
    crate::text::lemma_next_at_is_occurrence(s, GIT_MARK@, from);
    let k = next_at(s, GIT_MARK@, from)->0;
    let all = names_from(s, from);
    let rest = names_from(s, k + 6);
    assert(all == seq![name_at(s, k + 6)] + rest);
    if m > 0 {
        lemma_names_only(s, k + 6, m - 1);
        assert(all[m] == rest[m - 1]);
        let i = choose|i: int|
            #[trigger] occurs_at(s, GIT_MARK@, i) && rest[m - 1] == name_at(s, i + 6);
        assert(occurs_at(s, GIT_MARK@, i));
    } else {
        assert(occurs_at(s, GIT_MARK@, k));
    }
}

proof fn lemma_distinct_names(list: Seq<Seq<char>>)
    ensures
        forall|m: int|
            0 <= m < list.len() && (#[trigger] list[m]).len() > 0 ==> any_same(
                distinct_names(list),
                list[m],
            ),
        forall|m: int|
            0 <= m < distinct_names(list).len() ==> (#[trigger] distinct_names(list)[m]).len() > 0
                && list.contains(distinct_names(list)[m]),
        forall|m: int, k: int|
            0 <= m < k < distinct_names(list).len() ==> !same_ignoring_case(
                #[trigger] distinct_names(list)[m],
                #[trigger] distinct_names(list)[k],
            ),
    decreases list.len(),
{
    if list.len() > 0 {
        let head = list.drop_last();
        lemma_distinct_names(head);
        let before = distinct_names(head);
        let all = distinct_names(list);
        assert forall|m: int| 0 <= m < before.len() implies #[trigger] all[m] == before[m] by {}
        assert forall|m: int| 0 <= m < list.len() && (#[trigger] list[m]).len() > 0 implies any_same(
            all,
            list[m],
        ) by {
            if m < head.len() {
                assert(head[m] == list[m]);
                let k = choose|k: int|
                    0 <= k < before.len() && same_ignoring_case(#[trigger] before[k], list[m]);
                assert(same_ignoring_case(all[k], list[m]));
            } else if any_same(before, list[m]) {
                let k = choose|k: int|
                    0 <= k < before.len() && same_ignoring_case(#[trigger] before[k], list[m]);
                assert(same_ignoring_case(all[k], list[m]));
            } else {
                assert(same_ignoring_case(all[all.len() - 1], list[m]));
            }
        }
        assert forall|m: int| 0 <= m < all.len() implies (#[trigger] all[m]).len() > 0
            && list.contains(all[m]) by {
            if m < before.len() {
                assert(before[m].len() > 0);
                let k = choose|k: int| 0 <= k < head.len() && head[k] == before[m];
                assert(list[k] == all[m]);
            } else {
                assert(list[list.len() - 1] == all[m]);
            }
        }
        assert forall|m: int, k: int| 0 <= m < k < all.len() implies !same_ignoring_case(
            #[trigger] all[m],
            #[trigger] all[k],
        ) by {
            assert(all[m] == before[m]);
            if k < before.len() {
                assert(all[k] == before[k]);
            }
        }
    }
}

/// Every repository link in a text is found, unless it starts inside another: the name after the
/// mark is among the repositories, but for case.
pub proof fn law_linked_repositories_are_found(s: Seq<char>, i: int, to: int)
    requires
        occurs_at(s, "/_git/"@, i),
        forall|j: int| i - 6 < j < i ==> !#[trigger] occurs_at(s, "/_git/"@, j),
        name_ends(s, i + 6, to),
        link_name(s, i + 6, to).len() > 0,
    ensures
        exists|m: int|
            0 <= m < repos_of(s).len() && lower(#[trigger] repos_of(s)[m]) == lower(
                link_name(s, i + 6, to),
            ),
{
    reveal_strlit("/_git/");
    lemma_name_ends(s, i + 6);
    let end = name_end(s, i + 6, NAME_STOPS@);
    if end < to {
        assert(!"/?&#)\"'< \n\r\t"@.contains(s[end]));
    }
    if to < end {
        assert(!"/?&#)\"'< \n\r\t"@.contains(s[to]));
    }
    lemma_names_hold(s, 0, i);
    let names = names_from(s, 0);
    let m = choose|m: int| 0 <= m < names.len() && names[m] == name_at(s, i + 6);
    lemma_distinct_names(names);
    assert(names[m].len() > 0);
    assert(any_same(repos_of(s), names[m]));
    let k = choose|k: int|
        0 <= k < repos_of(s).len() && same_ignoring_case(#[trigger] repos_of(s)[k], names[m]);
    assert(lower(repos_of(s)[k]) == lower(link_name(s, i + 6, to)));
}

/// Every repository of a text is the name in a link of the text, and none comes twice.
pub proof fn law_repositories_are_linked(s: Seq<char>, m: int)
    requires
        0 <= m < repos_of(s).len(),
    ensures
        repos_of(s)[m].len() > 0,
        exists|i: int, to: int|
            #[trigger] occurs_at(s, "/_git/"@, i) && #[trigger] name_ends(s, i + 6, to)
                && repos_of(s)[m] == link_name(s, i + 6, to),
        forall|k: int|
            0 <= k < repos_of(s).len() && k != m ==> lower(#[trigger] repos_of(s)[k]) != lower(
                repos_of(s)[m],
            ),
{
    let names = names_from(s, 0);
    lemma_distinct_names(names);
    assert(names.contains(distinct_names(names)[m]));
    let n = choose|n: int| 0 <= n < names.len() && names[n] == repos_of(s)[m];
    lemma_names_only(s, 0, n);
    let i = choose|i: int|
        #[trigger] occurs_at(s, GIT_MARK@, i) && names[n] == name_at(s, i + 6);
    reveal_strlit("/_git/");
    lemma_name_ends(s, i + 6);
    let to = name_end(s, i + 6, NAME_STOPS@);
    assert(occurs_at(s, "/_git/"@, i) && name_ends(s, i + 6, to));
    assert forall|k: int| 0 <= k < repos_of(s).len() && k != m implies lower(
        #[trigger] repos_of(s)[k],
    ) != lower(repos_of(s)[m]) by {
        if k < m {
            assert(!same_ignoring_case(distinct_names(names)[k], distinct_names(names)[m]));
        } else {
            assert(!same_ignoring_case(distinct_names(names)[m], distinct_names(names)[k]));
        }
    }
}

// ---------------------------------------------------------------------------------------------
// Pipelines and runs
// ---------------------------------------------------------------------------------------------

/// The status of a run: what a completed build came to, whatever the case of the answer; running
/// where the build is under way; unknown in every other case.
pub proof fn law_run_status(status: Option<Seq<char>>, result: Option<Seq<char>>)
    ensures
        ({
            let completed = status is Some && lower(status->0) == "completed"@;
            let res = if result is Some {
                lower(result->0)
            } else {
                ""@
            };
            let under_way = status is Some && (lower(status->0) == "inprogress"@ || lower(status->0)
                == "notstarted"@ || lower(status->0) == "postponed"@ || lower(status->0)
                == "cancelling"@);
            let r = run_status(status, result);
            &&& r == RunStatus::Succeeded <==> completed && (res == "succeeded"@ || res
                == "partiallysucceeded"@)
            &&& r == RunStatus::Failed <==> completed && res == "failed"@
            &&& r == RunStatus::Canceled <==> completed && (res == "canceled"@ || res
                == "cancelled"@)
            &&& r == RunStatus::Running <==> under_way
        }),
{
    reveal_strlit("");
    reveal_strlit("completed");
    reveal_strlit("succeeded");
    reveal_strlit("partiallysucceeded");
    reveal_strlit("failed");
    reveal_strlit("canceled");
    reveal_strlit("cancelled");
    reveal_strlit("inprogress");
    reveal_strlit("notstarted");
    reveal_strlit("postponed");
    reveal_strlit("cancelling");
    assert("completed"@.len() == 9 && "completed"@[0] == 'c');
    assert("postponed"@.len() == 9 && "postponed"@[0] == 'p');
    assert("inprogress"@.len() == 10);
    assert("notstarted"@.len() == 10);
    assert("cancelling"@.len() == 10);
    assert("succeeded"@.len() == 9 && "succeeded"@[0] == 's');
    assert("cancelled"@.len() == 9 && "cancelled"@[0] == 'c');
    assert("partiallysucceeded"@.len() == 18);
    assert("failed"@.len() == 6);
    assert("canceled"@.len() == 8);
}

/// A pipeline is what the answer says; what is told of its latest run is told of its latest
/// completed build, and the root folder is no folder.
pub proof fn law_pipeline_says_what_the_answer_says(
    raw: AdoDefinition,
    team: Seq<char>,
    organization: Seq<char>,
    project: Seq<char>,
)
    ensures
        ({
            let p = normalised_pipeline(raw, team, organization, project);
            let build = raw.latest_completed_build;
            &&& p.id == raw.id
            &&& p.provider == "azure-devops"@
            &&& p.team == team
            &&& p.name == raw.name@
            &&& raw.path is None || raw.path->0@ == "\\"@ || raw.path->0@.len() == 0
                ==> p.folder is None
            &&& raw.path is Some && raw.path->0@ != "\\"@ && raw.path->0@.len() > 0 ==> p.folder
                == Some(raw.path->0@)
            &&& raw.web_url is Some ==> p.url == raw.web_url->0@
            &&& raw.web_url is None ==> p.url == organization + "/"@ + encoded_segment(project)
                + "/_build?definitionId="@ + signed_decimal(raw.id as int)
            &&& build is None ==> p.last_run_status is None && p.last_run_at is None
                && p.last_run_url is None
            &&& build is Some ==> p.last_run_status == Some(
                run_status(opt_view(build->0.status), opt_view(build->0.result)),
            ) && p.last_run_at == build->0.finish_time && p.last_run_url == opt_view(
                build->0.web_url,
            )
        }),
{
}

/// A run is what the answer says.
pub proof fn law_run_says_what_the_answer_says(raw: AdoBuild, team: Seq<char>)
    ensures
        ({
            let r = normalised_run(raw, team);
            &&& r.id == raw.id
            &&& raw.definition_id is Some ==> r.pipeline_id == raw.definition_id->0
            &&& raw.definition_id is None ==> r.pipeline_id == 0
            &&& r.provider == "azure-devops"@
            &&& r.team == team
            &&& r.status == run_status(opt_view(raw.status), opt_view(raw.result))
            &&& r.started_at == raw.start_time
            &&& r.finished_at == raw.finish_time
            &&& raw.source_branch is Some ==> r.source_branch == Some(raw.source_branch->0@)
            &&& raw.source_branch is None ==> r.source_branch is None
            &&& raw.web_url is Some ==> r.url == raw.web_url->0@
            &&& raw.web_url is None ==> r.url.len() == 0
        }),
{
}

/// A team that names no pipelines looks at all; one that does at those named, in their order.
pub proof fn law_wanted_pipelines(ids: Seq<i64>, all: Seq<Pipeline>)
    ensures
        ids.len() == 0 ==> wanted(ids, all) == all,
        ids.len() > 0 ==> wanted(ids, all) == all.filter(|p: Pipeline| ids.contains(p.id)),
{
    lemma_chosen(ids, all);
}

proof fn lemma_chosen(ids: Seq<i64>, all: Seq<Pipeline>)
    ensures
        chosen(ids, all) == all.filter(|p: Pipeline| ids.contains(p.id)),
    decreases all.len(),
{
    reveal(Seq::filter);
    if all.len() > 0 {
        lemma_chosen(ids, all.drop_last());
    } else {
        assert(chosen(ids, all) =~= all);
    }
}

// ---------------------------------------------------------------------------------------------
// Pull requests
// ---------------------------------------------------------------------------------------------

/// A pull request is what the answer says. One that does not say that it is a draft is none, and one
/// with no status, or a strange one, stands at none that is known.
pub proof fn law_pull_request_says_what_the_answer_says(
    raw: AdoPullRequest,
    team: Seq<char>,
    organization: Seq<char>,
    project: Seq<char>,
)
    ensures
        ({
            let pr = normalised_pr(raw, team, organization, project);
            let says = |text: Seq<char>| raw.status is Some && raw.status->0@ == text;
            &&& pr.id == raw.pull_request_id
            &&& pr.provider == "azure-devops"@
            &&& pr.team == team
            &&& raw.title is Some ==> pr.title == raw.title->0@
            &&& raw.title is None ==> pr.title.len() == 0
            &&& pr.status == PrStatus::Active <==> says("active"@)
            &&& pr.status == PrStatus::Completed <==> says("completed"@)
            &&& pr.status == PrStatus::Abandoned <==> says("abandoned"@)
            &&& pr.is_draft <==> raw.is_draft == Some(true)
            &&& raw.created_by is Some ==> pr.author == Some(raw.created_by->0@)
            &&& raw.created_by is None ==> pr.author is None
            &&& pr.created_at == raw.creation_date
            &&& pr.reviewer_count == raw.reviewers as i64
            &&& pr.flags.len() == 0
            &&& pr.linked_work_items.len() == 0
        }),
{
    reveal_strlit("active");
    reveal_strlit("completed");
    reveal_strlit("abandoned");
    assert("active"@.len() == 6);
    assert("completed"@.len() == 9 && "completed"@[0] == 'c');
    assert("abandoned"@.len() == 9 && "abandoned"@[0] == 'a');
}

/// A pull request lives in the repository that the answer names and in the project of that
/// repository, else in the configured one; its address says so.
pub proof fn law_pull_request_address(
    raw: AdoPullRequest,
    team: Seq<char>,
    organization: Seq<char>,
    project: Seq<char>,
)
    ensures
        ({
            let pr = normalised_pr(raw, team, organization, project);
            let place = if raw.repository is Some && raw.repository->0.project_name is Some {
                raw.repository->0.project_name->0@
            } else {
                project
            };
            let start = organization + "/"@ + encoded_segment(place);
            &&& raw.repository is None || raw.repository->0.name is None ==> pr.repository is None
                && pr.url == start
            &&& raw.repository is Some && raw.repository->0.name is Some ==> pr.repository == Some(
                raw.repository->0.name->0@,
            ) && pr.url == start + "/_git/"@ + encoded_segment(raw.repository->0.name->0@)
                + "/pullrequest/"@ + signed_decimal(raw.pull_request_id as int)
        }),
{
}

/// The branches of a pull request are those of the answer without the prefix of branch references.
pub proof fn law_pull_request_branches(
    raw: AdoPullRequest,
    team: Seq<char>,
    organization: Seq<char>,
    project: Seq<char>,
    name: Seq<char>,
)
    requires
        !has_prefix(name, "refs/heads/"@),
    ensures
        ({
            let pr = normalised_pr(raw, team, organization, project);
            &&& raw.source_ref is None ==> pr.source_branch is None
            &&& raw.target_ref is None ==> pr.target_branch is None
            &&& raw.source_ref is Some && (raw.source_ref->0@ == name || raw.source_ref->0@
                == "refs/heads/"@ + name) ==> pr.source_branch == Some(name)
            &&& raw.target_ref is Some && (raw.target_ref->0@ == name || raw.target_ref->0@
                == "refs/heads/"@ + name) ==> pr.target_branch == Some(name)
        }),
{
    reveal_strlit("refs/heads/");
    crate::text::laws::law_prefixes_taken_off(name, "refs/heads/"@);
}

/// A pull request has an artifact address exactly when the answer gives its repository with its id
/// and its project; the address names all three.
pub proof fn law_artifact_address(pr: AdoPullRequest, pr_id: i64)
    ensures
        artifact_of(pr, pr_id) is Ok <==> pr.repository is Some && pr.repository->0.id is Some
            && pr.repository->0.project_id is Some,
        artifact_of(pr, pr_id) matches Ok(uri) ==> uri == "vstfs:///Git/PullRequestId/"@
            + pr.repository->0.project_id->0@ + "%2F"@ + pr.repository->0.id->0@ + "%2F"@
            + signed_decimal(pr_id as int),
        artifact_of(pr, pr_id) matches Err(m) ==> m == "PR "@ + signed_decimal(pr_id as int) + (
        if pr.repository is None {
            " has no repository"@
        } else if pr.repository->0.id is None {
            " repository has no id"@
        } else {
            " has no project id"@
        }),
{
}

// ---------------------------------------------------------------------------------------------
// Patches and addresses
// ---------------------------------------------------------------------------------------------

/// An edit writes exactly what it changes: the state where it has one, then the tags, as a whole,
/// where it has them.
pub proof fn law_edit_writes_what_it_changes(u: WorkItemUpdate)
    ensures
        update_patch(u).len() == (if u.state is Some {
            1int
        } else {
            0
        }) + (if u.tags is Some {
            1int
        } else {
            0
        }),
        u.state is Some ==> update_patch(u)[0] == (PatchOpView::Add {
            path: "/fields/System.State"@,
            value: u.state->0@,
        }),
        u.tags is Some ==> update_patch(u).last() == (PatchOpView::Replace {
            path: "/fields/System.Tags"@,
            value: crate::text::joined(views(u.tags->0@), "; "@),
        }),
{
}

/// The link that is taken away is the first one to the pull request.
pub proof fn law_first_link_is_taken_away(relations: Seq<AdoRelation>, pr_id: i64)
    ensures
        match link_position(relations, pr_id) {
            Some(at) => at < relations.len() && linked_pr(relations[at as int]) == Some(pr_id)
                && forall|j: int|
                0 <= j < at ==> linked_pr(#[trigger] relations[j]) != Some(pr_id),
            None => forall|j: int|
                0 <= j < relations.len() ==> linked_pr(#[trigger] relations[j]) != Some(pr_id),
        },
    decreases relations.len(),
{
    if relations.len() > 0 {
        let head = relations.drop_last();
        law_first_link_is_taken_away(head, pr_id);
        assert forall|j: int| 0 <= j < head.len() implies #[trigger] relations[j] == head[j] by {}
        match link_position(head, pr_id) {
            Some(at) => {
                assert(relations[at as int] == head[at as int]);
                assert forall|j: int| 0 <= j < at implies linked_pr(#[trigger] relations[j])
                    != Some(pr_id) by {
                    assert(linked_pr(head[j]) != Some(pr_id));
                }
            },
            None => {
                assert forall|j: int| 0 <= j < head.len() implies linked_pr(
                    #[trigger] relations[j],
                ) != Some(pr_id) by {
                    assert(linked_pr(head[j]) != Some(pr_id));
                }
            },
        }
    }
}

/// Every changed field is written once, in its order, under its own name: as HTML where it holds
/// HTML, else as it is.
pub proof fn law_changed_fields_are_written(html: Seq<Seq<char>>, changes: Seq<FieldChange>, i: int)
    requires
        0 <= i < changes.len(),
    ensures
        fields_patch(html, changes).len() == changes.len(),
        html.contains(changes[i].reference@) ==> fields_patch(html, changes)[i]
            == (PatchOpView::Add {
            path: "/fields/"@ + changes[i].reference@,
            value: html_of(changes[i].value@),
        }),
        !html.contains(changes[i].reference@) ==> fields_patch(html, changes)[i]
            == (PatchOpView::Add {
            path: "/fields/"@ + changes[i].reference@,
            value: changes[i].value@,
        }),
{
}

/// An address names the organisation, the project where there is one, the endpoint and the version;
/// a further query follows after an ampersand.
pub proof fn law_addresses(
    organization: Seq<char>,
    project: Seq<char>,
    tail: Seq<char>,
    query: Seq<char>,
)
    ensures
        organization_address(organization, tail) == organization + "/_apis/"@ + tail
            + "?api-version=7.1"@,
        project_address(organization, project, tail, Seq::empty()) == organization_address(
            organization + "/"@ + encoded_segment(project),
            tail,
        ),
        query.len() > 0 ==> project_address(organization, project, tail, query) == project_address(
            organization,
            project,
            tail,
            Seq::empty(),
        ) + "&"@ + query,
{
    reveal_strlit("");
    reveal_strlit("&");
    reveal_strlit("7.1");
    reveal_strlit("?api-version=");
    reveal_strlit("?api-version=7.1");
    assert("?api-version="@ + "7.1"@ =~= "?api-version=7.1"@);
    assert(organization_address(organization, tail) =~= organization + "/_apis/"@ + tail
        + "?api-version=7.1"@);
    assert(project_address(organization, project, tail, Seq::empty()) =~= organization_address(
        organization + "/"@ + encoded_segment(project),
        tail,
    ));
    if query.len() > 0 {
        assert(project_address(organization, project, tail, query) =~= project_address(
            organization,
            project,
            tail,
            Seq::empty(),
        ) + "&"@ + query);
    }
}

} // verus!
