//! What the catalogue promises.
use super::{derived_slug, hyphenated, product_tags, slug_of, without_product, CatalogEntity};
use crate::text::{has_prefix, is_ascii_alnum, lower, stripped, trimmed};
use vstd::prelude::*;

verus! {

/// A slug keeps the letters and digits of a name, in lower case and in their order, without a
/// leading word that says that it is a product.
pub proof fn law_slug_keeps_letters_and_digits(raw: Seq<char>)
    ensures
        derived_slug(raw).filter(|c: char| is_ascii_alnum(c)) == without_product(
            lower(trimmed(raw)),
        ).filter(|c: char| is_ascii_alnum(c)),
{
    let name = without_product(lower(trimmed(raw)));
    lemma_hyphens_aside(name);
    lemma_ends_aside(hyphenated(name));
}

proof fn lemma_ends_aside(all: Seq<char>)
    ensures
        stripped(all, "-"@).filter(|c: char| is_ascii_alnum(c)) == all.filter(
            |c: char| is_ascii_alnum(c),
        ),
{
    crate::text::laws::law_stripping(all, "-"@);
    let (i, j) = choose|i: int, j: int|
        0 <= i <= j <= all.len() && stripped(all, "-"@) == #[trigger] all.subrange(i, j) && (forall|
            k: int,
        |
            (0 <= k < i || j <= k < all.len()) ==> "-"@.contains(#[trigger] all[k]));
    assert forall|c: char| "-"@.contains(c) implies !is_ascii_alnum(c) by {
        reveal_strlit("-");
    }
    lemma_three_parts(all, i, j);
}

proof fn lemma_three_parts(all: Seq<char>, i: int, j: int)
    requires
        0 <= i <= j <= all.len(),
        forall|k: int|
            (0 <= k < i || j <= k < all.len()) ==> "-"@.contains(#[trigger] all[k]),
        forall|c: char| "-"@.contains(c) ==> !is_ascii_alnum(c),
    ensures
        all.subrange(i, j).filter(|c: char| is_ascii_alnum(c)) == all.filter(
            |c: char| is_ascii_alnum(c),
        ),
{
    let alnum = |c: char| is_ascii_alnum(c);
    let front = all.take(i);
    let mid = all.subrange(i, j);
    let back = all.skip(j);
    assert(all =~= front + mid + back);
    assert forall|k: int| 0 <= k < front.len() implies !is_ascii_alnum(#[trigger] front[k]) by {
        assert("-"@.contains(all[k]));
    }
    assert forall|k: int| 0 <= k < back.len() implies !is_ascii_alnum(#[trigger] back[k]) by {
        assert("-"@.contains(all[j + k]));
    }
    lemma_none_left(front);
    lemma_none_left(back);
    Seq::filter_distributes_over_add(front, mid, alnum);
    Seq::filter_distributes_over_add(front + mid, back, alnum);
    assert(front.filter(alnum) + mid.filter(alnum) + back.filter(alnum) =~= mid.filter(alnum));
}

proof fn lemma_none_left(s: Seq<char>)
    requires
        forall|k: int| 0 <= k < s.len() ==> !is_ascii_alnum(#[trigger] s[k]),
    ensures
        s.filter(|c: char| is_ascii_alnum(c)).len() == 0,
    decreases s.len(),
{
    reveal(Seq::filter);
    if s.len() > 0 {
        let head = s.drop_last();
        assert forall|k: int| 0 <= k < head.len() implies !is_ascii_alnum(#[trigger] head[k]) by {
            assert(!is_ascii_alnum(s[k]));
        }
        lemma_none_left(head);
        assert(!is_ascii_alnum(s[s.len() - 1]));
    }
}

proof fn lemma_hyphens_aside(s: Seq<char>)
    ensures
        hyphenated(s).filter(|c: char| is_ascii_alnum(c)) == s.filter(|c: char| is_ascii_alnum(c)),
    decreases s.len(),
{
    reveal(Seq::filter);
    if s.len() > 0 {
        let head = s.drop_last();
        lemma_hyphens_aside(head);
        let before = hyphenated(head);
        let all = hyphenated(s);
        if is_ascii_alnum(s.last()) {
            assert(all.drop_last() =~= before);
        } else if !(before.len() > 0 && before.last() == '-') {
            assert(all.drop_last() =~= before);
        }
    } else {
        assert(hyphenated(s) =~= s);
    }
}

/// Where a name has something else between two letters or digits, its slug has a hyphen there; where
/// they are neighbours, it has none.
pub proof fn law_words_are_kept_apart(s: Seq<char>, c: char, d: char)
    requires
        is_ascii_alnum(d),
    ensures
        hyphenated(s.push(d)) == hyphenated(s).push(d),
        !is_ascii_alnum(c) ==> hyphenated(s.push(c)).len() > 0 && hyphenated(s.push(c)).last()
            == '-',
{
    assert(s.push(d).drop_last() =~= s);
    assert(s.push(c).drop_last() =~= s);
}

/// A leading word that says that it is a product is dropped, once; any other name stays.
pub proof fn law_product_word_is_dropped(name: Seq<char>)
    ensures
        without_product("product-"@ + name) == name,
        without_product("product_"@ + name) == name,
        !has_prefix(name, "product-"@) && !has_prefix(name, "product_"@) ==> without_product(name)
            == name,
{
    reveal_strlit("product-");
    reveal_strlit("product_");
    let a = "product-"@ + name;
    let b = "product_"@ + name;
    assert(a.take(8) =~= "product-"@);
    assert(a.skip(8) =~= name);
    assert(b.take(8) =~= "product_"@);
    assert(b.skip(8) =~= name);
    assert("product-"@[7] != "product_"@[7]);
}

/// The slug that is set for a product counts; else one is made of its name.
pub proof fn law_slug_that_is_set_counts(raw: Seq<char>, aliases: Map<Seq<char>, Seq<char>>)
    ensures
        aliases.dom().contains(raw) ==> slug_of(raw, aliases) == aliases[raw],
        !aliases.dom().contains(raw) ==> slug_of(raw, aliases) == derived_slug(raw),
{
}

/// Whether a service gives a product tag to a repository.
pub open spec fn gives(
    e: CatalogEntity,
    repo: Seq<char>,
    aliases: Map<Seq<char>, Seq<char>>,
) -> bool {
    e.repo is Some && e.repo->0@ == repo && e.product is Some && slug_of(
        e.product->0@,
        aliases,
    ).len() > 0
}

/// The product tag of a repository is that of the last service which gives it one; a repository to
/// which none does has no tag.
pub proof fn law_last_service_counts(
    entities: Seq<CatalogEntity>,
    aliases: Map<Seq<char>, Seq<char>>,
    repo: Seq<char>,
)
    ensures
        ({
            let tags = product_tags(entities, aliases);
            &&& tags.dom().contains(repo) ==> exists|i: int|
                0 <= i < entities.len() && gives(#[trigger] entities[i], repo, aliases)
                    && tags[repo] == "product:"@ + slug_of(entities[i].product->0@, aliases)
                    && forall|j: int|
                    i < j < entities.len() ==> !gives(#[trigger] entities[j], repo, aliases)
            &&& !tags.dom().contains(repo) ==> forall|j: int|
                0 <= j < entities.len() ==> !gives(#[trigger] entities[j], repo, aliases)
        }),
    decreases entities.len(),
{
    if entities.len() > 0 {
        let head = entities.drop_last();
        law_last_service_counts(head, aliases, repo);
        assert forall|j: int| 0 <= j < head.len() implies #[trigger] entities[j] == head[j] by {}
        let last = entities.len() - 1;
        let tags = product_tags(entities, aliases);
        let before = product_tags(head, aliases);
        if gives(entities[last], repo, aliases) {
            assert(tags.dom().contains(repo));
            assert(tags[repo] == "product:"@ + slug_of(entities[last].product->0@, aliases));
        } else {
            assert(tags.dom().contains(repo) == before.dom().contains(repo));
            if before.dom().contains(repo) {
                assert(tags[repo] == before[repo]);
                let i = choose|i: int|
                    0 <= i < head.len() && gives(#[trigger] head[i], repo, aliases) && before[repo]
                        == "product:"@ + slug_of(head[i].product->0@, aliases) && forall|j: int|
                        i < j < head.len() ==> !gives(#[trigger] head[j], repo, aliases);
                assert(gives(entities[i], repo, aliases));
                assert forall|j: int| i < j < entities.len() implies !gives(
                    #[trigger] entities[j],
                    repo,
                    aliases,
                ) by {
                    if j < last {
                        assert(!gives(head[j], repo, aliases));
                    }
                }
            } else {
                assert forall|j: int| 0 <= j < entities.len() implies !gives(
                    #[trigger] entities[j],
                    repo,
                    aliases,
                ) by {
                    if j < last {
                        assert(!gives(head[j], repo, aliases));
                    }
                }
            }
        }
    }
}

} // verus!
