//! The service catalogue: which repository belongs to which product.
use crate::text::{
    ascii_alnum, chars_of, group_text, has_prefix, is_ascii_alnum, is_digit, lemma_take_step, lower,
    string_of, strip, strip_prefix, stripped, stripped_end, stripped_start, to_lower, trim, trimmed,
};
use crate::text_map::TextMap;
use vstd::prelude::*;

pub mod laws;

verus! {

broadcast use group_text;

/// One service of the catalogue.
#[derive(Debug, Clone, PartialEq, Eq)]
pub struct CatalogEntity {
    pub repo: Option<String>,
    pub product: Option<String>,
    pub team: Option<String>,
    pub domain: Option<String>,
    pub kind: Option<String>,
}

impl Default for CatalogEntity {
    fn default() -> (r: Self)
        ensures
            r == (CatalogEntity {
                repo: None,
                product: None,
                team: None,
                domain: None,
                kind: None,
            }),
    {
        CatalogEntity { repo: None, product: None, team: None, domain: None, kind: None }
    }
}

impl CatalogEntity {
    /// Whether the entry says anything worth keeping: a repository or a product.
    pub fn is_useful(&self) -> (r: bool)
        ensures
            r == (self.repo is Some || self.product is Some),
    {
        self.repo.is_some() || self.product.is_some()
    }
}

/// A text with each run of characters other than ASCII letters and digits as one hyphen.
pub open spec fn hyphenated(s: Seq<char>) -> Seq<char>
    decreases s.len(),
{
    if s.len() == 0 {
        Seq::empty()
    } else {
        let head = hyphenated(s.drop_last());
        if is_ascii_alnum(s.last()) {
            head.push(s.last())
        } else if head.len() > 0 && head.last() == '-' {
            head
        } else {
            head.push('-')
        }
    }
}

/// A product's name without the word that says that it is one.
pub open spec fn without_product(s: Seq<char>) -> Seq<char> {
    if has_prefix(s, "product-"@) {
        s.skip("product-"@.len() as int)
    } else if has_prefix(s, "product_"@) {
        s.skip("product_"@.len() as int)
    } else {
        s
    }
}

/// The slug that is made of a product's name.
pub open spec fn derived_slug(raw: Seq<char>) -> Seq<char> {
    stripped(hyphenated(without_product(lower(trimmed(raw)))), "-"@)
}

/// The slug of a product: the one that is set for it, or else one made of its name.
pub open spec fn slug_of(raw: Seq<char>, aliases: Map<Seq<char>, Seq<char>>) -> Seq<char> {
    if aliases.dom().contains(raw) {
        aliases[raw]
    } else {
        derived_slug(raw)
    }
}

fn hyphenate(s: &str) -> (r: String)
    ensures
        r@ == hyphenated(s@),
{
    let cs: Vec<char> = chars_of(s);
    let mut out: Vec<char> = Vec::new();
    let mut i: usize = 0;
    assert(out@ =~= hyphenated(s@.take(0)));
    while i < cs.len()
        invariant
            i <= cs@.len(),
            cs@ == s@,
            out@ == hyphenated(s@.take(i as int)),
        decreases cs@.len() - i,
    {
        proof {
            lemma_take_step(s@, i as int);
        }
        let n: usize = out.len();
        if ascii_alnum(cs[i]) {
            out.push(cs[i]);
        } else if n > 0 && out[n - 1] == '-' {
        } else {
            out.push('-');
        }
        i += 1;
    }
    assert(s@.take(i as int) =~= s@);
    let r: String = string_of(&out, 0, out.len());
    assert(r@ =~= out@);
    r
}

/// The slug of a product: the one that is set for it, or else one made of its name.
pub fn canonical_product_slug(raw: &str, aliases: &TextMap) -> (r: String)
    requires
        aliases.wf(),
    ensures
        r@ == slug_of(raw@, aliases@),
{
    match aliases.get(raw) {
        Some(slug) => slug,
        None => {
            let name: String = to_lower(trim(raw).as_str());
            let rest: String = match strip_prefix(name.as_str(), "product-") {
                Some(t) => t,
                None => match strip_prefix(name.as_str(), "product_") {
                    Some(t) => t,
                    None => name,
                },
            };
            strip(hyphenate(rest.as_str()).as_str(), "-")
        },
    }
}

/// The product tags of the repositories: each service with a repository and a product gives one,
/// unless the product's slug is empty; the last for a repository counts.
pub open spec fn product_tags(
    entities: Seq<CatalogEntity>,
    aliases: Map<Seq<char>, Seq<char>>,
) -> Map<Seq<char>, Seq<char>>
    decreases entities.len(),
{
    if entities.len() == 0 {
        Map::empty()
    } else {
        let head = product_tags(entities.drop_last(), aliases);
        match (entities.last().repo, entities.last().product) {
            (Some(repo), Some(product)) => if slug_of(product@, aliases).len() > 0 {
                head.insert(repo@, "product:"@ + slug_of(product@, aliases))
            } else {
                head
            },
            _ => head,
        }
    }
}

/// The product tags of the repositories, in the order of the repositories.
pub fn repo_product_map(entities: &[CatalogEntity], aliases: &TextMap) -> (r: TextMap)
    requires
        aliases.wf(),
    ensures
        r.wf(),
        r@ == product_tags(entities@, aliases@),
{
    let mut map: TextMap = TextMap::new();
    let mut i: usize = 0;
    while i < entities.len()
        invariant
            i <= entities@.len(),
            aliases.wf(),
            map.wf(),
            map@ == product_tags(entities@.take(i as int), aliases@),
        decreases entities@.len() - i,
    {
        proof {
            lemma_take_step(entities@, i as int);
        }
        match (&entities[i].repo, &entities[i].product) {
            (Some(repo), Some(product)) => {
                let slug: String = canonical_product_slug(product.as_str(), aliases);
                if !slug.as_str().is_empty() {
                    map.insert(repo.clone(), crate::text::cat2("product:", slug.as_str()));
                }
            },
            _ => {},
        }
        i += 1;
    }
    assert(entities@.take(i as int) =~= entities@);
    map
}

// ---------------------------------------------------------------------------------------------
// Laws
// ---------------------------------------------------------------------------------------------

/// A lower-case ASCII letter or a digit.
pub open spec fn is_slug_char(c: char) -> bool {
    is_digit(c) || 'a' as u32 <= c as u32 <= 'z' as u32
}

/// Whether a text is made of lower-case ASCII letters and digits and single hyphens.
pub open spec fn is_hyphenated(s: Seq<char>) -> bool {
    &&& forall|i: int| 0 <= i < s.len() ==> is_slug_char(#[trigger] s[i]) || s[i] == '-'
    &&& forall|i: int, j: int|
        0 <= i && j == i + 1 && j < s.len() ==> !(#[trigger] s[i] == '-' && #[trigger] s[j] == '-')
}

proof fn lemma_hyphenated(s: Seq<char>)
    requires
        forall|i: int|
            0 <= i < s.len() && is_ascii_alnum(#[trigger] s[i]) ==> is_slug_char(s[i]),
    ensures
        is_hyphenated(hyphenated(s)),
    decreases s.len(),
{
    if s.len() > 0 {
        let head = s.drop_last();
        assert forall|i: int| 0 <= i < head.len() && is_ascii_alnum(#[trigger] head[i]) implies
            is_slug_char(head[i]) by {
            assert(head[i] == s[i]);
        }
        assert(s.last() == s[s.len() - 1]);
        lemma_hyphenated(head);
    }
}

proof fn lemma_stripped_start_part(s: Seq<char>, set: Seq<char>)
    ensures
        stripped_start(s, set).len() <= s.len(),
        stripped_start(s, set) == s.skip(s.len() - stripped_start(s, set).len()),
        stripped_start(s, set).len() > 0 ==> !set.contains(stripped_start(s, set)[0]),
    decreases s.len(),
{
    if s.len() > 0 && set.contains(s[0]) {
        let rest = s.skip(1);
        lemma_stripped_start_part(rest, set);
        let n = stripped_start(rest, set).len();
        assert(rest.skip(rest.len() - n) =~= s.skip(s.len() - n));
    } else {
        assert(s.skip(0) =~= s);
    }
}

proof fn lemma_stripped_end_part(s: Seq<char>, set: Seq<char>)
    ensures
        stripped_end(s, set).len() <= s.len(),
        stripped_end(s, set) == s.take(stripped_end(s, set).len() as int),
        stripped_end(s, set).len() > 0 ==> !set.contains(stripped_end(s, set).last()),
    decreases s.len(),
{
    if s.len() > 0 && set.contains(s.last()) {
        let rest = s.drop_last();
        lemma_stripped_end_part(rest, set);
        let n = stripped_end(rest, set).len() as int;
        assert(rest.take(n) =~= s.take(n));
    } else {
        assert(s.take(s.len() as int) =~= s);
    }
}

/// A slug made of a name has only lower-case ASCII letters, digits and single hyphens, and no hyphen
/// at either end.
pub proof fn law_slug_shape(raw: Seq<char>)
    ensures
        is_hyphenated(derived_slug(raw)),
        derived_slug(raw).len() > 0 ==> derived_slug(raw)[0] != '-' && derived_slug(raw).last()
            != '-',
{
    let all = hyphenated(without_product(lower(trimmed(raw))));
    let from = stripped_start(all, "-"@);
    let slug = stripped_end(from, "-"@);
    let name = lower(trimmed(raw));
    let rest = without_product(name);
    assert forall|i: int| 0 <= i < rest.len() && is_ascii_alnum(#[trigger] rest[i]) implies
        is_slug_char(rest[i]) by {
        let k = name.len() - rest.len();
        assert(rest[i] == name[k + i]);
    }
    lemma_hyphenated(rest);
    lemma_stripped_start_part(all, "-"@);
    lemma_stripped_end_part(from, "-"@);
    reveal_strlit("-");
    assert("-"@[0] == '-');
    assert("-"@.contains('-'));
    let k = all.len() - from.len();
    assert forall|i: int| 0 <= i < slug.len() implies slug[i] == all[k + i] by {
        assert(slug[i] == from[i]);
    }
    assert forall|i: int| 0 <= i < slug.len() implies is_slug_char(#[trigger] slug[i]) || slug[i]
        == '-' by {
        assert(slug[i] == all[k + i]);
    }
    assert forall|i: int, j: int| 0 <= i && j == i + 1 && j < slug.len() implies !(
    #[trigger] slug[i] == '-' && #[trigger] slug[j] == '-') by {
        assert(slug[i] == all[k + i]);
        assert(slug[j] == all[k + j]);
    }
    if slug.len() > 0 {
        assert(slug[0] == from[0]);
        assert(slug.last() == slug[slug.len() - 1]);
    }
}

} // verus!
