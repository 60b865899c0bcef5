//! What the verification of tokens promises.
use super::{
    fetched_key, key_needed, names_expected, named_under, owner_claimed, owner_named, texts_in,
    TokenHeaderView,
};
use crate::ai::registry::laws::{law_blank_variables_do_not_count, says_something};
use crate::json::{json_of, member_of, text_member, JsonView};
use crate::text::trimmed;
use vstd::prelude::*;

verus! {

/// A token is admitted exactly when its header can be read, it is not signed with one of the three
/// algorithms that share a secret, and it names its key; otherwise it is told why not.
pub proof fn law_which_tokens_are_admitted(header: TokenHeaderView, e: Seq<char>)
    ensures
        ({
            let shared = header.alg == "HS256"@ || header.alg == "HS384"@ || header.alg
                == "HS512"@;
            let r = key_needed(Ok(header));
            &&& shared ==> r == Err::<Seq<char>, Seq<char>>(
                "symmetric token algorithm is not allowed"@,
            )
            &&& !shared && header.kid is None ==> r == Err::<Seq<char>, Seq<char>>(
                "token has no key id (kid)"@,
            )
            &&& !shared && header.kid is Some ==> r == Ok::<Seq<char>, Seq<char>>(header.kid->0)
        }),
        key_needed(Err(e)) == Err::<Seq<char>, Seq<char>>("unreadable token header: "@ + e),
{
}

/// The owner is what the claim says, without the white space around it; a claim that is missing, no
/// text or blank names nobody.
pub proof fn law_owner_of_a_token(claims: JsonView, claim: Seq<char>)
    ensures
        ({
            let said = text_member(claims, claim);
            owner_named(claims, claim) == (if says_something(said) {
                Ok::<Seq<char>, Seq<char>>(trimmed(said->0))
            } else {
                Err("token is missing a non-empty '"@ + claim + "' claim"@)
            })
        }),
{
    law_blank_variables_do_not_count(text_member(claims, claim));
}

/// Claims that cannot be read name nobody.
pub proof fn law_unreadable_claims_name_nobody(claims: Seq<char>, claim: Seq<char>)
    requires
        json_of(claims) is None,
    ensures
        owner_claimed(claims, claim) is Err,
{
    law_blank_variables_do_not_count(text_member(JsonView::Null, claim));
}

proof fn lemma_texts_in(items: Seq<Seq<char>>)
    ensures
        texts_in(items) is Some <==> forall|i: int|
            0 <= i < items.len() ==> json_of(#[trigger] items[i]) is Some && json_of(
                items[i],
            )->0 is Text,
        texts_in(items) is Some ==> texts_in(items)->0.len() == items.len() && forall|i: int|
            0 <= i < items.len() ==> json_of(#[trigger] items[i]) == Some(
                JsonView::Text(texts_in(items)->0[i]),
            ),
    decreases items.len(),
{
    if items.len() > 0 {
        let head = items.drop_last();
        let n = items.len() - 1;
        lemma_texts_in(head);
        assert forall|i: int| 0 <= i < n implies #[trigger] head[i] == items[i] by {}
        assert(items[n] == items.last());
        if texts_in(items) is Some {
            let all = texts_in(items)->0;
            assert forall|i: int| 0 <= i < items.len() implies json_of(#[trigger] items[i]) == Some(
                JsonView::Text(all[i]),
            ) by {
                if i < n {
                    assert(json_of(head[i]) == Some(JsonView::Text(texts_in(head)->0[i])));
                }
            }
        } else if forall|i: int|
            0 <= i < items.len() ==> json_of(#[trigger] items[i]) is Some && json_of(
                items[i],
            )->0 is Text {
            assert forall|i: int| 0 <= i < head.len() implies json_of(#[trigger] head[i]) is Some
                && json_of(head[i])->0 is Text by {
                assert(json_of(items[i]) is Some);
            }
            assert(json_of(items[n]) is Some);
        }
    }
}

/// Claims that name one text are held against it, and claims that name a list of texts against all
/// of them: what is expected has to be among them.
pub proof fn law_expected_names(claims: JsonView, key: Seq<char>, expected: Seq<char>)
    requires
        member_of(claims, key) is Some,
        json_of(member_of(claims, key)->0) is Some,
    ensures
        json_of(member_of(claims, key)->0)->0 matches JsonView::Text(t) ==> (names_expected(
            Some(claims),
            key,
            Some(expected),
        ) <==> t == expected),
        json_of(member_of(claims, key)->0)->0 matches JsonView::Array(items) ==> (forall|i: int|
            0 <= i < items.len() ==> json_of(#[trigger] items[i]) is Some && json_of(
                items[i],
            )->0 is Text) ==> (names_expected(Some(claims), key, Some(expected)) <==> exists|i: int|
            0 <= i < items.len() && json_of(#[trigger] items[i]) == Some(JsonView::Text(expected))),
        names_expected(Some(claims), key, None),
{
    match json_of(member_of(claims, key)->0)->0 {
        JsonView::Text(t) => {
            assert(seq![t][0] == t);
            assert(named_under(claims, key) == Some(seq![t]));
            assert(seq![t].contains(expected) ==> t == expected);
        },
        JsonView::Array(items) => {
            lemma_texts_in(items);
            if texts_in(items) is Some {
                let all = texts_in(items)->0;
                if all.contains(expected) {
                    let i = choose|i: int| 0 <= i < all.len() && all[i] == expected;
                    assert(json_of(items[i]) == Some(JsonView::Text(expected)));
                }
                if exists|i: int|
                    0 <= i < items.len() && json_of(#[trigger] items[i]) == Some(
                        JsonView::Text(expected),
                    ) {
                    let i = choose|i: int|
                        0 <= i < items.len() && json_of(#[trigger] items[i]) == Some(
                            JsonView::Text(expected),
                        );
                    assert(all[i] == expected);
                }
            }
        },
        _ => {},
    }
}

/// Whether the fetched key at `k` has an id.
pub open spec fn has_id(key: (Option<String>, String), kid: Seq<char>) -> bool {
    key.0 is Some && key.0->0@ == kid
}

/// Of fetched keys with the same id the last is used; where no key has the id there is none.
pub proof fn law_last_key_is_used(list: Seq<(Option<String>, String)>, kid: Seq<char>, k: int)
    requires
        0 <= k < list.len(),
    ensures
        has_id(list[k], kid) && (forall|j: int|
            k < j < list.len() ==> !has_id(#[trigger] list[j], kid)) ==> fetched_key(list, kid)
            == Some(list[k].1@),
        (forall|j: int| 0 <= j < list.len() ==> !has_id(#[trigger] list[j], kid)) ==> fetched_key(
            list,
            kid,
        ) is None,
    decreases list.len(),
{
    let head = list.drop_last();
    let n = list.len() - 1;
    assert(list[n] == list.last());
    assert forall|j: int| 0 <= j < n implies #[trigger] head[j] == list[j] by {}
    if k < n {
        law_last_key_is_used(head, kid, k);
        if forall|j: int| k < j < list.len() ==> !has_id(#[trigger] list[j], kid) {
            assert(!has_id(list[n], kid));
            assert forall|j: int| k < j < head.len() implies !has_id(#[trigger] head[j], kid) by {
                assert(!has_id(list[j], kid));
            }
        }
        if forall|j: int| 0 <= j < list.len() ==> !has_id(#[trigger] list[j], kid) {
            assert(!has_id(list[n], kid));
            assert forall|j: int| 0 <= j < head.len() implies !has_id(#[trigger] head[j], kid) by {
                assert(!has_id(list[j], kid));
            }
        }
    } else if forall|j: int| 0 <= j < list.len() ==> !has_id(#[trigger] list[j], kid) {
        assert(!has_id(list[n], kid));
        if n > 0 {
            law_last_key_is_used(head, kid, 0);
            assert forall|j: int| 0 <= j < head.len() implies !has_id(#[trigger] head[j], kid) by {
                assert(!has_id(list[j], kid));
            }
        }
    }
}

} // verus!
