//! What reading JSON promises.
use super::{json_of, lookup, member_of, text_member, JsonView, MemberView};
use vstd::prelude::*;

verus! {

/// The first member with a key is found, and nothing where no member has the key.
pub proof fn law_first_member_is_found(members: Seq<MemberView>, key: Seq<char>)
    ensures
        match lookup(members, key) {
            Some(raw) => exists|k: int|
                0 <= k < members.len() && (#[trigger] members[k]).key == key && members[k].raw
                    == raw && forall|j: int| 0 <= j < k ==> (#[trigger] members[j]).key != key,
            None => forall|j: int| 0 <= j < members.len() ==> (#[trigger] members[j]).key != key,
        },
    decreases members.len(),
{
    if members.len() > 0 {
        let head = members.drop_last();
        law_first_member_is_found(head, key);
        assert forall|j: int| 0 <= j < head.len() implies #[trigger] members[j] == head[j] by {}
        assert(members[members.len() - 1] == members.last());
        if lookup(head, key) is Some {
            let raw = lookup(head, key)->0;
            let k = choose|k: int|
                0 <= k < head.len() && (#[trigger] head[k]).key == key && head[k].raw == raw
                    && forall|j: int| 0 <= j < k ==> (#[trigger] head[j]).key != key;
            assert(members[k].key == key);
        }
    }
}

/// Only objects have members, and a member is read as text exactly when it is a string.
pub proof fn law_text_members(j: JsonView, key: Seq<char>, t: Seq<char>)
    ensures
        !(j is Object) ==> member_of(j, key) is None,
        j matches JsonView::Object(members) ==> member_of(j, key) == lookup(members, key),
        text_member(j, key) == Some(t) <==> member_of(j, key) is Some && json_of(
            member_of(j, key)->0,
        ) == Some(JsonView::Text(t)),
{
}

} // verus!
