//! What talking to a model promises.
use super::{answer_of, marked_prompt, references, SYSTEM_PROMPT};
use crate::ai::prompts::FieldsConsistencyContext;
use crate::text::{has_prefix, has_suffix};
use vstd::prelude::*;

verus! {

proof fn lemma_answer_len_is(sampled: Seq<u32>, end: u32, n: int)
    requires
        0 <= n <= sampled.len(),
        n <= 200,
        forall|i: int| 0 <= i < n ==> #[trigger] sampled[i] != end,
        n == sampled.len() || n == 200 || sampled[n] == end,
    ensures
        answer_of(sampled, end) == sampled.take(n),
    decreases sampled.len(),
{
    if sampled.len() == 0 {
        assert(answer_of(sampled, end) =~= sampled.take(n));
    } else {
        let head = sampled.drop_last();
        let m = head.len() as int;
        assert forall|i: int| 0 <= i < m implies #[trigger] head[i] == sampled[i] by {}
        if n == sampled.len() {
            assert forall|i: int| 0 <= i < m implies #[trigger] head[i] != end by {
                assert(sampled[i] != end);
            }
            lemma_answer_len_is(head, end, m);
            assert(head.take(m) =~= head);
            assert(sampled[m] == sampled.last());
            assert(head.push(sampled.last()) =~= sampled.take(n));
        } else {
            assert forall|i: int| 0 <= i < n implies #[trigger] head[i] != end by {
                assert(sampled[i] != end);
            }
            lemma_answer_len_is(head, end, n);
            assert(head.take(n) =~= sampled.take(n));
            assert(sampled[m] == sampled.last());
        }
    }
}

/// The answer is everything that is sampled before the first end token, cut off at the limit.
pub proof fn law_answer_ends_where_it_should(sampled: Seq<u32>, end: u32, n: int)
    requires
        0 <= n <= sampled.len(),
        forall|i: int| 0 <= i < n ==> #[trigger] sampled[i] != end,
        n == sampled.len() || sampled[n] == end,
    ensures
        answer_of(sampled, end) == sampled.take(if n <= 200 {
            n
        } else {
            200
        }),
{
    lemma_answer_len_is(
        sampled,
        end,
        if n <= 200 {
            n
        } else {
            200
        },
    );
}

/// The prompt opens with the system's words, holds the user's words as they are, and ends where the
/// model is to speak.
pub proof fn law_prompt_holds_the_words(user: Seq<char>)
    ensures
        ({
            let front = "<|im_start|>system\n"@ + SYSTEM_PROMPT@
                + "<|im_end|>\n<|im_start|>user\n"@;
            let back = "<|im_end|>\n<|im_start|>assistant\n"@;
            let p = marked_prompt(user);
            &&& has_prefix(p, front)
            &&& has_suffix(p, back)
            &&& p.len() == front.len() + user.len() + back.len()
            &&& p.subrange(front.len() as int, (front.len() + user.len()) as int) == user
        }),
{
    let front = "<|im_start|>system\n"@ + SYSTEM_PROMPT@ + "<|im_end|>\n<|im_start|>user\n"@;
    let back = "<|im_end|>\n<|im_start|>assistant\n"@;
    let p = marked_prompt(user);
    assert(p.take(front.len() as int) =~= front);
    assert(p.skip(p.len() - back.len()) =~= back);
    assert(p.subrange(front.len() as int, (front.len() + user.len()) as int) =~= user);
}

/// The references are those of all the fields, in order.
pub proof fn law_references_of_the_fields(ctx: FieldsConsistencyContext, i: int)
    requires
        0 <= i < ctx.fields@.len(),
    ensures
        references(ctx).len() == ctx.fields@.len(),
        references(ctx)[i] == ctx.fields@[i].reference@,
{
}

} // verus!
