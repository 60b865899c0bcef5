//! The exchanges with a language model: what is sent, and what an answer comes to.
use super::instructions::{
    AUDIT_SYSTEM_PROMPT, FIELDS_CONSISTENCY_SYSTEM_PROMPT, FIELD_DRAFT_SYSTEM_PROMPT, SYSTEM_PROMPT,
};
use super::prompts::{
    audit_prompt, build_audit_prompt, build_field_draft_prompt, build_fields_consistency_prompt,
    build_prompt, consistency_prompt, draft_prompt, tag_prompt, AuditInput, FieldDraftContext,
    FieldsConsistencyContext, TagHints, TaggerInput,
};
use super::replies::{
    drop_carried, field_values, json_part, pair_views, pairs_in, parse_fields_consistency,
    parse_suggestions_up_to, record_of, reply_in, strip_code_fence, suggestions_of, unfenced,
    without_carried,
};
use crate::flag::TagSuggestion;
use crate::text::{group_text, trim, trimmed, views};
use vstd::prelude::*;

pub mod laws;

verus! {

broadcast use group_text;

/// Why a model was of no help.
#[derive(Debug, Clone, PartialEq, Eq)]
pub enum AiError {
    /// The request failed.
    Http(String),
    /// The model cannot do this.
    Unsupported(String),
}

impl AiError {
    /// The error in words.
    pub fn message(&self) -> (r: String)
        ensures
            r@ == (match *self {
                AiError::Http(e) => "AI backend request failed: "@ + e@,
                AiError::Unsupported(e) => e@,
            }),
    {
        match self {
            AiError::Http(e) => crate::text::cat2("AI backend request failed: ", e.as_str()),
            AiError::Unsupported(e) => e.clone(),
        }
    }
}

/// What is sent to a chat service, beside the model's name.
#[derive(Debug, Clone, PartialEq, Eq)]
pub struct ChatRequest {
    pub system: &'static str,
    pub user: String,
    /// The temperature, in tenths.
    pub temperature_tenths: u32,
}

/// The request for tags; none where there is nothing to choose from.
pub fn tag_request(
    item: &TaggerInput,
    allowed: &[String],
    required: &[String],
    hints: &TagHints,
    background: &str,
) -> (r: Option<ChatRequest>)
    ensures
        match r {
            Some(q) => {
                &&& allowed@.len() > 0
                &&& q.system@ == SYSTEM_PROMPT@
                &&& q.user@ == tag_prompt(
                    *item,
                    views(allowed@),
                    views(required@),
                    hints@,
                    background@,
                )
                &&& q.temperature_tenths == 0
            },
            None => allowed@.len() == 0,
        },
{
    if allowed.len() == 0 {
        return None;
    }
    Some(
        ChatRequest {
            system: SYSTEM_PROMPT,
            user: build_prompt(item, allowed, required, hints, background),
            temperature_tenths: 0,
        },
    )
}

/// What an answer to a request for tags comes to: at most `limit` allowed tags, without those that
/// the item has.
pub fn accept_tags(content: &str, item: &TaggerInput, allowed: &[String], limit: usize) -> (r: Vec<
    TagSuggestion,
>)
    ensures
        views(r@) == without_carried(
            suggestions_of(
                reply_in(record_of(json_part(content@))),
                views(allowed@),
                limit as nat,
            ),
            views(item.current_tags@),
        ),
{
    drop_carried(parse_suggestions_up_to(content, allowed, limit), &item.current_tags)
}

/// The request to draft a field.
pub fn draft_request(ctx: &FieldDraftContext) -> (r: ChatRequest)
    ensures
        r.system@ == FIELD_DRAFT_SYSTEM_PROMPT@,
        r.user@ == draft_prompt(*ctx),
        r.temperature_tenths == 3,
{
    ChatRequest {
        system: FIELD_DRAFT_SYSTEM_PROMPT,
        user: build_field_draft_prompt(ctx),
        temperature_tenths: 3,
    }
}

/// What an answer to a request to draft a field comes to.
pub fn accept_draft(content: &str) -> (r: String)
    ensures
        r@ == unfenced(trimmed(content@)),
{
    strip_code_fence(trim(content).as_str())
}

/// The request to judge an item.
pub fn audit_request(input: &AuditInput, background: &str) -> (r: ChatRequest)
    ensures
        r.system@ == AUDIT_SYSTEM_PROMPT@,
        r.user@ == audit_prompt(*input, background@),
        r.temperature_tenths == 0,
{
    ChatRequest {
        system: AUDIT_SYSTEM_PROMPT,
        user: build_audit_prompt(input, background),
        temperature_tenths: 0,
    }
}

/// The request to make fields agree.
pub fn consistency_request(ctx: &FieldsConsistencyContext) -> (r: ChatRequest)
    ensures
        r.system@ == FIELDS_CONSISTENCY_SYSTEM_PROMPT@,
        r.user@ == consistency_prompt(*ctx),
        r.temperature_tenths == 2,
{
    ChatRequest {
        system: FIELDS_CONSISTENCY_SYSTEM_PROMPT,
        user: build_fields_consistency_prompt(ctx),
        temperature_tenths: 2,
    }
}

/// The references of the fields that are to agree.
pub open spec fn references(ctx: FieldsConsistencyContext) -> Seq<Seq<char>> {
    Seq::new(ctx.fields@.len(), |i: int| ctx.fields@[i].reference@)
}

/// What an answer to a request to make fields agree comes to.
pub fn accept_fields(content: &str, ctx: &FieldsConsistencyContext) -> (r: Vec<(String, String)>)
    ensures
        pair_views(r@) == field_values(
            pairs_in(record_of(json_part(content@)), "fields"@, "reference"@, "value"@),
            references(*ctx),
        ),
{
    let mut refs: Vec<String> = Vec::new();
    let mut i: usize = 0;
    while i < ctx.fields.len()
        invariant
            i <= ctx.fields@.len(),
            views(refs@) == references(*ctx).take(i as int),
        decreases ctx.fields@.len() - i,
    {
        refs.push(ctx.fields[i].reference.clone());
        assert(views(refs@) =~= references(*ctx).take(i + 1));
        i += 1;
    }
    assert(views(refs@) =~= references(*ctx));
    parse_fields_consistency(content, refs.as_slice())
}

// ---------------------------------------------------------------------------------------------
// A model in this process
// ---------------------------------------------------------------------------------------------

/// The most tokens that a model in this process may answer with.
pub const MAX_NEW_TOKENS: usize = 200;

/// The token that ends an answer, where the tokenizer does not name it.
pub const DEFAULT_END_TOKEN: u32 = 151645;

/// The prompt for a model in this process: the system's and the user's words, each marked.
pub open spec fn marked_prompt(user: Seq<char>) -> Seq<char> {
    "<|im_start|>system\n"@ + SYSTEM_PROMPT@ + "<|im_end|>\n<|im_start|>user\n"@ + user
        + "<|im_end|>\n<|im_start|>assistant\n"@
}

/// The prompt for a model in this process.
pub fn chat_prompt(user: &str) -> (r: String)
    ensures
        r@ == marked_prompt(user@),
{
    let mut r: String = "<|im_start|>system\n".to_owned();
    r.append(SYSTEM_PROMPT);
    r.append("<|im_end|>\n<|im_start|>user\n");
    r.append(user);
    r.append("<|im_end|>\n<|im_start|>assistant\n");
    r
}

/// Where the tokenizer of a model can be had.
pub fn tokenizer_url(repo: &str) -> (r: String)
    ensures
        r@ == "https://huggingface.co/"@ + repo@ + "/resolve/main/tokenizer.json"@,
{
    crate::text::cat3("https://huggingface.co/", repo, "/resolve/main/tokenizer.json")
}

/// An answer in the making, token by token.
#[derive(Debug)]
pub struct Generation {
    prompt_len: usize,
    end: u32,
    tokens: Vec<u32>,
}

/// The part of the sampled tokens that makes the answer: those before the first end token, and no
/// more than the limit.
pub open spec fn answer_of(sampled: Seq<u32>, end: u32) -> Seq<u32>
    decreases sampled.len(),
{
    if sampled.len() == 0 {
        Seq::empty()
    } else {
        let head = answer_of(sampled.drop_last(), end);
        if head.len() == sampled.len() - 1 && sampled.last() != end && head.len() < 200 {
            head.push(sampled.last())
        } else {
            head
        }
    }
}

impl Generation {
    /// The tokens of the answer so far.
    pub closed spec fn tokens(&self) -> Seq<u32> {
        self.tokens@
    }

    /// The number of tokens of the prompt.
    pub closed spec fn prompt_len(&self) -> nat {
        self.prompt_len as nat
    }

    /// The token that ends the answer.
    pub closed spec fn end(&self) -> u32 {
        self.end
    }

    /// The answer to a prompt of a number of tokens, before its first token.
    pub fn new(prompt_len: usize, end: u32) -> (r: Self)
        ensures
            r.tokens() == Seq::<u32>::empty(),
            r.prompt_len() == prompt_len,
            r.end() == end,
    {
        Generation { prompt_len, end, tokens: Vec::new() }
    }

    /// Takes the next sampled token. `Some` is the position at which the model is to read it before
    /// the next is sampled; `None` says that the answer is complete.
    pub fn accept(&mut self, token: u32) -> (r: Option<usize>)
        requires
            old(self).prompt_len() + 200 <= usize::MAX,
        ensures
            final(self).prompt_len() == old(self).prompt_len(),
            final(self).end() == old(self).end(),
            match r {
                Some(at) => {
                    &&& token != old(self).end()
                    &&& old(self).tokens().len() < 200
                    &&& final(self).tokens() == old(self).tokens().push(token)
                    &&& at == old(self).prompt_len() + old(self).tokens().len()
                },
                None => {
                    &&& token == old(self).end() || old(self).tokens().len() >= 200
                    &&& final(self).tokens() == old(self).tokens()
                },
            },
    {
        let count: usize = self.tokens.len();
        if token == self.end || count >= MAX_NEW_TOKENS {
            return None;
        }
        self.tokens.push(token);
        Some(self.prompt_len + count)
    }

    /// The tokens of the answer.
    pub fn into_tokens(self) -> (r: Vec<u32>)
        ensures
            r@ == self.tokens(),
    {
        self.tokens
    }
}

proof fn lemma_answer_len(sampled: Seq<u32>, end: u32)
    ensures
        answer_of(sampled, end).len() <= sampled.len(),
        answer_of(sampled, end).len() <= 200,
        answer_of(sampled, end) == sampled.take(answer_of(sampled, end).len() as int),
        forall|i: int|
            0 <= i < answer_of(sampled, end).len() ==> #[trigger] answer_of(sampled, end)[i] != end,
    decreases sampled.len(),
{
    if sampled.len() > 0 {
        let head = answer_of(sampled.drop_last(), end);
        lemma_answer_len(sampled.drop_last(), end);
        assert(sampled.drop_last().take(head.len() as int) =~= sampled.take(head.len() as int));
        assert(answer_of(sampled, end) =~= sampled.take(answer_of(sampled, end).len() as int));
    }
}

/// An answer is a beginning of what was sampled, without the end token, and no longer than the
/// limit.
pub proof fn law_answer_is_a_beginning(sampled: Seq<u32>, end: u32)
    ensures
        answer_of(sampled, end).len() <= sampled.len(),
        answer_of(sampled, end).len() <= 200,
        answer_of(sampled, end) == sampled.take(answer_of(sampled, end).len() as int),
        !answer_of(sampled, end).contains(end),
{
    lemma_answer_len(sampled, end);
}

/// Taking tokens one after the other makes the answer: while the answer is everything sampled so
/// far, the next token is taken exactly when it extends the answer.
pub proof fn law_tokens_make_the_answer(sampled: Seq<u32>, end: u32, token: u32)
    requires
        answer_of(sampled, end) == sampled,
    ensures
        answer_of(sampled.push(token), end) == (if token == end || sampled.len() >= 200 {
            sampled
        } else {
            sampled.push(token)
        }),
{
    lemma_answer_len(sampled, end);
    assert(sampled.push(token).drop_last() =~= sampled);
}

} // verus!
