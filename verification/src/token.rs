//! Identity tokens: which are refused before their signature is looked at, how the others are to be
//! verified, and whose they are.
use crate::ai::registry::{filled, nonempty};
use crate::json::{json_of, member_of, read_json, text_member, Json, JsonView};
use crate::text::{cat2, cat3, opt_view, same};
use jsonwebtoken::errors::Error;
use jsonwebtoken::jwk::Jwk;
use jsonwebtoken::{decode, DecodingKey, Validation};
use std::collections::HashSet;
use vstd::prelude::*;

pub mod laws;

verus! {

/// The variable that names where the keys are, and switches verification on.
pub const ENV_JWKS_URL: &'static str = "POSEIDEN_AUTH_JWKS_URL";

/// The variable that names the issuer.
pub const ENV_ISSUER: &'static str = "POSEIDEN_AUTH_ISSUER";

/// The variable that names the audience.
pub const ENV_AUDIENCE: &'static str = "POSEIDEN_AUTH_AUDIENCE";

/// The variable that names the claim with the owner.
pub const ENV_EMAIL_CLAIM: &'static str = "POSEIDEN_AUTH_EMAIL_CLAIM";

/// What a token's header says: the name of the algorithm that signed it, and the id of the key.
#[derive(Debug, Clone, PartialEq, Eq)]
pub struct TokenHeader {
    pub alg: String,
    pub kid: Option<String>,
}

#[verifier::ext_equal]
pub struct TokenHeaderView {
    pub alg: Seq<char>,
    pub kid: Option<Seq<char>>,
}

impl View for TokenHeader {
    type V = TokenHeaderView;

    open spec fn view(&self) -> TokenHeaderView {
        TokenHeaderView { alg: self.alg@, kid: opt_view(self.kid) }
    }
}

/// The views of an outcome.
pub open spec fn outcome_view(r: Result<TokenHeader, String>) -> Result<TokenHeaderView, Seq<char>> {
    match r {
        Ok(h) => Ok(h@),
        Err(e) => Err(e@),
    }
}

/// The header that `jsonwebtoken` reads in a token, or why it cannot be read.
pub uninterp spec fn header_of(token: Seq<char>) -> Result<TokenHeaderView, Seq<char>>;

/// Calls `jsonwebtoken::decode_header`, which reads the header of a token and verifies nothing. The
/// algorithm comes back under the name of its variant of `jsonwebtoken::Algorithm`, an error as its
/// text. Claimed of it: the outcome depends on the token alone.
#[verifier::external_body]
fn decode_token_header(token: &str) -> (r: Result<TokenHeader, String>)
    ensures
        outcome_view(r) == header_of(token@),
{
    match jsonwebtoken::decode_header(token) {
        Ok(h) => Ok(TokenHeader { alg: format!("{:?}", h.alg), kid: h.kid }),
        Err(e) => Err(e.to_string()),
    }
}

/// Why a token was not verified: for want of a usable key, or by the token itself.
#[derive(Debug, Clone, PartialEq, Eq)]
pub enum TokenFault {
    Key(String),
    Token(String),
}

/// Why a JSON Web Key cannot verify anything; nothing where it can.
pub uninterp spec fn key_problem(jwk: Seq<char>) -> Option<Seq<char>>;

/// Calls `jsonwebtoken::DecodingKey::from_jwk` on what `serde_json::from_str` reads as a
/// `jsonwebtoken::jwk::Jwk`, and gives the text of the error that either meets. Claimed of them: the
/// error depends on the key alone.
#[verifier::external_body]
fn check_key(jwk: &str) -> (r: Option<String>)
    ensures
        opt_view(r) == key_problem(jwk@),
{
    match serde_json::from_str::<Jwk>(jwk) {
        Ok(key) => DecodingKey::from_jwk(&key).err().map(|e| e.to_string()),
        Err(e) => Some(e.to_string()),
    }
}

/// The claims of a token, as JSON text, where a key verifies the token's signature under an
/// algorithm; nothing otherwise.
pub uninterp spec fn signed_claims(token: Seq<char>, jwk: Seq<char>, alg: Seq<char>) -> Option<
    Seq<char>,
>;

/// The texts in a list of JSON values, when it holds nothing else.
pub open spec fn texts_in(items: Seq<Seq<char>>) -> Option<Seq<Seq<char>>>
    decreases items.len(),
{
    if items.len() == 0 {
        Some(Seq::empty())
    } else {
        match (texts_in(items.drop_last()), json_of(items.last())) {
            (Some(head), Some(JsonView::Text(t))) => Some(head.push(t)),
            _ => None,
        }
    }
}

/// What claims name under a key: one text, or a list of texts.
pub open spec fn named_under(claims: JsonView, key: Seq<char>) -> Option<Seq<Seq<char>>> {
    match member_of(claims, key) {
        Some(raw) => match json_of(raw) {
            Some(JsonView::Text(t)) => Some(seq![t]),
            Some(JsonView::Array(items)) => texts_in(items),
            _ => None,
        },
        None => None,
    }
}

/// Whether claims that name anything under a key name what is expected, where anything is.
pub open spec fn names_expected(
    claims: Option<JsonView>,
    key: Seq<char>,
    expected: Option<Seq<char>>,
) -> bool {
    (expected is Some && claims is Some && named_under(claims->0, key) is Some) ==> named_under(
        claims->0,
        key,
    )->0.contains(expected->0)
}

/// Calls `jsonwebtoken::decode` with the key that `jsonwebtoken::DecodingKey::from_jwk` makes of a
/// JSON Web Key, and with a `jsonwebtoken::Validation` of the algorithm, the issuer and the
/// audience, which is validated if asked for. Claimed of it, where it succeeds: the key verifies the
/// signature, what comes back are the token's claims, which depend on the token, the key and the
/// algorithm alone, and where they name issuers or audiences, in a text or a list of texts, the
/// expected one is among them. Left unsaid: when it succeeds, which depends on the clock, since an
/// expired token is refused.
#[verifier::external_body]
fn decode_claims(
    token: &str,
    jwk: &str,
    alg: &str,
    issuer: &Option<String>,
    audience: &Option<String>,
    validate_audience: bool,
) -> (r: Result<String, String>)
    ensures
        r matches Ok(c) ==> signed_claims(token@, jwk@, alg@) == Some(c@),
        r matches Ok(c) ==> names_expected(json_of(c@), "iss"@, opt_view(*issuer)),
        r matches Ok(c) ==> validate_audience ==> names_expected(
            json_of(c@),
            "aud"@,
            opt_view(*audience),
        ),
{
    let jwk: Jwk = serde_json::from_str(jwk).map_err(|e| e.to_string())?;
    let key = DecodingKey::from_jwk(&jwk).map_err(|e| e.to_string())?;
    let alg = alg.parse().map_err(|e: Error| e.to_string())?;
    let mut rules = Validation::new(alg);
    rules.iss = issuer.clone().map(|i| HashSet::from([i]));
    rules.aud = audience.clone().map(|a| HashSet::from([a]));
    rules.validate_aud = validate_audience;
    match decode::<serde_json::Value>(token, &key, &rules) {
        Ok(data) => Ok(data.claims.to_string()),
        Err(e) => Err(e.to_string()),
    }
}

/// What the environment says about verification, as far as it is set.
#[derive(Debug, Clone)]
pub struct AuthEnv {
    pub jwks_url: Option<String>,
    pub issuer: Option<String>,
    pub audience: Option<String>,
    pub email_claim: Option<String>,
}

/// How tokens are verified.
#[derive(Debug, Clone)]
pub struct TokenVerifier {
    /// Where the keys are.
    pub jwks_url: String,
    /// The issuer that a token has to name.
    pub issuer: Option<String>,
    /// The audience that a token has to name; where it is not set, any will do.
    pub audience: Option<String>,
    /// The claim with the owner.
    pub email_claim: String,
}

/// Whether an algorithm signs with a shared secret.
pub open spec fn is_symmetric(alg: Seq<char>) -> bool {
    alg == "HS256"@ || alg == "HS384"@ || alg == "HS512"@
}

/// The id of the key that verifies a token with a header, or why the token is refused.
pub open spec fn key_needed(header: Result<TokenHeaderView, Seq<char>>) -> Result<
    Seq<char>,
    Seq<char>,
> {
    match header {
        Err(e) => Err("unreadable token header: "@ + e),
        Ok(h) => if is_symmetric(h.alg) {
            Err("symmetric token algorithm is not allowed"@)
        } else {
            match h.kid {
                Some(kid) => Ok(kid),
                None => Err("token has no key id (kid)"@),
            }
        },
    }
}

/// The views of an outcome.
pub open spec fn text_outcome(r: Result<String, String>) -> Result<Seq<char>, Seq<char>> {
    match r {
        Ok(t) => Ok(t@),
        Err(e) => Err(e@),
    }
}

/// The id of the key that verifies a token with a header, or why the token is refused.
pub fn key_for(header: Result<TokenHeader, String>) -> (r: Result<String, String>)
    ensures
        text_outcome(r) == key_needed(outcome_view(header)),
{
    match header {
        Err(e) => Err(cat2("unreadable token header: ", e.as_str())),
        Ok(h) => if same(h.alg.as_str(), "HS256") || same(h.alg.as_str(), "HS384") || same(
            h.alg.as_str(),
            "HS512",
        ) {
            Err("symmetric token algorithm is not allowed".to_owned())
        } else {
            match h.kid {
                Some(kid) => Ok(kid),
                None => Err("token has no key id (kid)".to_owned()),
            }
        },
    }
}

/// The owner that the claims of a verified token name, or why they name none.
pub open spec fn owner_named(claims: JsonView, claim: Seq<char>) -> Result<Seq<char>, Seq<char>> {
    match filled(text_member(claims, claim)) {
        Some(email) => Ok(email),
        None => Err("token is missing a non-empty '"@ + claim + "' claim"@),
    }
}

/// The owner that the claims of a verified token name, or why they name none.
pub fn extract_email(claims: &Json, claim: &str) -> (r: Result<String, String>)
    ensures
        text_outcome(r) == owner_named(claims@, claim@),
{
    match nonempty(&claims.text_of(claim)) {
        Some(email) => Ok(email),
        None => Err(cat3("token is missing a non-empty '", claim, "' claim")),
    }
}

/// The owner that claims in JSON text name, or why they name none.
pub open spec fn owner_claimed(claims: Seq<char>, claim: Seq<char>) -> Result<Seq<char>, Seq<char>> {
    match json_of(claims) {
        Some(j) => owner_named(j, claim),
        None => owner_named(JsonView::Null, claim),
    }
}

/// Whether a text says that the verification of a token failed, for the reason given.
pub open spec fn is_refusal(text: Seq<char>, reason: Seq<char>) -> bool {
    text == "token verification failed: "@ + reason
}

/// Whether a token vouches for an owner: it is signed under the key with an algorithm that shares
/// no secret, its claims name the owner, and the issuer and the audience where they name any.
pub open spec fn vouched(
    token: Seq<char>,
    jwk: Seq<char>,
    owner: Seq<char>,
    claim: Seq<char>,
    issuer: Option<Seq<char>>,
    audience: Option<Seq<char>>,
) -> bool {
    &&& header_of(token) matches Ok(header) && {
        &&& !is_symmetric(header.alg)
        &&& header.kid is Some
        &&& signed_claims(token, jwk, header.alg) matches Some(claims) && {
            &&& owner_claimed(claims, claim) == Ok::<Seq<char>, Seq<char>>(owner)
            &&& names_expected(json_of(claims), "iss"@, issuer)
            &&& names_expected(json_of(claims), "aud"@, audience)
        }
    }
}

impl TokenVerifier {
    /// How the environment asks for tokens to be verified; not at all where it does not say where
    /// the keys are.
    pub fn from_env(env: &AuthEnv) -> (r: Option<Self>)
        ensures
            match r {
                Some(v) => {
                    &&& filled(opt_view(env.jwks_url)) == Some(v.jwks_url@)
                    &&& opt_view(v.issuer) == filled(opt_view(env.issuer))
                    &&& opt_view(v.audience) == filled(opt_view(env.audience))
                    &&& v.email_claim@ == (match filled(opt_view(env.email_claim)) {
                        Some(c) => c,
                        None => "email"@,
                    })
                },
                None => filled(opt_view(env.jwks_url)) is None,
            },
    {
        match nonempty(&env.jwks_url) {
            Some(jwks_url) => Some(
                TokenVerifier {
                    jwks_url,
                    issuer: nonempty(&env.issuer),
                    audience: nonempty(&env.audience),
                    email_claim: match nonempty(&env.email_claim) {
                        Some(c) => c,
                        None => "email".to_owned(),
                    },
                },
            ),
            None => None,
        }
    }

    /// The id of the key that verifies a token, or why the token is refused before any key is
    /// fetched.
    pub fn begin(&self, token: &str) -> (r: Result<String, String>)
        ensures
            text_outcome(r) == key_needed(header_of(token@)),
    {
        key_for(decode_token_header(token))
    }

    /// The owner of a token whose verification came to its claims, as JSON text, or to a fault.
    pub fn conclude(&self, verified: Result<String, TokenFault>) -> (r: Result<String, String>)
        ensures
            text_outcome(r) == (match verified {
                Ok(claims) => owner_claimed(claims@, self.email_claim@),
                Err(TokenFault::Key(e)) => Err("unusable JWK: "@ + e@),
                Err(TokenFault::Token(e)) => Err("token verification failed: "@ + e@),
            }),
    {
        match verified {
            Ok(claims) => match read_json(claims.as_str()) {
                Some(j) => extract_email(&j, self.email_claim.as_str()),
                None => extract_email(&Json::Null, self.email_claim.as_str()),
            },
            Err(TokenFault::Key(e)) => Err(cat2("unusable JWK: ", e.as_str())),
            Err(TokenFault::Token(e)) => Err(cat2("token verification failed: ", e.as_str())),
        }
    }

    /// The owner of a token, verified with the key that it names, or why there is none. A token that
    /// is refused before any key is fetched is refused with the same words here.
    pub fn verify(&self, token: &str, jwk: &str) -> (r: Result<String, String>)
        ensures
            key_needed(header_of(token@)) is Err ==> text_outcome(r) == key_needed(
                header_of(token@),
            ),
            key_needed(header_of(token@)) is Ok && key_problem(jwk@) is Some ==> text_outcome(r)
                == Err::<Seq<char>, Seq<char>>("unusable JWK: "@ + key_problem(jwk@)->0),
            key_needed(header_of(token@)) is Ok && key_problem(jwk@) is None && r is Err ==> (exists|
                reason: Seq<char>,
            | #[trigger]
                is_refusal(r->Err_0@, reason)) || (signed_claims(
                token@,
                jwk@,
                header_of(token@)->Ok_0.alg,
            ) matches Some(claims) && owner_claimed(claims, self.email_claim@) == text_outcome(r)),
            r is Ok ==> vouched(
                token@,
                jwk@,
                r->Ok_0@,
                self.email_claim@,
                opt_view(self.issuer),
                opt_view(self.audience),
            ),
    {
        match decode_token_header(token) {
            Err(e) => key_for(Err(e)),
            Ok(header) => {
                let alg: String = header.alg.clone();
                match key_for(Ok(header)) {
                    Err(e) => Err(e),
                    Ok(_) => match check_key(jwk) {
                        Some(e) => self.conclude(Err(TokenFault::Key(e))),
                        None => match decode_claims(
                            token,
                            jwk,
                            alg.as_str(),
                            &self.issuer,
                            &self.audience,
                            self.audience.is_some(),
                        ) {
                            Ok(claims) => self.conclude(Ok(claims)),
                            Err(e) => {
                                let ghost reason = e@;
                                let r: Result<String, String> = self.conclude(
                                    Err(TokenFault::Token(e)),
                                );
                                assert(is_refusal(r->Err_0@, reason));
                                r
                            },
                        },
                    },
                }
            },
        }
    }
}

// ---------------------------------------------------------------------------------------------
// Keys
// ---------------------------------------------------------------------------------------------

/// The keys that were fetched, each as JSON text, by their ids.
#[derive(Debug, Clone)]
pub struct KeyRing {
    entries: Vec<(String, String)>,
}

/// What to do for the key that a token names.
#[derive(Debug, Clone, PartialEq, Eq)]
pub enum KeyStep {
    Use(String),
    Fetch,
    Refuse(String),
}

/// The last key of a list with an id.
pub open spec fn key_named(list: Seq<(String, String)>, kid: Seq<char>) -> Option<Seq<char>>
    decreases list.len(),
{
    if list.len() == 0 {
        None
    } else if list.last().0@ == kid {
        Some(list.last().1@)
    } else {
        key_named(list.drop_last(), kid)
    }
}

/// The last key of a fetched list with an id. A key without an id is never found.
pub open spec fn fetched_key(list: Seq<(Option<String>, String)>, kid: Seq<char>) -> Option<
    Seq<char>,
>
    decreases list.len(),
{
    if list.len() == 0 {
        None
    } else {
        match list.last().0 {
            Some(id) => if id@ == kid {
                Some(list.last().1@)
            } else {
                fetched_key(list.drop_last(), kid)
            },
            None => fetched_key(list.drop_last(), kid),
        }
    }
}

impl KeyRing {
    /// The key with an id.
    pub closed spec fn key(&self, kid: Seq<char>) -> Option<Seq<char>> {
        key_named(self.entries@, kid)
    }

    /// No keys.
    pub fn new() -> (r: Self)
        ensures
            forall|kid: Seq<char>| #[trigger] r.key(kid) is None,
    {
        KeyRing { entries: Vec::new() }
    }

    /// Puts fetched keys in the place of all others.
    pub fn replace(&mut self, fetched: Vec<(Option<String>, String)>)
        ensures
            forall|kid: Seq<char>| #[trigger] final(self).key(kid) == fetched_key(fetched@, kid),
    {
        let mut entries: Vec<(String, String)> = Vec::new();
        let mut i: usize = 0;
        while i < fetched.len()
            invariant
                i <= fetched@.len(),
                forall|kid: Seq<char>| #[trigger]
                    key_named(entries@, kid) == fetched_key(fetched@.take(i as int), kid),
            decreases fetched@.len() - i,
        {
            let ghost before = entries@;
            proof {
                crate::text::lemma_take_step(fetched@, i as int);
            }
            match &fetched[i].0 {
                Some(kid) => {
                    entries.push((kid.clone(), fetched[i].1.clone()));
                    assert(entries@.drop_last() =~= before);
                },
                None => {},
            }
            assert forall|kid: Seq<char>| #[trigger]
                key_named(entries@, kid) == fetched_key(fetched@.take(i + 1), kid) by {
                assert(key_named(before, kid) == fetched_key(fetched@.take(i as int), kid));
                assert(fetched@.take(i + 1).drop_last() == fetched@.take(i as int));
                assert(fetched@.take(i + 1).last() == fetched@[i as int]);
            }
            i += 1;
        }
        assert(fetched@.take(i as int) =~= fetched@);
        self.entries = entries;
    }

    /// What to do for the key with an id: use it, fetch the keys once, or refuse the token.
    pub fn step(&self, kid: &str, fetched: bool) -> (r: KeyStep)
        ensures
            match self.key(kid@) {
                Some(jwk) => r matches KeyStep::Use(k) && k@ == jwk,
                None => if fetched {
                    r matches KeyStep::Refuse(e) && e@ == "no signing key for kid '"@ + kid@
                        + "' in the JWKS"@
                } else {
                    r is Fetch
                },
            },
    {
        match self.get(kid) {
            Ok(jwk) => KeyStep::Use(jwk),
            Err(e) => if fetched {
                KeyStep::Refuse(e)
            } else {
                KeyStep::Fetch
            },
        }
    }

    /// The key with an id, or that there is none.
    pub fn get(&self, kid: &str) -> (r: Result<String, String>)
        ensures
            text_outcome(r) == (match self.key(kid@) {
                Some(jwk) => Ok(jwk),
                None => Err("no signing key for kid '"@ + kid@ + "' in the JWKS"@),
            }),
    {
        let mut n: usize = self.entries.len();
        assert(self.entries@.take(n as int) =~= self.entries@);
        while n > 0
            invariant
                n <= self.entries@.len(),
                key_named(self.entries@, kid@) == key_named(
                    self.entries@.take(n as int),
                    kid@,
                ),
            decreases n,
        {
            proof {
                crate::text::lemma_take_step(self.entries@, n - 1);
            }
            if same(self.entries[n - 1].0.as_str(), kid) {
                return Ok(self.entries[n - 1].1.clone());
            }
            n -= 1;
        }
        Err(cat3("no signing key for kid '", kid, "' in the JWKS"))
    }
}

// ---------------------------------------------------------------------------------------------
// Laws
// ---------------------------------------------------------------------------------------------

/// A token that is signed with a shared secret is refused, whatever else it says.
pub proof fn law_symmetric_tokens_are_refused(header: TokenHeaderView)
    requires
        is_symmetric(header.alg),
    ensures
        key_needed(Ok(header)) is Err,
{
}

/// A token is admitted only under a key that it names.
pub proof fn law_admitted_tokens_name_their_key(
    header: Result<TokenHeaderView, Seq<char>>,
    kid: Seq<char>,
)
    ensures
        key_needed(header) == Ok::<Seq<char>, Seq<char>>(kid) <==> header is Ok && !is_symmetric(
            header->Ok_0.alg,
        ) && header->Ok_0.kid == Some(kid),
{
}

/// An owner whom a token vouches for is never blank, and no token that shares a secret vouches for
/// anybody.
pub proof fn law_only_signed_owners(
    token: Seq<char>,
    jwk: Seq<char>,
    owner: Seq<char>,
    claim: Seq<char>,
    issuer: Option<Seq<char>>,
    audience: Option<Seq<char>>,
)
    requires
        vouched(token, jwk, owner, claim, issuer, audience),
    ensures
        owner.len() > 0,
        key_needed(header_of(token)) is Ok,
        signed_claims(token, jwk, header_of(token)->Ok_0.alg) is Some,
{
}

/// An owner that a token names is never blank.
pub proof fn law_owner_is_not_blank(claims: JsonView, claim: Seq<char>)
    ensures
        owner_named(claims, claim) is Ok ==> owner_named(claims, claim)->Ok_0.len() > 0,
{
}

} // verus!
