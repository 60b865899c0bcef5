use poseidon::json::{read_json, Json};
use poseidon::token::{
    extract_email, key_for, AuthEnv, KeyRing, KeyStep, TokenFault, TokenHeader, TokenVerifier,
};

fn unrestricted() -> TokenVerifier {
    TokenVerifier {
        jwks_url: "http://127.0.0.1:0/unused".to_string(),
        issuer: None,
        audience: None,
        email_claim: "email".to_string(),
    }
}

fn claims(text: &str) -> Json {
    read_json(text).expect("valid JSON")
}

fn header(alg: &str, kid: Option<&str>) -> TokenHeader {
    TokenHeader { alg: alg.into(), kid: kid.map(str::to_string) }
}

#[test]
fn extract_email_reads_the_claim() {
    let c = claims(r#"{ "email": "a@b.com", "sub": "1" }"#);
    assert_eq!(extract_email(&c, "email").unwrap(), "a@b.com");
}

#[test]
fn extract_email_rejects_missing_empty_or_nonstring() {
    assert!(extract_email(&claims(r#"{ "sub": "1" }"#), "email").is_err());
    assert!(extract_email(&claims(r#"{ "email": "" }"#), "email").is_err());
    assert!(extract_email(&claims(r#"{ "email": 42 }"#), "email").is_err());
}

#[test]
fn extract_email_honours_a_custom_claim() {
    let c = claims(r#"{ "preferred_username": "u@x.io" }"#);
    assert_eq!(extract_email(&c, "preferred_username").unwrap(), "u@x.io");
}

// A symmetric-algorithm token must be rejected before any key is looked up.
#[test]
fn rejects_symmetric_algorithm_tokens() {
    let mut c = std::collections::BTreeMap::new();
    c.insert("email", serde_json::Value::from("a@b.com"));
    c.insert("exp", serde_json::Value::from(9_999_999_999u64));
    let token = jsonwebtoken::encode(
        &jsonwebtoken::Header::new(jsonwebtoken::Algorithm::HS256),
        &c,
        &jsonwebtoken::EncodingKey::from_secret(b"attacker-known-public-key"),
    )
    .unwrap();
    let err = unrestricted().begin(&token).unwrap_err();
    assert!(err.contains("symmetric"), "unexpected error: {err}");
}

#[test]
fn an_unreadable_token_is_refused() {
    let err = unrestricted().begin("not a token").unwrap_err();
    assert!(err.starts_with("unreadable token header: "), "{err}");
    assert_ne!(err, "unreadable token header: not a token");
}

#[test]
fn a_token_has_to_name_its_key() {
    assert_eq!(key_for(Ok(header("RS256", Some("k1")))), Ok("k1".to_string()));
    assert_eq!(
        key_for(Ok(header("RS256", None))),
        Err("token has no key id (kid)".to_string())
    );
    for alg in ["HS256", "HS384", "HS512"] {
        assert_eq!(
            key_for(Ok(header(alg, Some("k1")))),
            Err("symmetric token algorithm is not allowed".to_string())
        );
    }
    assert_eq!(
        key_for(Err("bad".to_string())),
        Err("unreadable token header: bad".to_string())
    );
}

#[test]
fn verified_claims_name_the_owner() {
    let v = unrestricted();
    assert_eq!(
        v.conclude(Ok(r#"{ "email": " a@b.com " }"#.to_string())),
        Ok("a@b.com".to_string())
    );
    assert!(v.conclude(Ok("{}".to_string())).is_err());
    assert_eq!(
        v.conclude(Err(TokenFault::Token("expired".to_string()))),
        Err("token verification failed: expired".to_string())
    );
    assert_eq!(
        v.conclude(Err(TokenFault::Key("bad".to_string()))),
        Err("unusable JWK: bad".to_string())
    );
}

#[test]
fn verification_is_off_without_a_key_url() {
    let mut env = AuthEnv { jwks_url: None, issuer: None, audience: None, email_claim: None };
    assert!(TokenVerifier::from_env(&env).is_none());
    env.jwks_url = Some("https://id.example/keys".into());
    let v = TokenVerifier::from_env(&env).unwrap();
    assert_eq!(v.jwks_url, "https://id.example/keys");
    assert_eq!(v.email_claim, "email");
    env.email_claim = Some("upn".into());
    assert_eq!(TokenVerifier::from_env(&env).unwrap().email_claim, "upn");
}

#[test]
fn fetched_keys_replace_the_old_ones() {
    let mut ring = KeyRing::new();
    assert_eq!(
        ring.get("a"),
        Err("no signing key for kid 'a' in the JWKS".to_string())
    );
    ring.replace(vec![
        (Some("a".into()), "one".into()),
        (None, "lost".into()),
        (Some("a".into()), "two".into()),
    ]);
    assert_eq!(ring.get("a"), Ok("two".to_string()));
    ring.replace(vec![(Some("b".into()), "three".into())]);
    assert!(ring.get("a").is_err());
    assert_eq!(ring.get("b"), Ok("three".to_string()));
}

/// The key pair of the first Ed25519 test vector of RFC 8032, as PKCS #8 and as a JSON Web Key.
const SEED: &str = "9d61b19deffd5a60ba844af492ec2cc44449c5697b326919703bac031cae7f60";
const JWK: &str =
    r#"{ "kty": "OKP", "crv": "Ed25519", "x": "11qYAYKxCrfVS_7TyWQHOg7hcvPapiMlrwIaaPcHURo" }"#;

fn signed(claims: &[(&str, serde_json::Value)]) -> String {
    let mut der: Vec<u8> = vec![
        0x30, 0x2e, 0x02, 0x01, 0x00, 0x30, 0x05, 0x06, 0x03, 0x2b, 0x65, 0x70, 0x04, 0x22, 0x04,
        0x20,
    ];
    for i in 0..32 {
        der.push(u8::from_str_radix(&SEED[2 * i..2 * i + 2], 16).unwrap());
    }
    let mut header = jsonwebtoken::Header::new(jsonwebtoken::Algorithm::EdDSA);
    header.kid = Some("k1".to_string());
    let claims: std::collections::BTreeMap<&str, serde_json::Value> =
        claims.iter().map(|(k, v)| (*k, v.clone())).collect();
    jsonwebtoken::encode(&header, &claims, &jsonwebtoken::EncodingKey::from_ed_der(&der)).unwrap()
}

#[test]
fn a_signed_token_names_its_owner() {
    let later = serde_json::Value::from(9_999_999_999u64);
    let email = serde_json::Value::from("a@b.com");
    let token = signed(&[("email", email.clone()), ("exp", later.clone())]);
    let v = unrestricted();
    assert_eq!(v.begin(&token), Ok("k1".to_string()));
    assert_eq!(v.verify(&token, JWK), Ok("a@b.com".to_string()));

    // A changed token, another key and no key at all are refused.
    let other = signed(&[("email", serde_json::Value::from("c@d.com")), ("exp", later.clone())]);
    let spliced = format!(
        "{}.{}",
        other.rsplit_once('.').unwrap().0,
        token.rsplit_once('.').unwrap().1
    );
    assert_eq!(
        v.verify(&spliced, JWK),
        Err("token verification failed: InvalidSignature".to_string())
    );
    let swapped = JWK.replace("11qY", "21qY");
    assert!(v.verify(&token, &swapped).is_err());
    assert!(v.verify(&token, "{}").unwrap_err().starts_with("unusable JWK: "));

    // So is an expired one.
    let old = signed(&[("email", email.clone()), ("exp", serde_json::Value::from(1u64))]);
    assert_eq!(
        v.verify(&old, JWK),
        Err("token verification failed: ExpiredSignature".to_string())
    );
}

#[test]
fn issuer_and_audience_have_to_be_the_expected_ones() {
    let later = serde_json::Value::from(9_999_999_999u64);
    let token = signed(&[
        ("email", serde_json::Value::from("a@b.com")),
        ("exp", later),
        ("iss", serde_json::Value::from("https://id.example")),
        ("aud", serde_json::Value::from("poseidon")),
    ]);
    let mut v = unrestricted();
    assert!(v.verify(&token, JWK).is_ok());
    v.issuer = Some("https://id.example".to_string());
    v.audience = Some("poseidon".to_string());
    assert!(v.verify(&token, JWK).is_ok());
    v.audience = Some("another".to_string());
    assert_eq!(
        v.verify(&token, JWK),
        Err("token verification failed: InvalidAudience".to_string())
    );
    v.audience = None;
    v.issuer = Some("https://other.example".to_string());
    assert_eq!(
        v.verify(&token, JWK),
        Err("token verification failed: InvalidIssuer".to_string())
    );
}

#[test]
fn the_expected_audience_has_to_be_in_a_list() {
    let later = serde_json::Value::from(9_999_999_999u64);
    let token = signed(&[
        ("email", serde_json::Value::from("a@b.com")),
        ("exp", later),
        ("aud", serde_json::Value::from(vec!["other", "poseidon"])),
    ]);
    let mut v = unrestricted();
    v.audience = Some("poseidon".to_string());
    assert!(v.verify(&token, JWK).is_ok());
    v.audience = Some("third".to_string());
    assert_eq!(
        v.verify(&token, JWK),
        Err("token verification failed: InvalidAudience".to_string())
    );
}

#[test]
fn signed_claims_without_an_owner_are_refused() {
    let token = signed(&[("exp", serde_json::Value::from(9_999_999_999u64))]);
    assert_eq!(
        unrestricted().verify(&token, JWK),
        Err("token is missing a non-empty 'email' claim".to_string())
    );
}

#[test]
fn keys_are_fetched_once_for_an_unknown_id() {
    let mut ring = KeyRing::new();
    assert_eq!(ring.step("k1", false), KeyStep::Fetch);
    assert_eq!(
        ring.step("k1", true),
        KeyStep::Refuse("no signing key for kid 'k1' in the JWKS".to_string())
    );
    ring.replace(vec![(Some("k1".to_string()), "{}".to_string())]);
    assert_eq!(ring.step("k1", false), KeyStep::Use("{}".to_string()));
}
