use poseidon::catalog::{canonical_product_slug, repo_product_map, CatalogEntity};
use poseidon::text_map::TextMap;

fn aliases() -> TextMap {
    let mut a = TextMap::new();
    a.insert("product-contoso-pay".to_string(), "pay".to_string());
    a.insert("widget-assistant--wa-".to_string(), "wa".to_string());
    a
}

#[test]
fn canonical_slug_prefers_alias_then_derives() {
    let a = aliases();
    assert_eq!(canonical_product_slug("product-contoso-pay", &a), "pay");
    assert_eq!(canonical_product_slug("widget-assistant--wa-", &a), "wa");
    assert_eq!(
        canonical_product_slug("product-foo-bar-module", &TextMap::new()),
        "foo-bar-module"
    );
    assert_eq!(canonical_product_slug("core_app", &TextMap::new()), "core-app");
    assert_eq!(
        canonical_product_slug("widget-assistant--wa-", &TextMap::new()),
        "widget-assistant-wa"
    );
}

#[test]
fn repo_product_map_keeps_only_repo_and_product_rows() {
    let ents = vec![
        CatalogEntity {
            repo: Some("Contoso.Assistant".into()),
            product: Some("widget-assistant--wa-".into()),
            ..Default::default()
        },
        CatalogEntity {
            repo: Some("Ledger".into()),
            product: None, // no product -> excluded
            ..Default::default()
        },
    ];
    let map = repo_product_map(&ents, &aliases());
    assert_eq!(
        map.get("Contoso.Assistant").as_deref(),
        Some("product:wa")
    );
    assert!(map.get("Ledger").is_none());
}

#[test]
fn derived_slugs_hold_lower_case_letters_digits_and_single_dashes() {
    for raw in ["Core  App!", "--x--", "ÄPFEL", "product-Product-1"] {
        let slug = canonical_product_slug(raw, &TextMap::new());
        assert!(slug
            .chars()
            .all(|c| c.is_ascii_lowercase() || c.is_ascii_digit() || c == '-'), "{slug}");
        assert!(!slug.starts_with('-') && !slug.ends_with('-') && !slug.contains("--"), "{slug}");
    }
}

#[test]
fn a_text_map_keeps_its_keys_in_order() {
    let mut m = TextMap::new();
    m.insert("b".to_string(), "1".to_string());
    m.insert("a".to_string(), "2".to_string());
    m.insert("b".to_string(), "3".to_string());
    assert_eq!(m.len(), 2);
    assert_eq!(
        m.entries(),
        vec![
            ("a".to_string(), "2".to_string()),
            ("b".to_string(), "3".to_string())
        ]
    );
    assert_eq!(m.get("c"), None);
}

#[test]
fn an_entry_without_repository_and_product_is_useless() {
    let mut e = CatalogEntity::default();
    assert!(!e.is_useful());
    e.product = Some("pay".to_string());
    assert!(e.is_useful());
}
