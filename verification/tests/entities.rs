use commonmark_rust::parser::html_entity::{html_entity, is_html_entity};

#[test]
fn entity_capital_aelig() {
    assert_eq!(html_entity("AElig").unwrap(), "\u{00c6}");
}

#[test]
fn entity_capital_afr() {
    assert_eq!(html_entity("Afr").unwrap(), "\u{1d504}");
}

#[test]
fn entity_amp() {
    assert_eq!(html_entity("amp").unwrap(), "&");
}

#[test]
fn is_entity_amp() {
    assert!(is_html_entity("amp"));
}

#[test]
fn non_entity() {
    assert!(!is_html_entity("madeUpEntity"));
}

#[test]
fn entity_lookup_is_case_sensitive() {
    assert_eq!(html_entity("AElig").unwrap(), "\u{00c6}");
    assert_eq!(html_entity("aelig").unwrap(), "\u{00e6}");
    assert!(html_entity("aELIG").is_none());
}

#[test]
fn entity_decoding_to_two_characters() {
    assert_eq!(html_entity("fjlig").unwrap(), "fj");
}
