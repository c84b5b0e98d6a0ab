use includer::generate::{
    asset_record, const_declaration, decimal_text, holds_nul, is_identifier_text, is_keyword_text,
    optional_payload, same_text, web_asset_record,
};

#[test]
fn decimal_numbers() {
    assert_eq!(decimal_text(0), "0");
    assert_eq!(decimal_text(7), "7");
    assert_eq!(decimal_text(10), "10");
    assert_eq!(decimal_text(1234567), "1234567");
    assert_eq!(decimal_text(usize::MAX), usize::MAX.to_string());
}

#[test]
fn identifiers() {
    assert!(is_identifier_text("ASSETS"));
    assert!(is_identifier_text("_private2"));
    assert!(is_identifier_text("a"));
    assert!(is_identifier_text("ÄSSETS"));
    assert!(is_identifier_text("_"));
    assert!(!is_identifier_text(""));
    assert!(!is_identifier_text("9LIVES"));
    assert!(!is_identifier_text("MY-ASSETS"));
    assert!(!is_identifier_text("a b"));
    assert!(!is_identifier_text("const"));
    assert!(!is_identifier_text("static"));
    assert!(!is_identifier_text("self"));
    assert!(is_identifier_text("CONST"));
    assert!(is_identifier_text("externs"));
}

#[test]
fn record_texts() {
    assert_eq!(
        asset_record("\"/a\"", "\"d/a\""),
        "Asset { uri: \"/a\", data: include_bytes!(\"d/a\") }"
    );
    assert_eq!(optional_payload(None), "None");
    assert_eq!(optional_payload(Some("\"p\"")), "Some(include_bytes!(\"p\"))");
    assert_eq!(
        web_asset_record("\"/\"", "\"i\"", None, Some("\"i.br\"")),
        "WebAsset { uri: \"/\", data: include_bytes!(\"i\"), data_gz: None, data_br: Some(include_bytes!(\"i.br\")), mime: \"text/plain\" }"
    );
}

#[test]
fn declarations() {
    assert_eq!(
        const_declaration("X", "Asset", &vec![]),
        "const X: [Asset; 0] = [];"
    );
    assert_eq!(
        const_declaration("X", "T", &vec!["a".to_string(), "b".to_string(), "c".to_string()]),
        "const X: [T; 3] = [a, b, c];"
    );
}

#[test]
fn text_helpers() {
    assert!(holds_nul("a\0"));
    assert!(!holds_nul("abc"));
    assert!(same_text("fn", "fn"));
    assert!(!same_text("fn", "fm"));
    assert!(is_keyword_text("while"));
    assert!(!is_keyword_text("While"));
}
