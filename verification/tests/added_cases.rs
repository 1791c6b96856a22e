//! Cases added alongside the ported suite: exact values for the curated
//! corrections, the ornamental punctuation table, the result-returning API,
//! override precedence, growth bounds, and agreement between the direct
//! table and the block tables.

use unidecode_rs::{
    lookup, transliterate_internal, unidecode, unidecode_rust, unidecode_with_policy,
    unidecode_with_policy_result, unidecode_with_selector, utf8_len, ErrorsPolicy, MappingStore,
    UnidecodeError,
};

#[test]
fn selector_unknown_policy_fails_fast() {
    let r = unidecode_with_selector("abc", Some("bogus"), None);
    assert_eq!(r, Err(UnidecodeError::UnknownPolicy));
    let r2 = unidecode_with_selector("abc", Some("Replace"), None);
    assert_eq!(r2, Err(UnidecodeError::UnknownPolicy));
}

#[test]
fn selector_names_each_policy() {
    let s = "\u{E9}\u{1F600}";
    assert_eq!(unidecode_with_selector(s, None, None), Ok("e".to_string()));
    assert_eq!(
        unidecode_with_selector(s, Some("ignore"), None),
        Ok("e".to_string())
    );
    assert_eq!(
        unidecode_with_selector(s, Some("replace"), None),
        Ok("e?".to_string())
    );
    assert_eq!(
        unidecode_with_selector(s, Some("replace"), Some("[x]")),
        Ok("e[x]".to_string())
    );
    assert_eq!(
        unidecode_with_selector(s, Some("preserve"), None),
        Ok("e\u{1F600}".to_string())
    );
    assert_eq!(
        unidecode_with_selector(s, Some("invalid"), None),
        Ok("e\u{1F600}".to_string())
    );
    assert_eq!(
        unidecode_with_selector(s, Some("strict"), None),
        Err(UnidecodeError::Unmapped { index: 1 })
    );
    assert_eq!(
        unidecode_with_selector("deja", Some("strict"), None),
        Ok("deja".to_string())
    );
}

#[test]
fn degree_signs_exact() {
    assert_eq!(unidecode("\u{2109}"), "degF");
    assert_eq!(unidecode("\u{2103}"), "degC");
    assert_eq!(unidecode("\u{B0}"), "deg");
}

#[test]
fn ornament_lookup_values() {
    assert_eq!(lookup(128624), Some("et"));
    assert_eq!(lookup(128627), Some("et"));
    assert_eq!(lookup(128628), Some("&"));
    assert_eq!(lookup(128630), Some("\""));
    assert_eq!(lookup(128632), Some(",,"));
    assert_eq!(lookup(128635), Some("!?"));
    assert_eq!(lookup(128623), None);
    assert_eq!(lookup(128636), None);
    assert_eq!(lookup(0x41), None);
}

#[test]
fn policy_result_strict_err() {
    let r = unidecode_with_policy_result("\u{E9}\u{1F600}", ErrorsPolicy::Strict);
    assert_eq!(r, Err(1));
    let r2 = unidecode_with_policy_result("\u{1F600}a", ErrorsPolicy::Strict);
    assert_eq!(r2, Err(0));
}

#[test]
fn policy_result_ok() {
    let r = unidecode_with_policy_result("d\u{E9}j\u{E0}", ErrorsPolicy::Strict);
    assert_eq!(r, Ok("deja".to_string()));
    let r2 = unidecode_with_policy_result("\u{1F600}", ErrorsPolicy::Default);
    assert_eq!(r2, Ok(String::new()));
}

#[test]
fn replace_policy_keeps_mapped_text() {
    let r = unidecode_with_policy("a\u{E9}\u{1F600}b", ErrorsPolicy::Replace { replace: "?" });
    assert_eq!(r, "ae?b");
}

#[test]
fn override_applies_past_covered_blocks() {
    // These code points lie past the covered blocks, so only the override
    // table can map them; without it the output would be empty.
    assert_eq!(unidecode("\u{1D400}"), "A");
    assert_eq!(unidecode("\u{1D433}"), "z");
    assert_eq!(unidecode("\u{1D7CF}"), "0");
    assert_eq!(unidecode("\u{1D7D8}"), "9");
    // A neighbour without an override entry stays unmapped.
    assert_eq!(unidecode("\u{1D434}"), "");
}

#[test]
fn supplier_data_reaches_output() {
    // Multi-character expansions straight from the mapping data; an identity
    // mapping would fail all of these.
    assert_eq!(unidecode("\u{4E2D}"), "Zhong ");
    assert_eq!(unidecode("\u{6587}"), "Wen ");
    assert_eq!(unidecode("\u{AC00}"), "ga");
    assert_eq!(unidecode("\u{2014}"), "--");
}

#[test]
fn alias_matches_unidecode() {
    let s = "d\u{E9}j\u{E0} vu \u{4E2D}\u{6587}";
    assert_eq!(unidecode_rust(s), unidecode(s));
}

#[test]
fn growth_stays_within_store_bound() {
    let store = MappingStore::build();
    let k = store.max_entry_len();
    assert!(k >= 1);
    let s = "a\u{E9}\u{4E2D}\u{AC00}\u{1F600}\u{BC}xyz \u{416}\u{398}";
    let out = transliterate_internal(&store, s, ErrorsPolicy::Default).out;
    assert!(out.len() <= k * s.chars().count());
}

#[test]
fn direct_table_agrees_with_blocks() {
    let store = MappingStore::build();
    for cp in 0x80u32..0x100 {
        let d = store.lookup_direct(cp).map(|s| s.as_str().to_string());
        let b = store.lookup(cp).map(|s| s.as_str().to_string());
        assert_eq!(d, b, "direct and block answers differ at U+{:04X}", cp);
    }
}

#[test]
fn utf8_len_matches_encoding() {
    for &c in &['a', '\u{E9}', '\u{4E2D}', '\u{1F600}'] {
        assert_eq!(utf8_len(c), c.len_utf8());
    }
}

#[test]
fn preserve_keeps_bytes_exactly() {
    let s = "x\u{1F600}\u{10FFFF}y";
    let r = unidecode_with_policy(s, ErrorsPolicy::Preserve);
    assert_eq!(r.as_bytes(), s.as_bytes());
}
