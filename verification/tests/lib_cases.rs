//! Core behaviour: the default pipeline, the lookup paths through the
//! presence bitmaps, and the error policies.

use unidecode_rs::{
    transliterate_internal, unidecode, unidecode_with_policy, ErrorsPolicy, MappingStore,
};

#[test]
fn simple() {
    assert_eq!(unidecode("d\u{E9}j\u{E0}"), "deja");
}

#[test]
fn lookup_out_of_range_block() {
    // cp beyond any covered block -> None
    let store = MappingStore::build();
    let cp = 0x1F600; // emoji (outside the covered blocks)
    assert!(store.lookup(cp).is_none());
}

#[test]
fn lookup_bit_not_set_returns_none() {
    // Find a code point where the bitmap bit is zero and assert lookup == None.
    let store = MappingStore::build();
    'outer: for block in 0..store.block_count() {
        for idx in 0..256u32 {
            let cp = ((block as u32) << 8) | idx;
            if !store.bit_is_set(cp) {
                assert!(
                    store.lookup(cp).is_none(),
                    "cp U+{:04X} unexpectedly mapped",
                    cp
                );
                break 'outer;
            }
        }
    }
}

#[test]
fn lookup_set_bits_have_mappings() {
    // Sample up to 20 set bits across blocks and ensure lookup is Some(non-empty).
    let store = MappingStore::build();
    let mut checked = 0usize;
    'blocks: for block in 0..store.block_count() {
        if checked >= 20 {
            break;
        }
        for idx in 0..256u32 {
            let cp = ((block as u32) << 8) | idx;
            if store.bit_is_set(cp) {
                if let Some(m) = store.lookup(cp) {
                    assert!(!m.is_empty());
                    checked += 1;
                    if checked >= 20 {
                        break 'blocks;
                    }
                }
            }
        }
    }
    assert!(checked > 0, "no set bits sampled");
}

#[test]
fn idempotence_basic() {
    // Idempotence: applying unidecode twice is the same as once (output is pure ASCII).
    let samples = [
        "d\u{E9}j\u{E0} vu \u{2014} Fran\u{E7}ais \u{420}\u{443}\u{441}\u{441}\u{43A}\u{438}\u{439} \u{442}\u{435}\u{43A}\u{441}\u{442} \u{4E2D}\u{6587}",
        "\u{1D518}\u{1D52B}\u{1D526}\u{1D520}\u{1D52C}\u{1D521}\u{1D522}",
        "I \u{2665} \u{1F680}",
        "P\u{158}\u{CD}LI\u{160} \u{17D}LU\u{164}OU\u{10C}K\u{DD} K\u{16E}\u{147}",
        "\u{939}\u{93F}\u{928}\u{94D}\u{926}\u{940} \u{92A}\u{930}\u{940}\u{915}\u{94D}\u{937}\u{923} \u{935}\u{93E}\u{915}\u{94D}\u{92F}",
    ];
    for s in samples {
        let once = unidecode(s);
        let twice = unidecode(&once);
        assert_eq!(once, twice, "idempotence failed for {:?}", s);
    }
}

#[test]
fn errors_ignore_default() {
    // Characters without a mapping are removed under ignore and default.
    let s = "\u{1F600}"; // emoji outside the covered blocks
    let r = unidecode_with_policy(s, ErrorsPolicy::Ignore);
    assert_eq!(r, "");
    let r2 = unidecode_with_policy(s, ErrorsPolicy::Default);
    assert_eq!(r2, "");
}

#[test]
fn errors_replace() {
    let s = "\u{1F600}";
    let r = unidecode_with_policy(s, ErrorsPolicy::Replace { replace: "?" });
    assert_eq!(r, "?");
    let r2 = unidecode_with_policy(s, ErrorsPolicy::Replace { replace: "[x]" });
    assert_eq!(r2, "[x]");
}

#[test]
fn errors_preserve() {
    let s = "\u{1F600}"; // preserved as original
    let r = unidecode_with_policy(s, ErrorsPolicy::Preserve);
    assert_eq!(r, s);
    let inv = unidecode_with_policy(s, ErrorsPolicy::Invalid);
    assert_eq!(inv, s);
}

#[test]
fn errors_strict() {
    let store = MappingStore::build();
    let s = "\u{1F600}a"; // first char unmapped -> error index 0
    let res = transliterate_internal(&store, s, ErrorsPolicy::Strict);
    assert_eq!(res.error_index, Some(0));
    // Ensure partial output (should be empty since first char failed)
    assert_eq!(res.out, "");
    // If first char mapped, second unmapped -> index 1
    let s2 = "\u{E9}\u{1F600}"; // the accented e maps to 'e'
    let res2 = transliterate_internal(&store, s2, ErrorsPolicy::Strict);
    assert_eq!(res2.error_index, Some(1));
    assert_eq!(res2.out, "e");
}
