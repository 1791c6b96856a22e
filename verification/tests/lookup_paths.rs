//! Tests covering several resolution paths: the direct table, distinct
//! blocks, and the ASCII fast path.

use unidecode_rs::unidecode;

#[test]
fn sample_multiple_blocks() {
    // A few known code points across different blocks (Greek, Cyrillic, symbols).
    let samples = [
        (0x0398u32, "Th"), // GREEK CAPITAL THETA
        (0x00DF, "ss"),    // LATIN SMALL LETTER SHARP S via the direct table
        (0x0416, "Zh"),    // CYRILLIC CAPITAL ZHE
        (0x00AE, "(R)"),   // Registered sign
    ];
    for (cp, expected_fragment) in samples {
        let ch = char::from_u32(cp).unwrap();
        let out = unidecode(&ch.to_string());
        if expected_fragment == "(R)" {
            assert!(
                out == "(R)" || out == "(r)",
                "U+{:04X} => {:?} missing (R)/(r) variant",
                cp,
                out
            );
        } else {
            assert!(
                out.contains(expected_fragment),
                "U+{:04X} => {:?} does not contain {:?}",
                cp,
                out,
                expected_fragment
            );
        }
    }
}

#[test]
fn ascii_passthrough_idempotent() {
    let s = "The quick brown fox 123";
    assert_eq!(unidecode(s), s);
}
