//! Behavioural cases for the transliteration pipeline: identity on ASCII,
//! the directly indexed range, symbol ranges, and stability over a large
//! scan of code points.

use unidecode_rs::{transliterate_internal, unidecode, ErrorsPolicy, MappingStore};

fn ascii(c: u32) -> char {
    char::from_u32(c).unwrap()
}

#[test]
fn ascii_identity() {
    for cp in 0u32..128 {
        let ch = ascii(cp);
        assert_eq!(unidecode(&ch.to_string()), ch.to_string());
    }
}

#[test]
fn empty_string() {
    assert_eq!(unidecode(""), "");
}

#[test]
fn latin1_basic() {
    // Subset overlapping with common accents.
    let cases = [
        ("\u{E9}", "e"),
        ("\u{C9}", "E"),
        ("\u{C4}", "A"),
        ("\u{E4}", "a"),
        ("\u{D6}", "O"),
        ("\u{F6}", "o"),
        ("\u{DC}", "U"),
        ("\u{FC}", "u"),
        ("\u{DF}", "ss"),
        ("\u{DE}", "Th"),
        ("\u{FE}", "th"),
        ("\u{C6}", "AE"),
        ("\u{E6}", "ae"),
    ];
    for (inp, exp) in cases {
        assert_eq!(unidecode(inp), exp, "latin1 case {:?}", inp);
    }
}

#[test]
fn degree_equivalence() {
    // U+2109 vs °F ; U+2103 vs °C
    assert_eq!(unidecode("\u{2109}"), unidecode("\u{00B0}F"));
    assert_eq!(unidecode("\u{2103}"), unidecode("\u{00B0}C"));
}

#[test]
fn circled_latin_subset() {
    // Only a subset (a..z); small.
    for i in 0..26 {
        let cp = 0x24d0 + i;
        let out = unidecode(&char::from_u32(cp).unwrap().to_string());
        assert_eq!(out, ((b'a' + i as u8) as char).to_string());
    }
}

#[test]
fn fullwidth_sentence() {
    // Fullwidth phrase -> ASCII quick brown fox sentence (lowercase variant).
    let full = "\u{FF54}\u{FF48}\u{FF45} \u{FF51}\u{FF55}\u{FF49}\u{FF43}\u{FF4B} \u{FF42}\u{FF52}\u{FF4F}\u{FF57}\u{FF4E} \u{FF46}\u{FF4F}\u{FF58} \u{FF63}"
        .replace('\u{FF63}', "\u{FF4A}\u{FF55}\u{FF4D}\u{FF50}\u{FF53}")
        .to_string()
        + " \u{FF4F}\u{FF56}\u{FF45}\u{FF52} \u{FF54}\u{FF48}\u{FF45} \u{FF4C}\u{FF41}\u{FF5A}\u{FF59} \u{FF44}\u{FF4F}\u{FF47} \u{FF11}\u{FF12}\u{FF13}\u{FF14}\u{FF15}";
    let out = unidecode(&full);
    assert!(
        out.starts_with("the quick brown fox jumps over the lazy dog 12345"),
        "got {}",
        out
    );
}

#[test]
fn enclosed_alphanumerics_sample() {
    assert_eq!(
        unidecode("\u{24D0}\u{24B6}\u{2473}\u{2487}\u{249B}\u{24F4}\u{24FE}\u{24FF}"),
        "aA20(20)20.20100"
    );
}

#[test]
fn non_bmp_basic() {
    // A few mathematical sans-serif code points past the covered blocks.
    let samples = [0x1d5a0u32, 0x1d5c4, 0x1d5c6];
    for cp in samples {
        let ch = char::from_u32(cp).unwrap();
        let out = unidecode(&ch.to_string());
        // A mapping may be absent; empty is acceptable.
        if !out.is_empty() {
            assert!(out.is_ascii(), "Non ASCII output for U+{:X}: {:?}", cp, out);
        }
    }
}

#[test]
fn unmapped_returns_empty() {
    // A block the reference table does not cover gives empty.
    assert_eq!(unidecode("\u{A500}"), "");
}

#[test]
fn partial_table_empty_example() {
    // ỿ lies past the end of its partial table; expected empty.
    assert_eq!(unidecode("\u{1EFF}"), "");
}

#[test]
fn large_scan_subset_no_panic_ascii_output() {
    // Scan a moderate prefix (the surrogate range cannot be a char anyway).
    let store = MappingStore::build();
    for cp in 0u32..0x5000 {
        if (0xD800..=0xDFFF).contains(&cp) {
            continue;
        }
        let ch = match char::from_u32(cp) {
            Some(c) => c,
            None => continue,
        };
        let out = transliterate_internal(&store, &ch.to_string(), ErrorsPolicy::Default).out;
        assert!(out.is_ascii(), "Non ASCII output at U+{:04X}: {:?}", cp, out);
    }
}

#[test]
fn mixed_complex_sentence() {
    let s = "P\u{158}\u{CD}LI\u{160} \u{17D}LU\u{164}OU\u{10C}K\u{DD} K\u{16E}\u{147} p\u{11B}l \u{10F}\u{E1}belsk\u{E9} \u{D3}DY d\u{E9}j\u{E0} vu \u{2014} \u{420}\u{443}\u{441}\u{441}\u{43A}\u{438}\u{439} \u{442}\u{435}\u{43A}\u{441}\u{442} \u{4E2D}\u{6587} \u{1F600} \u{1D518}\u{1D52B}\u{1D526}\u{1D520}\u{1D52C}\u{1D521}\u{1D522}";
    let out = unidecode(s);
    // Basic sanity: all ASCII
    assert!(out.is_ascii());
    // Contains expected transliteration fragments
    assert!(out.contains("PRILIS"));
    assert!(out.contains("ZLUTOUCKY"));
    assert!(out.contains("deja vu"));
    assert!(out.contains("Russkii"), "got {}", out);
}
