//! Further targeted cases: fractions, Roman numerals, Greek letters,
//! combining-mark collapse, a Cyrillic sentence, and musical symbols.

use unidecode_rs::unidecode;

#[test]
fn fractions_common() {
    let cases = [
        ("\u{BC}", "1/4"),
        ("\u{BD}", "1/2"),
        ("\u{BE}", "3/4"),
        ("\u{2150}", "1/7"),
        ("\u{2151}", "1/9"),
        ("\u{2152}", "1/10"),
        ("\u{2153}", "1/3"),
        ("\u{2154}", "2/3"),
        ("\u{2155}", "1/5"),
        ("\u{2156}", "2/5"),
        ("\u{2157}", "3/5"),
        ("\u{2158}", "4/5"),
        ("\u{2159}", "1/6"),
        ("\u{215A}", "5/6"),
        ("\u{215B}", "1/8"),
        ("\u{215C}", "3/8"),
        ("\u{215D}", "5/8"),
        ("\u{215E}", "7/8"),
    ];
    for (inp, exp) in cases {
        let raw = unidecode(inp);
        let got = raw.trim();
        assert_eq!(got, exp, "fraction {:?} => {:?}", inp, got);
    }
}

#[test]
fn roman_numerals() {
    let s = "\u{2160}\u{2161}\u{2162}\u{2163}\u{2164}\u{2165}\u{2166}\u{2167}\u{2168}\u{2169}\u{216A}\u{216B}\u{216C}\u{216D}\u{216E}\u{216F}";
    let out = unidecode(s);
    // Relaxed: only Roman letters, with a plausible total length.
    assert!(out
        .chars()
        .all(|c| matches!(c, 'I' | 'V' | 'X' | 'L' | 'C' | 'D' | 'M')));
    assert!(
        out.len() >= 15 && out.len() <= 40,
        "unexpected length {} for {}",
        out.len(),
        out
    );
}

#[test]
fn greek_sample() {
    let s = "\u{391}\u{392}\u{393}\u{394}\u{395}\u{396}\u{397}\u{398}\u{399}\u{39A}\u{39B}\u{39C}\u{39D}\u{39E}\u{39F}\u{3A0}\u{3A1}\u{3A3}\u{3A4}\u{3A5}\u{3A6}\u{3A7}\u{3A8}\u{3A9}";
    let out = unidecode(s);
    // Latin approximations, simplified.
    assert!(out.contains("Th"));
    assert!(out.contains("Ph") || out.contains("F"));
}

#[test]
fn combining_marks_collapse() {
    let composed = "\u{E9}\u{1EC1}\u{1ED7}\u{F1}"; // precomposed
    let decomposed = "e\u{301}e\u{302}\u{300}o\u{303}n\u{303}"; // artificially decomposed variant
    assert_eq!(unidecode(composed), unidecode(decomposed));
}

#[test]
fn cyrillic_sentence() {
    let s = "\u{421}\u{44A}\u{435}\u{448}\u{44C} \u{436}\u{435} \u{435}\u{449}\u{451} \u{44D}\u{442}\u{438}\u{445} \u{43C}\u{44F}\u{433}\u{43A}\u{438}\u{445} \u{444}\u{440}\u{430}\u{43D}\u{446}\u{443}\u{437}\u{441}\u{43A}\u{438}\u{445} \u{431}\u{443}\u{43B}\u{43E}\u{43A}, \u{434}\u{430} \u{432}\u{44B}\u{43F}\u{435}\u{439} \u{447}\u{430}\u{44E}";
    let out = unidecode(s);
    // Basic presence checks
    assert!(out.contains("frantsuzskikh"));
    assert!(out.contains("chaiu") || out.contains("chayu"));
}

#[test]
fn musical_symbols_subset() {
    // These may be unmapped; assert ASCII + stability (no panic, may be empty).
    let symbols = [0x1D100u32, 0x1D11E, 0x1D122];
    for cp in symbols {
        if let Some(ch) = char::from_u32(cp) {
            let out = unidecode(&ch.to_string());
            assert!(out.is_ascii());
        }
    }
}
