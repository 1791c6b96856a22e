//! The reference mapping data behind the store: an outside transliteration
//! table consulted one character at a time, together with a small curated
//! correction list that pins a handful of code points to the reference
//! transliteration scheme this library follows.

use vstd::prelude::*;
use crate::chars::ascii_seq;

verus! {

/// Number of 256-code-point blocks the mapping store covers.
pub const BLOCK_COUNT: usize = 0x110;

/// First code point past the covered blocks: everything at or above it is
/// treated as unmapped by the store.
pub const CODEPOINT_LIMIT: u32 = 0x11000;

/// What `deunicode::deunicode_char` returns for a character: a fixed function
/// of the character alone, named here rather than written out.
pub uninterp spec fn supplier_translit(c: char) -> Option<Seq<char>>;

/// Relies on `deunicode::deunicode_char`: the transliteration of one
/// character, `None` where its table has no entry. The result depends on the
/// character alone.
#[verifier::external_body]
pub(crate) fn supplier_char(c: char) -> (r: Option<&'static str>)
    ensures
        match r {
            Some(s) => supplier_translit(c) == Some(s@),
            None => supplier_translit(c) is None,
        },
{
    deunicode::deunicode_char(c)
}

/// Curated corrections applied over the supplier's table before storage:
/// `Some` replaces the supplier's answer outright, with the empty string
/// standing for "no mapping"; `None` keeps the supplier's answer.
pub open spec fn curated_entry(cp: u32) -> Option<Seq<char>> {
    if cp == 0x2109 {
        // DEGREE FAHRENHEIT expands like the two-character spelling.
        Some(seq!['d', 'e', 'g', 'F'])
    } else if cp == 0x2103 {
        // DEGREE CELSIUS, likewise.
        Some(seq!['d', 'e', 'g', 'C'])
    } else if cp == 0xA500 {
        // Vai block: absent from the reference table.
        Some(Seq::empty())
    } else if cp == 0x1EFF {
        // Tail of Latin Extended Additional: absent from the reference table.
        Some(Seq::empty())
    } else {
        None
    }
}

/// Looks a code point up in the curated correction list.
pub(crate) fn curated(cp: u32) -> (r: Option<&'static str>)
    ensures
        match r {
            Some(s) => curated_entry(cp) == Some(s@),
            None => curated_entry(cp) is None,
        },
{
    if cp == 0x2109 {
        proof {
            reveal_strlit("degF");
        }
        assert("degF"@ =~= seq!['d', 'e', 'g', 'F']);
        Some("degF")
    } else if cp == 0x2103 {
        proof {
            reveal_strlit("degC");
        }
        assert("degC"@ =~= seq!['d', 'e', 'g', 'C']);
        Some("degC")
    } else if cp == 0xA500 || cp == 0x1EFF {
        proof {
            reveal_strlit("");
        }
        assert(""@ =~= Seq::<char>::empty());
        Some("")
    } else {
        None
    }
}

/// The entry the mapping store holds for a character: the curated value where
/// one exists, else the supplier's, pruned before storage (an empty or
/// non-ASCII result stores nothing), and only within the covered blocks.
pub open spec fn reference_entry(c: char) -> Option<Seq<char>> {
    let cp = c as u32;
    if cp < 0x80 || cp >= CODEPOINT_LIMIT {
        None
    } else {
        let raw = match curated_entry(cp) {
            Some(s) => Some(s),
            None => supplier_translit(c),
        };
        match raw {
            Some(s) => if s.len() > 0 && ascii_seq(s) {
                Some(s)
            } else {
                None
            },
            None => None,
        }
    }
}

/// A stored reference entry is never empty and always pure ASCII.
pub proof fn lemma_reference_entry_wf(c: char)
    ensures
        (reference_entry(c) matches Some(s) ==> s.len() > 0 && ascii_seq(s)),
        (reference_entry(c) is Some ==> 0x80 <= (c as u32) && (c as u32) < CODEPOINT_LIMIT),
{
}

/// Converts a supplier or curated answer into what the store keeps for the
/// character: prunes empty and non-ASCII strings.
pub(crate) fn reference_lookup(c: char) -> (r: Option<String>)
    requires
        0x80 <= (c as u32) && (c as u32) < CODEPOINT_LIMIT,
    ensures
        match r {
            Some(s) => reference_entry(c) == Some(s@),
            None => reference_entry(c) is None,
        },
{
    let cp = c as u32;
    let raw = match curated(cp) {
        Some(s) => Some(s),
        None => supplier_char(c),
    };
    match raw {
        Some(s) => {
            if s.unicode_len() > 0 && s.is_ascii() {
                proof {
                    crate::chars::lemma_ascii_seq_is_ascii_chars(s@);
                }
                Some(String::from_str(s))
            } else {
                proof {
                    crate::chars::lemma_ascii_seq_is_ascii_chars(s@);
                }
                None
            }
        },
        None => None,
    }
}

} // verus!
