//! Transliterations for the ornamental punctuation run of the Ornamental
//! Dingbats block: ampersands, quotation marks and exclamations drawn in
//! decorative styles. This range lies past the blocks the mapping store
//! covers, so it is answered by a table of its own.

use vstd::prelude::*;

verus! {

/// The entry this table assigns to a code point.
pub open spec fn ornament_entry(cp: u32) -> Option<Seq<char>> {
    if 0x1F670 <= cp && cp <= 0x1F673 {
        Some(seq!['e', 't'])
    } else if cp == 0x1F674 || cp == 0x1F675 {
        Some(seq!['&'])
    } else if cp == 0x1F676 || cp == 0x1F677 {
        Some(seq!['"'])
    } else if cp == 0x1F678 {
        Some(seq![',', ','])
    } else if 0x1F679 <= cp && cp <= 0x1F67B {
        Some(seq!['!', '?'])
    } else {
        None
    }
}

/// Looks a code point up in the ornamental punctuation table.
pub fn lookup(cp: u32) -> (r: Option<&'static str>)
    ensures
        match r {
            Some(s) => ornament_entry(cp) == Some(s@),
            None => ornament_entry(cp) is None,
        },
{
    match cp {
        128624u32 | 128625u32 | 128626u32 | 128627u32 => {
            proof {
                reveal_strlit("et");
                assert("et"@ =~= seq!['e', 't']);
            }
            Some("et")
        },
        128628u32 | 128629u32 => {
            proof {
                reveal_strlit("&");
                assert("&"@ =~= seq!['&']);
            }
            Some("&")
        },
        128630u32 | 128631u32 => {
            proof {
                reveal_strlit("\"");
                assert("\""@ =~= seq!['"']);
            }
            Some("\"")
        },
        128632u32 => {
            proof {
                reveal_strlit(",,");
                assert(",,"@ =~= seq![',', ',']);
            }
            Some(",,")
        },
        128633u32 | 128634u32 | 128635u32 => {
            proof {
                reveal_strlit("!?");
                assert("!?"@ =~= seq!['!', '?']);
            }
            Some("!?")
        },
        _ => None,
    }
}

} // verus!
