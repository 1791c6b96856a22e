//! Basic facts about characters: ASCII ranges and UTF-8 widths.

use vstd::prelude::*;

verus! {

/// A character is ASCII iff its code point is below 0x80.
pub open spec fn ascii_char(c: char) -> bool {
    (c as u32) < 0x80
}

/// Every character of the sequence is ASCII.
pub open spec fn ascii_seq(s: Seq<char>) -> bool {
    forall|i: int| 0 <= i < s.len() ==> ascii_char(#[trigger] s[i])
}

/// The cast-based `ascii_seq` coincides with vstd's character-range
/// predicate, which the string primitives speak of.
pub proof fn lemma_ascii_seq_is_ascii_chars(s: Seq<char>)
    ensures
        ascii_seq(s) <==> vstd::utf8::is_ascii_chars(s),
{
    assert forall|i: int| 0 <= i < s.len() implies (ascii_char(s[i]) <==> ('\0' <= #[trigger] s[i]
        <= '\u{7f}')) by {
        let c = s[i];
        assert('\u{7f}' as u32 == 0x7f);
        assert('\0' as u32 == 0);
        vstd::utf8::char_u32_cast(c, c as u32);
        assert((0x7fu32 as char) == '\u{7f}');
        assert((0u32 as char) == '\0');
        assert(c <= '\u{7f}' ==> c as u32 <= 0x7f);
        assert(c as u32 <= 0x7f ==> c <= '\u{7f}');
        assert('\0' <= c);
    }
}

/// Number of bytes in the UTF-8 encoding of one character.
pub open spec fn spec_utf8_len(c: char) -> nat {
    if (c as u32) < 0x80 {
        1nat
    } else if (c as u32) < 0x800 {
        2nat
    } else if (c as u32) < 0x10000 {
        3nat
    } else {
        4nat
    }
}

/// Computes the UTF-8 width of a character from its code point alone.
pub fn utf8_len(c: char) -> (n: usize)
    ensures
        n == spec_utf8_len(c),
{
    let cp = c as u32;
    if cp < 0x80 {
        1
    } else if cp < 0x800 {
        2
    } else if cp < 0x10000 {
        3
    } else {
        4
    }
}

} // verus!
