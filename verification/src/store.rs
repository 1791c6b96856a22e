//! The mapping store: per-block tables of (code point, replacement) pairs,
//! one presence bitmap per block for constant-time negative answers, and a
//! directly indexed table for the first 256 code points.

use vstd::prelude::*;
use crate::chars::ascii_seq;
use crate::overrides::{lookup_override, override_seq, lemma_override_entry_wf};
use crate::supplier::{reference_entry, reference_lookup, BLOCK_COUNT, CODEPOINT_LIMIT};
use vstd::string::StringExecFns;

verus! {

broadcast use vstd::utf8::char_u32_cast;

/// Looks a code point up in a table of (code point, replacement) pairs,
/// front to back.
pub open spec fn entries_lookup(s: Seq<(u32, String)>, cp: u32) -> Option<Seq<char>>
    decreases s.len(),
{
    if s.len() == 0 {
        None
    } else if s[0].0 == cp {
        Some(s[0].1@)
    } else {
        entries_lookup(s.drop_first(), cp)
    }
}

/// The keys of the table are strictly increasing.
pub open spec fn entries_sorted(s: Seq<(u32, String)>) -> bool {
    forall|i: int, j: int|
        #![trigger s[i], s[j]]
        0 <= i < j < s.len() ==> s[i].0 < s[j].0
}

/// A well-formed block table for block `b`: sorted keys inside the block's
/// range, and non-empty, pure-ASCII replacements.
pub open spec fn block_entries_wf(s: Seq<(u32, String)>, b: int) -> bool {
    &&& entries_sorted(s)
    &&& forall|i: int|
        0 <= i < s.len() ==> b * 256 <= (#[trigger] s[i]).0 < (b + 1) * 256
    &&& forall|i: int|
        0 <= i < s.len() ==> (#[trigger] s[i]).1@.len() > 0 && ascii_seq(s[i].1@)
}

/// A key that occurs nowhere in the table is not found.
pub proof fn lemma_entries_lookup_none(s: Seq<(u32, String)>, cp: u32)
    requires
        forall|i: int| 0 <= i < s.len() ==> (#[trigger] s[i]).0 != cp,
    ensures
        entries_lookup(s, cp) is None,
    decreases s.len(),
{
    if s.len() > 0 {
        assert(s[0].0 != cp);
        lemma_entries_lookup_none(s.drop_first(), cp);
    }
}

/// A key that occurs at some index is found, with that index's replacement.
pub proof fn lemma_entries_lookup_at(s: Seq<(u32, String)>, i: int)
    requires
        entries_sorted(s),
        0 <= i < s.len(),
    ensures
        entries_lookup(s, s[i].0) == Some(s[i].1@),
    decreases s.len(),
{
    if i == 0 {
    } else {
        assert(s[0].0 < s[i].0);
        assert(s.drop_first()[i - 1] == s[i]);
        assert forall|p: int, q: int|
            #![trigger s.drop_first()[p], s.drop_first()[q]]
            0 <= p < q < s.drop_first().len() implies s.drop_first()[p].0
            < s.drop_first()[q].0 by {
            assert(s.drop_first()[p] == s[p + 1]);
            assert(s.drop_first()[q] == s[q + 1]);
        }
        lemma_entries_lookup_at(s.drop_first(), i - 1);
    }
}

/// A found key occurs at some index.
pub proof fn lemma_entries_lookup_found(s: Seq<(u32, String)>, cp: u32)
    requires
        entries_lookup(s, cp) is Some,
    ensures
        exists|i: int|
            0 <= i < s.len() && (#[trigger] s[i]).0 == cp && entries_lookup(s, cp) == Some(
                s[i].1@,
            ),
    decreases s.len(),
{
    if s.len() > 0 {
        if s[0].0 == cp {
            assert(s[0].0 == cp && entries_lookup(s, cp) == Some(s[0].1@));
        } else {
            lemma_entries_lookup_found(s.drop_first(), cp);
            let j = choose|j: int|
                0 <= j < s.drop_first().len() && (#[trigger] s.drop_first()[j]).0 == cp
                    && entries_lookup(s.drop_first(), cp) == Some(s.drop_first()[j].1@);
            assert(s[j + 1] == s.drop_first()[j]);
        }
    }
}

/// Appending a fresh, larger key leaves old answers alone and makes the new
/// key found.
pub proof fn lemma_entries_lookup_push(s: Seq<(u32, String)>, p: (u32, String), cp: u32)
    requires
        forall|i: int| 0 <= i < s.len() ==> (#[trigger] s[i]).0 != p.0,
    ensures
        entries_lookup(s.push(p), cp) == if cp == p.0 {
            Some(p.1@)
        } else {
            entries_lookup(s, cp)
        },
    decreases s.len(),
{
    let t = s.push(p);
    assert(t.len() == s.len() + 1);
    if s.len() == 0 {
        assert(t[0] == p);
        if cp == p.0 {
            assert(entries_lookup(t, cp) == Some(p.1@));
        } else {
            assert(t.drop_first() =~= Seq::<(u32, String)>::empty());
            assert(entries_lookup(t, cp) is None);
            assert(entries_lookup(s, cp) is None);
        }
    } else {
        assert(t[0] == s[0]);
        assert(s[0].0 != p.0);
        if s[0].0 == cp {
            assert(entries_lookup(t, cp) == Some(s[0].1@));
            assert(entries_lookup(s, cp) == Some(s[0].1@));
            assert(cp != p.0);
        } else {
            assert(t.drop_first() =~= s.drop_first().push(p));
            assert forall|i: int| 0 <= i < s.drop_first().len() implies (#[trigger] s.drop_first()[
                i
            ]).0 != p.0 by {
                assert(s.drop_first()[i] == s[i + 1]);
            }
            lemma_entries_lookup_push(s.drop_first(), p, cp);
            assert(entries_lookup(t, cp) == entries_lookup(t.drop_first(), cp));
            assert(entries_lookup(s, cp) == entries_lookup(s.drop_first(), cp));
        }
    }
}

/// One bit of a 64-bit word.
pub open spec fn word_bit(w: u64, k: u64) -> bool {
    (w >> k) & 1u64 == 1u64
}

/// Setting one bit leaves every other bit of the word alone.
pub proof fn lemma_word_set_bit(w: u64, k: u64, j: u64)
    requires
        k < 64,
        j < 64,
    ensures
        word_bit(w | (1u64 << k), j) == if j == k {
            true
        } else {
            word_bit(w, j)
        },
{
    assert(((w | (1u64 << k)) >> k) & 1u64 == 1u64) by (bit_vector)
        requires
            k < 64,
    ;
    assert(j != k ==> ((w | (1u64 << k)) >> j) & 1u64 == (w >> j) & 1u64) by (bit_vector)
        requires
            k < 64 && j < 64,
    ;
}

/// No bit of the zero word is set.
pub proof fn lemma_word_zero_bit(j: u64)
    ensures
        !word_bit(0u64, j),
{
    assert((0u64 >> j) & 1u64 == 0u64) by (bit_vector);
}

/// Block index and offset reassemble the code point, and bounds carry over.
pub proof fn lemma_cp_join(cp: u32)
    ensures
        cp == (cp >> 8) * 256 + (cp & 0xFF),
        (cp & 0xFF) < 256,
        (cp < 0x11000) <==> ((cp >> 8) < 0x110),
{
    assert(cp == (cp >> 8) * 256 + (cp & 0xFF) && (cp & 0xFF) < 256 && ((cp < 0x11000) <==> ((cp
        >> 8) < 0x110))) by (bit_vector);
}

/// The presence bit for a code point in a flat sequence of bitmap words,
/// four words per block.
pub open spec fn flat_bit(ws: Seq<u64>, cp: u32) -> bool {
    word_bit(ws[((cp >> 8) as int) * 4 + ((cp & 0xFF) as int) / 64], ((cp & 0xFF) as u64) % 64)
}

/// The presence bit for an offset among a block's four bitmap words.
pub open spec fn quad_bit(w0: u64, w1: u64, w2: u64, w3: u64, k: int) -> bool {
    if k < 64 {
        word_bit(w0, k as u64)
    } else if k < 128 {
        word_bit(w1, (k - 64) as u64)
    } else if k < 192 {
        word_bit(w2, (k - 128) as u64)
    } else {
        word_bit(w3, (k - 192) as u64)
    }
}

/// The immutable mapping store.
pub struct MappingStore {
    /// The override table: a small sorted array of (code point, replacement)
    /// pairs the pipeline consults before anything else.
    pub overrides: Vec<(u32, String)>,
    /// One replacement per code point below 0x100; empty means "no mapping".
    pub direct: Vec<String>,
    /// Four 64-bit words per block: bit `i` of block `b` covers code point
    /// `b * 256 + i`.
    pub bitmaps: Vec<u64>,
    /// One sorted table of (code point, replacement) pairs per block.
    pub blocks: Vec<Vec<(u32, String)>>,
}

/// What a directly indexed table answers for a code point below 0x100.
pub open spec fn direct_entry(d: Seq<String>, cp: u32) -> Option<Seq<char>> {
    if d[cp as int]@.len() == 0 {
        None
    } else {
        Some(d[cp as int]@)
    }
}

impl MappingStore {
    /// The presence bit for a code point inside the covered blocks.
    pub open spec fn spec_bit(self, cp: u32) -> bool {
        flat_bit(self.bitmaps@, cp)
    }

    /// What the block tables answer for a code point: the block is selected
    /// by the high bits, and a code point past the covered blocks is absent.
    pub open spec fn spec_lookup(self, cp: u32) -> Option<Seq<char>> {
        if (cp >> 8) as int >= self.blocks@.len() {
            None
        } else {
            entries_lookup(self.blocks@[(cp >> 8) as int]@, cp)
        }
    }

    /// What the direct table answers for a code point below 0x100.
    pub open spec fn spec_direct(self, cp: u32) -> Option<Seq<char>> {
        direct_entry(self.direct@, cp)
    }

    /// Structural soundness: table sizes, block-local sorted ASCII entries,
    /// and the presence bitmap agreeing with the tables at every position.
    pub open spec fn wf(self) -> bool {
        &&& entries_sorted(self.overrides@)
        &&& forall|cp: u32|
            #[trigger] entries_lookup(self.overrides@, cp) == crate::overrides::override_seq(cp)
        &&& self.direct@.len() == 0x100
        &&& forall|i: int| 0 <= i < 0x80 ==> (#[trigger] self.direct@[i])@.len() == 0
        &&& forall|i: int| 0 <= i < 0x100 ==> ascii_seq((#[trigger] self.direct@[i])@)
        &&& self.blocks@.len() == BLOCK_COUNT
        &&& self.bitmaps@.len() == BLOCK_COUNT * 4
        &&& forall|b: int|
            0 <= b < BLOCK_COUNT ==> block_entries_wf((#[trigger] self.blocks@[b])@, b)
        &&& forall|cp: u32|
            cp < CODEPOINT_LIMIT ==> (#[trigger] self.spec_bit(cp) <==> self.spec_lookup(
                cp,
            ) is Some)
    }

    /// Builds the override table: the override entries in ascending key
    /// order, ready for binary search.
    fn build_overrides() -> (v: Vec<(u32, String)>)
        ensures
            entries_sorted(v@),
            forall|cp: u32| #[trigger] entries_lookup(v@, cp) == override_seq(cp),
    {
        let mut v: Vec<(u32, String)> = Vec::new();
        let mut cp: u32 = 0x1D400;
        while cp < 0x1D7D9
            invariant
                0x1D400 <= cp <= 0x1D7D9,
                entries_sorted(v@),
                forall|i: int|
                    0 <= i < v@.len() ==> 0x1D400 <= (#[trigger] v@[i]).0 && v@[i].0 < cp,
                forall|x: u32| x < cp ==> #[trigger] entries_lookup(v@, x) == override_seq(x),
            decreases 0x1D7D9 - cp,
        {
            let ghost v0 = v@;
            match lookup_override(cp) {
                Some(s) => {
                    let ghost sv = s@;
                    v.push((cp, String::from_str(s)));
                    proof {
                        let p = v@[v@.len() - 1];
                        assert(v@ == v0.push(p) && p.0 == cp && p.1@ == sv);
                        assert forall|x: u32| #[trigger] entries_lookup(v@, x) == (if x == cp {
                            Some(sv)
                        } else {
                            entries_lookup(v0, x)
                        }) by {
                            lemma_entries_lookup_push(v0, p, x);
                        }
                        assert forall|i: int, j: int|
                            #![trigger v@[i], v@[j]]
                            0 <= i < j < v@.len() implies v@[i].0 < v@[j].0 by {
                            if j < v@.len() - 1 {
                                assert(v@[i] == v0[i] && v@[j] == v0[j]);
                            } else {
                                assert(v@[i] == v0[i]);
                            }
                        }
                    }
                },
                None => {
                    proof {
                        assert forall|i: int| 0 <= i < v@.len() implies (#[trigger] v@[i]).0
                            != cp by {}
                        lemma_entries_lookup_none(v@, cp);
                    }
                },
            }
            cp = cp + 1;
        }
        proof {
            assert forall|x: u32| #[trigger] entries_lookup(v@, x) == override_seq(x) by {
                if x >= 0x1D7D9 {
                    lemma_override_entry_wf(x);
                    assert forall|i: int| 0 <= i < v@.len() implies (#[trigger] v@[i]).0 != x by {}
                    lemma_entries_lookup_none(v@, x);
                }
            }
        }
        v
    }

    /// Builds the directly indexed table for code points below 0x100.
    fn build_direct() -> (d: Vec<String>)
        ensures
            d@.len() == 0x100,
            forall|i: int| 0 <= i < 0x80 ==> (#[trigger] d@[i])@.len() == 0,
            forall|i: int| 0 <= i < 0x100 ==> ascii_seq((#[trigger] d@[i])@),
            forall|c: char|
                (c as u32) < 0x100 ==> #[trigger] direct_entry(d@, c as u32) == reference_entry(c),
    {
        let mut d: Vec<String> = Vec::new();
        let mut cp: u32 = 0;
        while cp < 0x100
            invariant
                d@.len() == cp,
                cp <= 0x100,
                forall|i: int| 0 <= i < cp && i < 0x80 ==> (#[trigger] d@[i])@.len() == 0,
                forall|i: int| 0 <= i < cp ==> ascii_seq((#[trigger] d@[i])@),
                forall|c: char|
                    (c as u32) < cp ==> #[trigger] direct_entry(d@, c as u32) == reference_entry(
                        c,
                    ),
            decreases 0x100 - cp,
        {
            if cp < 0x80 {
                d.push(String::new());
            } else {
                let ghost d0 = d@;
                let copt = char::from_u32(cp);
                match copt {
                    Some(c0) => {
                        let entry = reference_lookup(c0);
                        let ghost e0 = reference_entry(c0);
                        match entry {
                            Some(s) => {
                                proof {
                                    crate::supplier::lemma_reference_entry_wf(c0);
                                    assert(e0 == Some(s@) && s@.len() > 0);
                                }
                                d.push(s);
                            },
                            None => {
                                d.push(String::new());
                            },
                        }
                        proof {
                            assert(d@.len() == cp + 1);
                            assert(match e0 {
                                Some(v) => d@[cp as int]@ == v && v.len() > 0,
                                None => d@[cp as int]@.len() == 0,
                            });
                            assert(direct_entry(d@, cp) == e0);
                            assert forall|c: char| (c as u32) < cp + 1 implies
                                #[trigger] direct_entry(d@, c as u32) == reference_entry(c) by {
                                if (c as u32) == cp {
                                    vstd::utf8::char_u32_cast(c, cp);
                                    vstd::utf8::char_u32_cast(c0, cp);
                                    assert(c == c0);
                                } else {
                                    assert(d@[c as u32 as int] == d0[c as u32 as int]);
                                    assert(direct_entry(d0, c as u32) == reference_entry(c));
                                }
                            }
                        }
                    },
                    None => {
                        // Every code point below 0x100 is a scalar value.
                        proof {
                            assert(false);
                        }
                    },
                }
            }
            cp = cp + 1;
        }
        d
    }

    /// Builds one block's sorted table and its four bitmap words.
    fn build_block(b: usize) -> (r: (Vec<(u32, String)>, u64, u64, u64, u64))
        requires
            b < BLOCK_COUNT,
        ensures
            block_entries_wf(r.0@, b as int),
            forall|k: int|
                0 <= k < 256 ==> (#[trigger] quad_bit(r.1, r.2, r.3, r.4, k) <==> entries_lookup(
                    r.0@,
                    (b * 256 + k) as u32,
                ) is Some),
            forall|c: char|
                b * 256 <= (c as u32) && (c as u32) < (b + 1) * 256 ==> #[trigger] entries_lookup(
                    r.0@,
                    c as u32,
                ) == reference_entry(c),
    {
        let base: u32 = (b as u32) * 256;
        let mut entries: Vec<(u32, String)> = Vec::new();
        let mut w0: u64 = 0;
        let mut w1: u64 = 0;
        let mut w2: u64 = 0;
        let mut w3: u64 = 0;
        proof {
            assert forall|k: int| 0 <= k < 256 implies !quad_bit(w0, w1, w2, w3, k) by {
                if k < 64 {
                    lemma_word_zero_bit(k as u64);
                } else if k < 128 {
                    lemma_word_zero_bit((k - 64) as u64);
                } else if k < 192 {
                    lemma_word_zero_bit((k - 128) as u64);
                } else {
                    lemma_word_zero_bit((k - 192) as u64);
                }
            }
        }
        let mut off: u32 = 0;
        while off < 256
            invariant
                b < BLOCK_COUNT,
                base == b * 256,
                off <= 256,
                entries_sorted(entries@),
                forall|i: int|
                    0 <= i < entries@.len() ==> base <= (#[trigger] entries@[i]).0 && entries@[i].0 < base + off,
                forall|i: int|
                    0 <= i < entries@.len() ==> (#[trigger] entries@[i]).1@.len() > 0 && ascii_seq(
                        entries@[i].1@,
                    ),
                forall|k: int|
                    0 <= k < off ==> (#[trigger] quad_bit(w0, w1, w2, w3, k) <==> entries_lookup(
                        entries@,
                        (base + k) as u32,
                    ) is Some),
                forall|k: int| off <= k < 256 ==> !(#[trigger] quad_bit(w0, w1, w2, w3, k)),
                forall|c: char|
                    base <= (c as u32) && (c as u32) < base + off ==> #[trigger] entries_lookup(
                        entries@,
                        c as u32,
                    ) == reference_entry(c),
            decreases 256 - off,
        {
            let cp: u32 = base + off;
            let ghost es0 = entries@;
            let ghost ow0 = w0;
            let ghost ow1 = w1;
            let ghost ow2 = w2;
            let ghost ow3 = w3;
            let copt = char::from_u32(cp);
            let mut val: Option<String> = None;
            if cp >= 0x80 {
                match copt {
                    Some(c0) => {
                        val = reference_lookup(c0);
                    },
                    None => {},
                }
            }
            match val {
                Some(s) => {
                    let ghost sv = s@;
                    let ghost c0 = copt->0;
                    proof {
                        crate::supplier::lemma_reference_entry_wf(c0);
                    }
                    entries.push((cp, s));
                    if off < 64 {
                        w0 = w0 | (1u64 << (off as u64));
                    } else if off < 128 {
                        w1 = w1 | (1u64 << ((off - 64) as u64));
                    } else if off < 192 {
                        w2 = w2 | (1u64 << ((off - 128) as u64));
                    } else {
                        w3 = w3 | (1u64 << ((off - 192) as u64));
                    }
                    proof {
                        let p = entries@[entries@.len() - 1];
                        assert(entries@ == es0.push(p) && p.0 == cp && p.1@ == sv);
                        // Old answers survive the push; the new key is found.
                        assert forall|x: u32| #[trigger] entries_lookup(entries@, x) == (if x == cp {
                            Some(sv)
                        } else {
                            entries_lookup(es0, x)
                        }) by {
                            lemma_entries_lookup_push(es0, p, x);
                        }
                        // Sortedness: the new key is larger than every old key.
                        assert forall|i: int, j: int|
                            #![trigger entries@[i], entries@[j]]
                            0 <= i < j < entries@.len() implies entries@[i].0 < entries@[j].0 by {
                            if j < entries@.len() - 1 {
                                assert(entries@[i] == es0[i] && entries@[j] == es0[j]);
                            } else {
                                assert(entries@[i] == es0[i]);
                            }
                        }
                        // One bit turned on; every other bit is unchanged.
                        let koff = off as int;
                        assert forall|k: int| 0 <= k < 256 implies #[trigger] quad_bit(
                            w0,
                            w1,
                            w2,
                            w3,
                            k,
                        ) == (if k == koff {
                            true
                        } else {
                            quad_bit(ow0, ow1, ow2, ow3, k)
                        }) by {
                            if koff < 64 {
                                if k < 64 {
                                    lemma_word_set_bit(ow0, off as u64, k as u64);
                                }
                            } else if koff < 128 {
                                if 64 <= k < 128 {
                                    lemma_word_set_bit(ow1, (off - 64) as u64, (k - 64) as u64);
                                }
                            } else if koff < 192 {
                                if 128 <= k < 192 {
                                    lemma_word_set_bit(ow2, (off - 128) as u64, (k - 128) as u64);
                                }
                            } else {
                                if 192 <= k < 256 {
                                    lemma_word_set_bit(ow3, (off - 192) as u64, (k - 192) as u64);
                                }
                            }
                        }
                        // The character stored at this code point is unique.
                        assert forall|c: char| base <= (c as u32) && (c as u32) < base + off + 1
                            implies #[trigger] entries_lookup(entries@, c as u32)
                            == reference_entry(c) by {
                            if (c as u32) == cp {
                                vstd::utf8::char_u32_cast(c, cp);
                                vstd::utf8::char_u32_cast(c0, cp);
                                assert(c == c0);
                            }
                        }
                    }
                },
                None => {
                    proof {
                        // Nothing stored: the key is absent and its bit stays off.
                        assert forall|i: int| 0 <= i < entries@.len() implies (#[trigger] entries@[i]).0 != cp by {}
                        lemma_entries_lookup_none(entries@, cp);
                        assert forall|c: char| base <= (c as u32) && (c as u32) < base + off + 1
                            implies #[trigger] entries_lookup(entries@, c as u32)
                            == reference_entry(c) by {
                            if (c as u32) == cp {
                                vstd::utf8::char_is_scalar(c);
                                if cp >= 0x80 {
                                    let c0 = copt->0;
                                    vstd::utf8::char_u32_cast(c, cp);
                                    vstd::utf8::char_u32_cast(c0, cp);
                                    assert(c == c0);
                                }
                            }
                        }
                    }
                },
            }
            off = off + 1;
        }
        (entries, w0, w1, w2, w3)
    }

    /// The store holds exactly the reference mapping: the block tables and,
    /// below 0x100, the direct table answer as the reference does for every
    /// character.
    pub open spec fn models_reference(self) -> bool {
        &&& forall|c: char| #[trigger] self.spec_lookup(c as u32) == reference_entry(c)
        &&& forall|c: char|
            (c as u32) < 0x100 ==> #[trigger] self.spec_direct(c as u32) == reference_entry(c)
    }

    /// Builds the store, one block at a time, from the reference mapping.
    pub fn build() -> (r: MappingStore)
        ensures
            r.wf(),
            r.models_reference(),
    {
        let direct = Self::build_direct();
        let mut bitmaps: Vec<u64> = Vec::new();
        let mut blocks: Vec<Vec<(u32, String)>> = Vec::new();
        let mut b: usize = 0;
        while b < BLOCK_COUNT
            invariant
                blocks@.len() == b,
                bitmaps@.len() == 4 * b,
                b <= BLOCK_COUNT,
                forall|j: int| 0 <= j < b ==> block_entries_wf((#[trigger] blocks@[j])@, j),
                forall|cp: u32|
                    ((cp >> 8) as int) < b ==> (#[trigger] flat_bit(bitmaps@, cp)
                        <==> entries_lookup(blocks@[(cp >> 8) as int]@, cp) is Some),
                forall|c: char|
                    (((c as u32) >> 8) as int) < b ==> #[trigger] entries_lookup(
                        blocks@[((c as u32) >> 8) as int]@,
                        c as u32,
                    ) == reference_entry(c),
            decreases BLOCK_COUNT - b,
        {
            let ghost bs0 = bitmaps@;
            let ghost bl0 = blocks@;
            let (entries, w0, w1, w2, w3) = Self::build_block(b);
            let ghost ev = entries@;
            blocks.push(entries);
            bitmaps.push(w0);
            bitmaps.push(w1);
            bitmaps.push(w2);
            bitmaps.push(w3);
            proof {
                assert(bitmaps@ =~= bs0 + seq![w0, w1, w2, w3]);
                assert(blocks@ =~= bl0.push(blocks@[b as int]));
                assert forall|cp: u32| ((cp >> 8) as int) < b + 1 implies (#[trigger] flat_bit(
                    bitmaps@,
                    cp,
                ) <==> entries_lookup(blocks@[(cp >> 8) as int]@, cp) is Some) by {
                    lemma_cp_join(cp);
                    let blk = (cp >> 8) as int;
                    let k = (cp & 0xFF) as int;
                    if blk < b {
                        assert(bitmaps@[blk * 4 + k / 64] == bs0[blk * 4 + k / 64]);
                        assert(flat_bit(bitmaps@, cp) == flat_bit(bs0, cp));
                        assert(blocks@[blk] == bl0[blk]);
                    } else {
                        assert(blk == b);
                        assert(bitmaps@[blk * 4 + k / 64] == seq![w0, w1, w2, w3][k / 64]);
                        assert(flat_bit(bitmaps@, cp) == quad_bit(w0, w1, w2, w3, k));
                        assert(quad_bit(w0, w1, w2, w3, k) <==> entries_lookup(
                            ev,
                            (b * 256 + k) as u32,
                        ) is Some);
                        assert((b * 256 + k) as u32 == cp);
                    }
                }
                assert forall|c: char| (((c as u32) >> 8) as int) < b + 1 implies
                    #[trigger] entries_lookup(blocks@[((c as u32) >> 8) as int]@, c as u32)
                    == reference_entry(c) by {
                    let cp = c as u32;
                    lemma_cp_join(cp);
                    let blk = (cp >> 8) as int;
                    if blk < b {
                        assert(blocks@[blk] == bl0[blk]);
                    } else {
                        assert(blk == b);
                        assert(b * 256 <= cp && cp < (b + 1) * 256);
                    }
                }
            }
            b = b + 1;
        }
        let overrides = Self::build_overrides();
        let r = MappingStore { overrides, direct, bitmaps, blocks };
        proof {
            assert forall|cp: u32| cp < CODEPOINT_LIMIT implies (#[trigger] r.spec_bit(cp)
                <==> r.spec_lookup(cp) is Some) by {
                lemma_cp_join(cp);
            }
            assert forall|c: char| #[trigger] r.spec_lookup(c as u32) == reference_entry(c) by {
                let cp = c as u32;
                lemma_cp_join(cp);
                if cp >= CODEPOINT_LIMIT {
                    assert((cp >> 8) as int >= r.blocks@.len());
                    assert(r.spec_lookup(cp) is None);
                    crate::supplier::lemma_reference_entry_wf(c);
                }
            }
        }
        r
    }

    /// Binary search inside one block's sorted table.
    fn find_entry<'a>(entries: &'a Vec<(u32, String)>, cp: u32) -> (r: Option<&'a String>)
        requires
            entries_sorted(entries@),
        ensures
            match r {
                Some(s) => entries_lookup(entries@, cp) == Some(s@),
                None => entries_lookup(entries@, cp) is None,
            },
    {
        let mut lo: usize = 0;
        let mut hi: usize = entries.len();
        while lo < hi
            invariant
                entries_sorted(entries@),
                lo <= hi <= entries@.len(),
                forall|i: int| 0 <= i < lo ==> (#[trigger] entries@[i]).0 < cp,
                forall|i: int| hi <= i < entries@.len() ==> (#[trigger] entries@[i]).0 > cp,
            decreases hi - lo,
        {
            let mid = lo + (hi - lo) / 2;
            let key = entries[mid].0;
            if key == cp {
                proof {
                    lemma_entries_lookup_at(entries@, mid as int);
                }
                return Some(&entries[mid].1);
            } else if key < cp {
                lo = mid + 1;
            } else {
                hi = mid;
            }
        }
        proof {
            assert forall|i: int| 0 <= i < entries@.len() implies (#[trigger] entries@[i]).0
                != cp by {}
            lemma_entries_lookup_none(entries@, cp);
        }
        None
    }

    /// How many blocks the store covers.
    pub fn block_count(&self) -> (n: usize)
        requires
            self.wf(),
        ensures
            n == BLOCK_COUNT,
    {
        self.blocks.len()
    }

    /// Reads the presence bit for a code point inside the covered blocks.
    pub fn bit_is_set(&self, cp: u32) -> (r: bool)
        requires
            self.wf(),
            cp < CODEPOINT_LIMIT,
        ensures
            r == self.spec_bit(cp),
    {
        proof {
            lemma_cp_join(cp);
        }
        let block = (cp >> 8) as usize;
        let idx = cp & 0xFF;
        let word = self.bitmaps[block * 4 + (idx / 64) as usize];
        (word >> ((idx % 64) as u64)) & 1u64 == 1u64
    }

    /// Looks a code point up in the block tables: absent past the covered
    /// blocks, rejected by the presence bitmap without a probe, else found by
    /// binary search in its block.
    pub fn lookup(&self, cp: u32) -> (r: Option<&String>)
        requires
            self.wf(),
        ensures
            match r {
                Some(s) => self.spec_lookup(cp) == Some(s@) && s@.len() > 0 && ascii_seq(s@),
                None => self.spec_lookup(cp) is None,
            },
    {
        proof {
            lemma_cp_join(cp);
        }
        let block = (cp >> 8) as usize;
        if block >= self.blocks.len() {
            return None;
        }
        if !self.bit_is_set(cp) {
            return None;
        }
        let entries = &self.blocks[block];
        let r = Self::find_entry(entries, cp);
        proof {
            if r is Some {
                lemma_entries_lookup_found(entries@, cp);
            }
        }
        r
    }

    /// Looks a code point below 0x100 up in the direct table.
    pub fn lookup_direct(&self, cp: u32) -> (r: Option<&String>)
        requires
            self.wf(),
            cp < 0x100,
        ensures
            match r {
                Some(s) => self.spec_direct(cp) == Some(s@) && s@.len() > 0 && ascii_seq(s@),
                None => self.spec_direct(cp) is None,
            },
    {
        let s = &self.direct[cp as usize];
        if s.as_str().is_empty() {
            None
        } else {
            Some(s)
        }
    }
}

/// Every replacement in the table is at most `k` characters long.
pub open spec fn entries_bounded(s: Seq<(u32, String)>, k: nat) -> bool {
    forall|i: int| 0 <= i < s.len() ==> (#[trigger] s[i]).1@.len() <= k
}

impl MappingStore {
    /// The longest replacement the store holds, in characters; at least 1.
    pub fn max_entry_len(&self) -> (m: usize)
        requires
            self.wf(),
        ensures
            m >= 1,
            forall|cp: u32| (#[trigger] self.spec_lookup(cp)) matches Some(t) ==> t.len() <= m,
            forall|cp: u32|
                cp < 0x100 ==> ((#[trigger] self.spec_direct(cp)) matches Some(t) ==> t.len()
                    <= m),
    {
        let mut m: usize = 1;
        let mut i: usize = 0;
        while i < self.direct.len()
            invariant
                self.wf(),
                m >= 1,
                i <= self.direct@.len(),
                forall|j: int| 0 <= j < i ==> (#[trigger] self.direct@[j])@.len() <= m,
            decreases self.direct@.len() - i,
        {
            let l = self.direct[i].as_str().unicode_len();
            if l > m {
                m = l;
            }
            i = i + 1;
        }
        let mut b: usize = 0;
        while b < self.blocks.len()
            invariant
                self.wf(),
                m >= 1,
                b <= self.blocks@.len(),
                forall|j: int| 0 <= j < 0x100 ==> (#[trigger] self.direct@[j])@.len() <= m,
                forall|j: int|
                    0 <= j < b ==> entries_bounded((#[trigger] self.blocks@[j])@, m as nat),
            decreases self.blocks@.len() - b,
        {
            let n = self.blocks[b].len();
            let mut t: usize = 0;
            while t < n
                invariant
                    self.wf(),
                    m >= 1,
                    b < self.blocks@.len(),
                    n == self.blocks@[b as int]@.len(),
                    t <= n,
                    forall|j: int| 0 <= j < 0x100 ==> (#[trigger] self.direct@[j])@.len() <= m,
                    forall|j: int|
                        0 <= j < b ==> entries_bounded((#[trigger] self.blocks@[j])@, m as nat),
                    forall|i2: int|
                        0 <= i2 < t ==> (#[trigger] self.blocks@[b as int]@[i2]).1@.len() <= m,
                decreases n - t,
            {
                let l = self.blocks[b][t].1.as_str().unicode_len();
                if l > m {
                    m = l;
                }
                t = t + 1;
            }
            b = b + 1;
        }
        proof {
            assert forall|cp: u32| #[trigger] self.spec_lookup(cp) is Some implies (
            self.spec_lookup(cp)->0).len() <= m by {
                if ((cp >> 8) as int) < self.blocks@.len() {
                    lemma_entries_lookup_found(self.blocks@[(cp >> 8) as int]@, cp);
                }
            }
        }
        m
    }
}

impl MappingStore {
    /// Looks a code point up in the override table by binary search.
    pub fn lookup_in_overrides(&self, cp: u32) -> (r: Option<&String>)
        requires
            self.wf(),
        ensures
            match r {
                Some(s) => override_seq(cp) == Some(s@),
                None => override_seq(cp) is None,
            },
    {
        Self::find_entry(&self.overrides, cp)
    }
}

/// The presence bitmap and the block tables agree: a clear bit means the
/// lookup is absent, a set bit means it returns a non-empty ASCII value.
pub proof fn lemma_bitmap_table_consistent(store: &MappingStore, cp: u32)
    requires
        store.wf(),
        cp < CODEPOINT_LIMIT,
    ensures
        !store.spec_bit(cp) ==> store.spec_lookup(cp) is None,
        store.spec_bit(cp) ==> (store.spec_lookup(cp) matches Some(s) && s.len() > 0 && ascii_seq(
            s,
        )),
{
    lemma_cp_join(cp);
    if store.spec_bit(cp) {
        lemma_entries_lookup_found(store.blocks@[(cp >> 8) as int]@, cp);
    }
}

} // verus!
