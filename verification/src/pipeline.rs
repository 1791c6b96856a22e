//! The transliteration pipeline: an ASCII fast path, a sizing pass, and an
//! emission pass that resolves each code point through the override table,
//! the direct table and the block tables, applying the selected policy to
//! unmapped code points.

use vstd::prelude::*;
use vstd::string::{StringExecFns, StrSliceExecFns};
use crate::chars::{ascii_char, ascii_seq};
use crate::overrides::{override_seq, lemma_override_entry_wf};
use crate::store::MappingStore;
use crate::supplier::reference_entry;
use crate::text::{chars_of, push_char, string_with_capacity};

verus! {

/// Error-handling policy for unmapped code points, fixed for a whole call.
#[derive(Copy, Clone, Debug, PartialEq, Eq)]
pub enum ErrorsPolicy<'a> {
    /// Drop the code point.
    Default,
    /// Drop the code point.
    Ignore,
    /// Substitute a caller-supplied replacement string.
    Replace { replace: &'a str },
    /// Copy the original code point through unchanged.
    Preserve,
    /// Halt at the first unmapped code point and report its character index.
    Strict,
    /// Historical alias of `Preserve`.
    Invalid,
}

/// A transliteration outcome: the accumulated output and, under the strict
/// policy, the character index of the first unmapped code point.
pub struct TransliterationResult {
    pub out: String,
    pub error_index: Option<usize>,
}

/// How one character resolves: the override table first, then ASCII
/// identity, then the reference mapping held by the store.
pub open spec fn resolve_char(c: char) -> Option<Seq<char>> {
    match override_seq(c as u32) {
        Some(s) => Some(s),
        None => if ascii_char(c) {
            Some(seq![c])
        } else {
            reference_entry(c)
        },
    }
}

/// Whether a character has a transliteration.
pub open spec fn char_is_mapped(c: char) -> bool {
    resolve_char(c) is Some
}

/// What one character contributes to the output under a policy; under the
/// strict policy an unmapped character contributes nothing because emission
/// stops there.
pub open spec fn emit_char(policy: ErrorsPolicy, c: char) -> Seq<char> {
    match resolve_char(c) {
        Some(s) => s,
        None => match policy {
            ErrorsPolicy::Replace { replace } => replace@,
            ErrorsPolicy::Preserve | ErrorsPolicy::Invalid => seq![c],
            _ => Seq::empty(),
        },
    }
}

/// The transliteration of a character sequence: each character's
/// contribution, concatenated in order.
pub open spec fn translit_seq(policy: ErrorsPolicy, s: Seq<char>) -> Seq<char>
    decreases s.len(),
{
    if s.len() == 0 {
        Seq::empty()
    } else {
        emit_char(policy, s[0]) + translit_seq(policy, s.drop_first())
    }
}

/// The character index of the first unmapped character, if any.
pub open spec fn first_unmapped(s: Seq<char>) -> Option<int>
    decreases s.len(),
{
    if s.len() == 0 {
        None
    } else if !char_is_mapped(s[0]) {
        Some(0)
    } else {
        match first_unmapped(s.drop_first()) {
            Some(i) => Some(i + 1),
            None => None,
        }
    }
}

/// Extending the input by one character appends that character's
/// contribution to the output.
pub proof fn lemma_translit_push(policy: ErrorsPolicy, s: Seq<char>, c: char)
    ensures
        translit_seq(policy, s.push(c)) == translit_seq(policy, s) + emit_char(policy, c),
    decreases s.len(),
{
    let t = s.push(c);
    if s.len() == 0 {
        assert(t[0] == c);
        assert(t.drop_first() =~= Seq::<char>::empty());
        assert(translit_seq(policy, Seq::<char>::empty()) == Seq::<char>::empty());
        assert(translit_seq(policy, t) == emit_char(policy, c) + Seq::<char>::empty());
        assert(translit_seq(policy, t) =~= translit_seq(policy, s) + emit_char(policy, c));
    } else {
        assert(t[0] == s[0]);
        assert(t.drop_first() =~= s.drop_first().push(c));
        lemma_translit_push(policy, s.drop_first(), c);
        assert(translit_seq(policy, t) =~= translit_seq(policy, s) + emit_char(policy, c));
    }
}

/// A sequence whose first `i` characters are mapped and whose `i`-th is not
/// fails exactly at index `i`.
pub proof fn lemma_first_unmapped_at(s: Seq<char>, i: int)
    requires
        0 <= i < s.len(),
        forall|j: int| 0 <= j < i ==> char_is_mapped(#[trigger] s[j]),
        !char_is_mapped(s[i]),
    ensures
        first_unmapped(s) == Some(i),
    decreases i,
{
    if i == 0 {
    } else {
        assert(char_is_mapped(s[0]));
        assert forall|j: int| 0 <= j < i - 1 implies char_is_mapped(
            #[trigger] s.drop_first()[j],
        ) by {
            assert(s.drop_first()[j] == s[j + 1]);
        }
        assert(s.drop_first()[i - 1] == s[i]);
        lemma_first_unmapped_at(s.drop_first(), i - 1);
    }
}

/// A sequence of mapped characters has no failure index.
pub proof fn lemma_first_unmapped_none(s: Seq<char>)
    requires
        forall|j: int| 0 <= j < s.len() ==> char_is_mapped(#[trigger] s[j]),
    ensures
        first_unmapped(s) is None,
    decreases s.len(),
{
    if s.len() > 0 {
        assert forall|j: int| 0 <= j < s.drop_first().len() implies char_is_mapped(
            #[trigger] s.drop_first()[j],
        ) by {
            assert(s.drop_first()[j] == s[j + 1]);
        }
        lemma_first_unmapped_none(s.drop_first());
    }
}

/// An ASCII character resolves to itself.
pub proof fn lemma_ascii_resolves_identity(c: char)
    requires
        ascii_char(c),
    ensures
        resolve_char(c) == Some(seq![c]),
{
    lemma_override_entry_wf(c as u32);
}

/// On all-ASCII input every policy is the identity and nothing is unmapped.
pub proof fn lemma_ascii_identity(policy: ErrorsPolicy, s: Seq<char>)
    requires
        ascii_seq(s),
    ensures
        translit_seq(policy, s) == s,
        first_unmapped(s) is None,
    decreases s.len(),
{
    if s.len() == 0 {
        assert(translit_seq(policy, s) =~= s);
    } else {
        lemma_ascii_resolves_identity(s[0]);
        assert forall|j: int| 0 <= j < s.drop_first().len() implies ascii_char(
            #[trigger] s.drop_first()[j],
        ) by {
            assert(s.drop_first()[j] == s[j + 1]);
        }
        lemma_ascii_identity(policy, s.drop_first());
        assert(translit_seq(policy, s) =~= seq![s[0]] + s.drop_first());
        assert(seq![s[0]] + s.drop_first() =~= s);
    }
}

/// What one character contributes to the sizing pass: the length of its
/// resolution, the substitution's length, or the UTF-8 width of a preserved
/// character.
pub open spec fn estimate_contribution(policy: ErrorsPolicy, c: char) -> nat {
    match resolve_char(c) {
        Some(s) => s.len(),
        None => match policy {
            ErrorsPolicy::Replace { replace } => replace@.len(),
            ErrorsPolicy::Preserve | ErrorsPolicy::Invalid => crate::chars::spec_utf8_len(c),
            _ => 0,
        },
    }
}

/// The sizing pass over a whole sequence.
pub open spec fn spec_estimate(policy: ErrorsPolicy, s: Seq<char>) -> nat
    decreases s.len(),
{
    if s.len() == 0 {
        0
    } else {
        estimate_contribution(policy, s[0]) + spec_estimate(policy, s.drop_first())
    }
}

/// Extending the input by one character adds that character's contribution
/// to the estimate.
pub proof fn lemma_estimate_push(policy: ErrorsPolicy, s: Seq<char>, c: char)
    ensures
        spec_estimate(policy, s.push(c)) == spec_estimate(policy, s) + estimate_contribution(
            policy,
            c,
        ),
    decreases s.len(),
{
    let t = s.push(c);
    if s.len() == 0 {
        assert(t[0] == c);
        assert(t.drop_first() =~= Seq::<char>::empty());
        assert(spec_estimate(policy, Seq::<char>::empty()) == 0);
    } else {
        assert(t[0] == s[0]);
        assert(t.drop_first() =~= s.drop_first().push(c));
        lemma_estimate_push(policy, s.drop_first(), c);
    }
}

/// Resolves one non-ASCII character: the override table, then the direct
/// table below 0x100, then the block tables.
fn resolve_nonascii<'a>(store: &'a MappingStore, c: char) -> (r: Option<&'a str>)
    requires
        store.wf(),
        store.models_reference(),
        !ascii_char(c),
    ensures
        match r {
            Some(t) => resolve_char(c) == Some(t@) && ascii_seq(t@),
            None => resolve_char(c) is None,
        },
{
    let cp = c as u32;
    match store.lookup_in_overrides(cp) {
        Some(s) => {
            proof {
                lemma_override_entry_wf(cp);
            }
            Some(s.as_str())
        },
        None => {
            if cp < 0x100 {
                match store.lookup_direct(cp) {
                    Some(s) => Some(s.as_str()),
                    None => None,
                }
            } else {
                match store.lookup(cp) {
                    Some(s) => Some(s.as_str()),
                    None => None,
                }
            }
        },
    }
}

/// Pass one: the output size in bytes, saturating at the machine limit; it
/// only pre-sizes the output buffer.
fn estimate_len(store: &MappingStore, cs: &Vec<char>, policy: ErrorsPolicy<'_>) -> (n: usize)
    requires
        store.wf(),
        store.models_reference(),
    ensures
        ({
            let e = spec_estimate(policy, cs@);
            if e <= usize::MAX {
                n == e
            } else {
                n == usize::MAX
            }
        }),
{
    let mut est: usize = 0;
    let mut i: usize = 0;
    while i < cs.len()
        invariant
            store.wf(),
            store.models_reference(),
            i <= cs@.len(),
            ({
                let e = spec_estimate(policy, cs@.take(i as int));
                if e <= usize::MAX {
                    est == e
                } else {
                    est == usize::MAX
                }
            }),
        decreases cs@.len() - i,
    {
        let c = cs[i];
        let add: usize = if (c as u32) < 0x80 {
            proof {
                lemma_ascii_resolves_identity(c);
            }
            1
        } else {
            match resolve_nonascii(store, c) {
                Some(t) => t.unicode_len(),
                None => match policy {
                    ErrorsPolicy::Replace { replace } => replace.unicode_len(),
                    ErrorsPolicy::Preserve | ErrorsPolicy::Invalid => crate::chars::utf8_len(c),
                    _ => 0,
                },
            }
        };
        proof {
            assert(add == estimate_contribution(policy, cs@[i as int]));
            assert(cs@.take(i + 1) =~= cs@.take(i as int).push(cs@[i as int]));
            lemma_estimate_push(policy, cs@.take(i as int), cs@[i as int]);
        }
        est = if est > usize::MAX - add {
            usize::MAX
        } else {
            est + add
        };
        i = i + 1;
    }
    proof {
        assert(cs@.take(cs@.len() as int) =~= cs@);
    }
    est
}

/// Walks the input once and emits each character's contribution; under the
/// strict policy, stops at the first unmapped code point and reports its
/// character index along with the output accumulated so far.
pub fn transliterate_internal(store: &MappingStore, input: &str, policy: ErrorsPolicy<'_>) -> (r:
    TransliterationResult)
    requires
        store.wf(),
        store.models_reference(),
    ensures
        !(policy is Strict) ==> r.error_index is None && r.out@ == translit_seq(policy, input@),
        policy is Strict ==> match first_unmapped(input@) {
            Some(i) => 0 <= i <= usize::MAX && r.error_index == Some(i as usize) && r.out@
                == translit_seq(policy, input@.take(i)),
            None => r.error_index is None && r.out@ == translit_seq(policy, input@),
        },
{
    if input.is_ascii() {
        let out = String::from_str(input);
        proof {
            crate::chars::lemma_ascii_seq_is_ascii_chars(input@);
            lemma_ascii_identity(policy, input@);
        }
        return TransliterationResult { out, error_index: None };
    }
    let cs = chars_of(input);
    let mut estimated = estimate_len(store, &cs, policy);
    if estimated == 0 {
        estimated = input.len();
    }
    let mut out = string_with_capacity(estimated);
    let mut i: usize = 0;
    while i < cs.len()
        invariant
            store.wf(),
            store.models_reference(),
            cs@ == input@,
            i <= cs@.len(),
            out@ == translit_seq(policy, cs@.take(i as int)),
            policy is Strict ==> forall|j: int| 0 <= j < i ==> char_is_mapped(#[trigger] cs@[j]),
        decreases cs@.len() - i,
    {
        let c = cs[i];
        let ghost pre = out@;
        let cp = c as u32;
        if cp < 0x80 {
            proof {
                lemma_ascii_resolves_identity(c);
            }
            push_char(&mut out, c);
            proof {
                assert(out@ =~= pre + emit_char(policy, c));
            }
        } else {
            match resolve_nonascii(store, c) {
                Some(t) => {
                    out.append(t);
                },
                None => {
                    match policy {
                        ErrorsPolicy::Default | ErrorsPolicy::Ignore => {
                            proof {
                                assert(out@ =~= pre + emit_char(policy, c));
                            }
                        },
                        ErrorsPolicy::Replace { replace } => {
                            out.append(replace);
                        },
                        ErrorsPolicy::Preserve | ErrorsPolicy::Invalid => {
                            push_char(&mut out, c);
                            proof {
                                assert(out@ =~= pre + emit_char(policy, c));
                            }
                        },
                        ErrorsPolicy::Strict => {
                            proof {
                                lemma_first_unmapped_at(cs@, i as int);
                            }
                            return TransliterationResult { out, error_index: Some(i) };
                        },
                    }
                },
            }
        }
        proof {
            assert(out@ == pre + emit_char(policy, cs@[i as int]));
            assert(cs@.take(i + 1) =~= cs@.take(i as int).push(cs@[i as int]));
            lemma_translit_push(policy, cs@.take(i as int), cs@[i as int]);
        }
        i = i + 1;
    }
    proof {
        assert(cs@.take(cs@.len() as int) =~= cs@);
        if policy is Strict {
            lemma_first_unmapped_none(cs@);
        }
    }
    TransliterationResult { out, error_index: None }
}

/// Transliterates under the given policy, building the mapping store for the
/// call; a caller with many inputs should build one [`MappingStore`] and use
/// [`transliterate_internal`] instead. Under the strict policy the partial
/// output up to the failure is returned.
pub fn unidecode_with_policy(input: &str, policy: ErrorsPolicy<'_>) -> (r: String)
    ensures
        !(policy is Strict) ==> r@ == translit_seq(policy, input@),
        policy is Strict ==> match first_unmapped(input@) {
            Some(i) => r@ == translit_seq(policy, input@.take(i)),
            None => r@ == translit_seq(policy, input@),
        },
{
    let store = MappingStore::build();
    let r = transliterate_internal(&store, input, policy);
    r.out
}

/// Transliterates under the given policy; `Err` carries the character index
/// of the first unmapped code point, and comes exactly under the strict
/// policy on an input with one.
pub fn unidecode_with_policy_result(input: &str, policy: ErrorsPolicy<'_>) -> (r: Result<
    String,
    usize,
>)
    ensures
        match r {
            Ok(s) => (policy is Strict ==> first_unmapped(input@) is None) && s@ == translit_seq(
                policy,
                input@,
            ),
            Err(idx) => policy is Strict && first_unmapped(input@) == Some(idx as int),
        },
{
    let store = MappingStore::build();
    let r = transliterate_internal(&store, input, policy);
    match r.error_index {
        Some(idx) => Err(idx),
        None => Ok(r.out),
    }
}

/// Transliterates with the default policy: unmapped code points are dropped.
pub fn unidecode(input: &str) -> (r: String)
    ensures
        r@ == translit_seq(ErrorsPolicy::Default, input@),
{
    unidecode_with_policy(input, ErrorsPolicy::Default)
}

/// Older name of [`unidecode`], kept for its callers.
pub fn unidecode_rust(input: &str) -> (r: String)
    ensures
        r@ == translit_seq(ErrorsPolicy::Default, input@),
{
    unidecode(input)
}

} // verus!
