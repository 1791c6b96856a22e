//! The library's laws: properties of the transliteration that hold for every
//! input, stated over the pipeline's specification functions and proved once
//! and for all.

use vstd::prelude::*;
use crate::chars::{ascii_char, ascii_seq};
use crate::overrides::{override_entry, override_seq, lemma_override_entry_wf};
use crate::pipeline::{
    emit_char, char_is_mapped, resolve_char, translit_seq, ErrorsPolicy, lemma_ascii_identity,
};
use crate::supplier::lemma_reference_entry_wf;

verus! {

/// Whatever a character resolves to is pure ASCII.
pub proof fn lemma_resolve_ascii(c: char)
    ensures
        (resolve_char(c) matches Some(t) ==> ascii_seq(t)),
{
    lemma_override_entry_wf(c as u32);
    lemma_reference_entry_wf(c);
    if override_seq(c as u32) is Some {
        let ch = override_entry(c as u32)->0;
        assert(seq![ch].len() == 1 && seq![ch][0] == ch);
    } else if ascii_char(c) {
        assert(seq![c].len() == 1 && seq![c][0] == c);
    }
}

/// A policy whose own substitutions are ASCII: the dropping policies always,
/// the replacing policy when its replacement is ASCII.
pub open spec fn ascii_policy(policy: ErrorsPolicy) -> bool {
    ||| policy is Default
    ||| policy is Ignore
    ||| (policy matches ErrorsPolicy::Replace { replace } && ascii_seq(replace@))
}

/// ASCII closure: under an ASCII policy, every character of the output is
/// ASCII, whatever the input.
pub proof fn lemma_ascii_closure(policy: ErrorsPolicy, s: Seq<char>)
    requires
        ascii_policy(policy),
    ensures
        ascii_seq(translit_seq(policy, s)),
    decreases s.len(),
{
    if s.len() == 0 {
    } else {
        lemma_resolve_ascii(s[0]);
        lemma_ascii_closure(policy, s.drop_first());
        let head = emit_char(policy, s[0]);
        let tail = translit_seq(policy, s.drop_first());
        assert(ascii_seq(head));
        assert forall|i: int| 0 <= i < (head + tail).len() implies ascii_char(
            #[trigger] (head + tail)[i],
        ) by {
            if i < head.len() {
                assert((head + tail)[i] == head[i]);
            } else {
                assert((head + tail)[i] == tail[i - head.len()]);
            }
        }
    }
}

/// Idempotence: under an ASCII policy, transliterating the output again
/// returns it unchanged, for every input.
pub proof fn lemma_idempotent(policy: ErrorsPolicy, s: Seq<char>)
    requires
        ascii_policy(policy),
    ensures
        translit_seq(policy, translit_seq(policy, s)) == translit_seq(policy, s),
{
    lemma_ascii_closure(policy, s);
    lemma_ascii_identity(policy, translit_seq(policy, s));
}

/// Priority: a code point with an override entry resolves to the override's
/// value, whatever the direct and block tables hold for it.
pub proof fn lemma_override_priority(c: char)
    requires
        override_entry(c as u32) is Some,
    ensures
        resolve_char(c) == override_seq(c as u32),
{
}

/// Preserve passthrough: an unmapped character under the preserving policies
/// contributes exactly itself to the output.
pub proof fn lemma_preserve_passthrough(policy: ErrorsPolicy, c: char)
    requires
        !char_is_mapped(c),
        policy is Preserve || policy is Invalid,
    ensures
        emit_char(policy, c) == seq![c],
{
}

/// What a policy substitutes for one unmapped character is never longer than
/// `k` when its replacement is at most `k` long.
pub open spec fn policy_bounded(policy: ErrorsPolicy, k: nat) -> bool {
    policy matches ErrorsPolicy::Replace { replace } ==> replace@.len() <= k
}

/// Bounded growth: when every resolution is at most `k` characters and the
/// policy's substitutions are too, the output is at most `k` times the input
/// length.
pub proof fn lemma_output_growth(policy: ErrorsPolicy, s: Seq<char>, k: nat)
    requires
        k >= 1,
        forall|c: char| (#[trigger] resolve_char(c)) matches Some(t) ==> t.len() <= k,
        policy_bounded(policy, k),
    ensures
        translit_seq(policy, s).len() <= k * s.len(),
    decreases s.len(),
{
    if s.len() == 0 {
    } else {
        assert(emit_char(policy, s[0]).len() <= k);
        lemma_output_growth(policy, s.drop_first(), k);
        assert(k * s.len() == k * (s.len() - 1) + k) by (nonlinear_arith);
    }
}

/// In a store that models the reference, a character's block-table answer is
/// its reference entry.
pub proof fn lemma_store_models_at(store: &crate::store::MappingStore, c: char)
    requires
        store.wf(),
        store.models_reference(),
    ensures
        store.spec_lookup(c as u32) == crate::supplier::reference_entry(c),
{
}

/// A store that models the reference bounds every resolution by its longest
/// entry: overrides and ASCII identity are one character, everything else is
/// a stored entry.
pub proof fn lemma_store_bounds_resolve(store: &crate::store::MappingStore, k: nat)
    requires
        k >= 1,
        store.wf(),
        store.models_reference(),
        forall|cp: u32| (#[trigger] store.spec_lookup(cp)) matches Some(t) ==> t.len() <= k,
    ensures
        forall|c: char| (#[trigger] resolve_char(c)) matches Some(t) ==> t.len() <= k,
{
    assert forall|c: char| #[trigger] resolve_char(c) is Some implies (resolve_char(c)->0).len()
        <= k by {
        lemma_override_entry_wf(c as u32);
        if override_seq(c as u32) is Some {
            let ch = override_entry(c as u32)->0;
            assert(seq![ch].len() == 1);
        } else if ascii_char(c) {
            assert(seq![c].len() == 1);
        } else {
            lemma_store_models_at(store, c);
        }
    }
}

} // verus!
