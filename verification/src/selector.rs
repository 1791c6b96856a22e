//! The string form of the policy selector: turning a caller-supplied policy
//! name into an [`ErrorsPolicy`], rejecting unknown names outright rather
//! than substituting a default silently.

use vstd::prelude::*;
use crate::pipeline::{
    first_unmapped, translit_seq, unidecode_with_policy_result, ErrorsPolicy,
};
use crate::text::str_eq;

verus! {

/// An error of the transliteration surface: a policy name nobody knows, or,
/// under the strict policy, an unmapped code point at the given character
/// index.
#[derive(Debug, Clone, Copy, PartialEq, Eq)]
pub enum UnidecodeError {
    UnknownPolicy,
    Unmapped { index: usize },
}

/// The policy a selector string names: an empty or absent selector is the
/// default policy, `invalid` is the historical alias of `preserve`, and the
/// replacing policy substitutes the given replacement or a question mark.
pub open spec fn spec_selector_policy<'a>(
    errors: Option<&'a str>,
    replace_str: Option<&'a str>,
) -> Option<ErrorsPolicy<'a>> {
    let e = match errors {
        Some(s) => s@,
        None => Seq::<char>::empty(),
    };
    if e == Seq::<char>::empty() {
        Some(ErrorsPolicy::Default)
    } else if e == "ignore"@ {
        Some(ErrorsPolicy::Ignore)
    } else if e == "replace"@ {
        match replace_str {
            Some(r) => Some(ErrorsPolicy::Replace { replace: r }),
            None => Some(ErrorsPolicy::Replace { replace: "?" }),
        }
    } else if e == "preserve"@ || e == "invalid"@ {
        Some(ErrorsPolicy::Preserve)
    } else if e == "strict"@ {
        Some(ErrorsPolicy::Strict)
    } else {
        None
    }
}

/// Parses a policy selector; an unrecognized name fails fast.
pub fn policy_from_selector<'a>(errors: Option<&'a str>, replace_str: Option<&'a str>) -> (r:
    Result<ErrorsPolicy<'a>, UnidecodeError>)
    ensures
        r == match spec_selector_policy(errors, replace_str) {
            Some(p) => Result::<ErrorsPolicy<'a>, UnidecodeError>::Ok(p),
            None => Result::<ErrorsPolicy<'a>, UnidecodeError>::Err(
                UnidecodeError::UnknownPolicy,
            ),
        },
{
    let e: &str = match errors {
        Some(s) => s,
        None => "",
    };
    proof {
        reveal_strlit("");
        assert(""@ =~= Seq::<char>::empty());
    }
    if e.unicode_len() == 0 {
        proof {
            assert(e@ =~= Seq::<char>::empty());
        }
        Ok(ErrorsPolicy::Default)
    } else if str_eq(e, "ignore") {
        Ok(ErrorsPolicy::Ignore)
    } else if str_eq(e, "replace") {
        match replace_str {
            Some(r) => Ok(ErrorsPolicy::Replace { replace: r }),
            None => Ok(ErrorsPolicy::Replace { replace: "?" }),
        }
    } else if str_eq(e, "preserve") || str_eq(e, "invalid") {
        Ok(ErrorsPolicy::Preserve)
    } else if str_eq(e, "strict") {
        Ok(ErrorsPolicy::Strict)
    } else {
        Err(UnidecodeError::UnknownPolicy)
    }
}

/// Transliterates with a policy named by a string: the form the selector
/// takes at a text-typed call boundary. An unknown name is rejected before
/// any processing; under `strict` the error carries the character index of
/// the first unmapped code point.
pub fn unidecode_with_selector<'a>(
    string: &str,
    errors: Option<&'a str>,
    replace_str: Option<&'a str>,
) -> (r: Result<String, UnidecodeError>)
    ensures
        match spec_selector_policy(errors, replace_str) {
            None => r == Result::<String, UnidecodeError>::Err(UnidecodeError::UnknownPolicy),
            Some(p) => match r {
                Ok(s) => (p is Strict ==> first_unmapped(string@) is None) && s@ == translit_seq(
                    p,
                    string@,
                ),
                Err(e) => e matches UnidecodeError::Unmapped { index } && p is Strict
                    && first_unmapped(string@) == Some(index as int),
            },
        },
{
    let policy = match policy_from_selector(errors, replace_str) {
        Ok(p) => p,
        Err(e) => {
            return Err(e);
        },
    };
    match unidecode_with_policy_result(string, policy) {
        Ok(s) => Ok(s),
        Err(idx) => Err(UnidecodeError::Unmapped { index: idx }),
    }
}

} // verus!
