//! Unicode-to-ASCII transliteration with a verified mapping store and
//! policy-driven pipeline.
//!
//! The crate walks an input string, replaces each code point by its ASCII
//! transliteration from a reference mapping, and handles unmapped code
//! points according to a caller-selected policy.

pub mod chars;
pub mod laws;
pub mod ornaments;
pub mod overrides;
pub mod pipeline;
pub mod selector;
pub mod store;
pub mod supplier;
pub mod text;

pub use chars::utf8_len;
pub use ornaments::lookup;
pub use pipeline::ErrorsPolicy;
pub use pipeline::TransliterationResult;
pub use pipeline::transliterate_internal;
pub use pipeline::unidecode;
pub use pipeline::unidecode_rust;
pub use pipeline::unidecode_with_policy;
pub use pipeline::unidecode_with_policy_result;
pub use selector::UnidecodeError;
pub use selector::policy_from_selector;
pub use selector::unidecode_with_selector;
pub use store::MappingStore;
