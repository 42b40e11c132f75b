//! Identifier-casing normalization, delegated to the `heck` crate.
//!
//! The exact character-level result of a casing conversion is not restated
//! here; each conversion's result is given a name that the rest of the
//! crate's contracts speak of.

use vstd::prelude::*;

verus! {

/// The snake_case form of a string, as `heck` computes it.
pub uninterp spec fn snake_of(s: Seq<char>) -> Seq<char>;

/// The UpperCamelCase form of a string, as `heck` computes it.
pub uninterp spec fn camel_of(s: Seq<char>) -> Seq<char>;

/// Relies on heck's `ToSnakeCase` for `str`: the result depends on the
/// characters of the input alone.
#[verifier::external_body]
pub(crate) fn to_snake_case(s: &String) -> (r: String)
    ensures
        r@ == snake_of(s@),
{
    heck::ToSnakeCase::to_snake_case(s.as_str())
}

/// Relies on heck's `ToUpperCamelCase` for `str`: the result depends on the
/// characters of the input alone.
#[verifier::external_body]
pub(crate) fn to_camel_case(s: &String) -> (r: String)
    ensures
        r@ == camel_of(s@),
{
    heck::ToUpperCamelCase::to_upper_camel_case(s.as_str())
}

} // verus!
