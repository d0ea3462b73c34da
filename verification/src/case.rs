//! Names in the case conventions of the target languages, as the `heck`
//! crate converts them.

use vstd::prelude::*;
use heck::{ToLowerCamelCase, ToSnakeCase, ToUpperCamelCase};

verus! {

/// A name in `snake_case`.
pub uninterp spec fn snake_case(name: Seq<char>) -> Seq<char>;

/// A name in `lowerCamelCase`.
pub uninterp spec fn lower_camel_case(name: Seq<char>) -> Seq<char>;

/// A name in `UpperCamelCase`.
pub uninterp spec fn upper_camel_case(name: Seq<char>) -> Seq<char>;

/// `ToSnakeCase::to_snake_case` of the `heck` crate on `str`: the words of
/// the name in lower case, joined by underscores.
#[verifier::external_body]
pub(crate) fn to_snake_case(name: &str) -> (r: String)
    ensures
        r@ == snake_case(name@),
{
    name.to_snake_case()
}

/// `ToLowerCamelCase::to_lower_camel_case` of the `heck` crate on `str`:
/// the words of the name joined, each but the first capitalised.
#[verifier::external_body]
pub(crate) fn to_lower_camel_case(name: &str) -> (r: String)
    ensures
        r@ == lower_camel_case(name@),
{
    name.to_lower_camel_case()
}

/// `ToUpperCamelCase::to_upper_camel_case` of the `heck` crate on `str`:
/// the words of the name joined, each capitalised.
#[verifier::external_body]
pub(crate) fn to_upper_camel_case(name: &str) -> (r: String)
    ensures
        r@ == upper_camel_case(name@),
{
    name.to_upper_camel_case()
}

} // verus!
