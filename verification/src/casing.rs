//! Camel-casing of field names, done by the `Inflector` crate.

use vstd::prelude::*;

verus! {

/// The camel-case form that `Inflector` gives a name: the words that it
/// finds in the name joined, the first in lower case, each later one with an
/// initial capital.
pub uninterp spec fn camel_case(name: Seq<char>) -> Seq<char>;

/// Calls `inflector::cases::camelcase::to_camel_case`, which computes its
/// result from the characters of its argument alone. The contract gives that
/// result its name and says nothing more of it.
#[verifier::external_body]
pub(crate) fn camel_cased(name: &str) -> (r: String)
    ensures
        r@ == camel_case(name@),
{
    inflector::cases::camelcase::to_camel_case(name)
}

} // verus!
