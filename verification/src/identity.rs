//! Caller and recipient identities.
//!
//! An identity is a `candid::Principal`. The library never looks inside one: it copies
//! identities and asks whether two of them are the same.

use candid::Principal;
use vstd::prelude::*;

verus! {

/// `candid::Principal`, carried as an opaque value.
#[verifier::external_type_specification]
#[verifier::external_body]
pub struct ExPrincipal(Principal);

/// `Principal::clone`. A `Principal` is `Copy`; assumed: the clone is the same value.
pub assume_specification[ <Principal as Clone>::clone ](p: &Principal) -> (r: Principal)
    ensures
        r == *p,
;

/// `Principal == Principal`. The comparison is the derived field-by-field one, so it is
/// assumed to hold exactly when the two values are the same value.
#[verifier::external_body]
pub(crate) fn same_principal(a: &Principal, b: &Principal) -> (r: bool)
    ensures
        r == (*a == *b),
{
    a == b
}

} // verus!
