//! Token amounts.
//!
//! Amounts are unbounded: they are `candid::Nat` values (the ledger's `NumTokens`).
//! Verus cannot look inside such a value, so this module gives the number it holds a
//! name, [`nat_value`], and states, without proof, what `candid`'s arithmetic and
//! comparison do to that number. Everything else in the crate is proved on top of
//! these statements.

use candid::Nat;
use vstd::prelude::*;

verus! {

/// `candid::Nat`, an arbitrary-precision unsigned integer, carried as an opaque value.
#[verifier::external_type_specification]
#[verifier::external_body]
pub struct ExNat(Nat);

/// The natural number that a `candid::Nat` holds.
pub uninterp spec fn nat_value(n: Nat) -> nat;

/// `Nat::from(u64)`. Assumed: the result holds exactly the given integer.
#[verifier::external_body]
pub(crate) fn tokens_from_u64(x: u64) -> (r: Nat)
    ensures
        nat_value(r) == x,
{
    Nat::from(x)
}

/// `Nat::clone`. Assumed: the clone holds the same number as the value it was made from.
pub assume_specification[ <Nat as Clone>::clone ](x: &Nat) -> (r: Nat)
    ensures
        nat_value(r) == nat_value(*x),
;

/// `Nat += Nat`. Assumed: afterwards the target holds the sum of what it held and the
/// amount.
#[verifier::external_body]
pub(crate) fn tokens_add_assign(target: &mut Nat, amount: Nat)
    ensures
        nat_value(*final(target)) == nat_value(*old(target)) + nat_value(amount),
{
    *target += amount;
}

/// `Nat -= Nat`. The subtraction of the underlying big integers panics when the amount
/// exceeds the target, so that case is excluded. Assumed: afterwards the target holds
/// the difference.
#[verifier::external_body]
pub(crate) fn tokens_sub_assign(target: &mut Nat, amount: Nat)
    requires
        nat_value(amount) <= nat_value(*old(target)),
    ensures
        nat_value(*final(target)) == nat_value(*old(target)) - nat_value(amount),
{
    *target -= amount;
}

/// `Nat * Nat`. Assumed: the result holds the product.
#[verifier::external_body]
pub(crate) fn tokens_mul(a: Nat, b: Nat) -> (r: Nat)
    ensures
        nat_value(r) == nat_value(a) * nat_value(b),
{
    a * b
}

/// `Nat / Nat`. The division of the underlying big integers panics on a zero divisor,
/// so that case is excluded. Assumed: the result holds the quotient rounded down.
#[verifier::external_body]
pub(crate) fn tokens_div(a: Nat, b: Nat) -> (r: Nat)
    requires
        nat_value(b) > 0,
    ensures
        nat_value(r) == nat_value(a) / nat_value(b),
{
    a / b
}

/// `Nat <= Nat`. Assumed: the comparison is that of the numbers held.
#[verifier::external_body]
pub(crate) fn tokens_le(a: &Nat, b: &Nat) -> (r: bool)
    ensures
        r == (nat_value(*a) <= nat_value(*b)),
{
    a <= b
}

} // verus!
