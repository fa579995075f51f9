//! Token amounts: natural numbers without an upper bound.

use candid::Nat;
use vstd::prelude::*;

verus! {

/// `candid::Nat`, a natural number of any size. Opaque here: the number it
/// holds is read through [`nat_value`].
#[verifier::external_type_specification]
#[verifier::external_body]
pub struct ExNat(Nat);

/// The number that an amount holds.
pub uninterp spec fn nat_value(n: Nat) -> nat;

/// `Nat::from(u64)`: the amount that holds the given number.
#[verifier::external_body]
pub(crate) fn from_u64(v: u64) -> (n: Nat)
    ensures
        nat_value(n) == v,
{
    Nat::from(v)
}

/// `Nat::clone`: an amount that holds the same number.
#[verifier::external_body]
pub(crate) fn copy_of(n: &Nat) -> (m: Nat)
    ensures
        nat_value(m) == nat_value(*n),
{
    n.clone()
}

/// `Nat + Nat`: the sum, which never overflows.
#[verifier::external_body]
pub(crate) fn plus(a: &Nat, b: &Nat) -> (n: Nat)
    ensures
        nat_value(n) == nat_value(*a) + nat_value(*b),
{
    a.clone() + b.clone()
}

/// `Nat - Nat`: the difference. The outside subtraction panics where the
/// result would be negative, so that case is left out.
#[verifier::external_body]
pub(crate) fn minus(a: &Nat, b: &Nat) -> (n: Nat)
    requires
        nat_value(*a) >= nat_value(*b),
    ensures
        nat_value(n) == nat_value(*a) - nat_value(*b),
{
    a.clone() - b.clone()
}

/// `Nat <= Nat`: the order of the numbers.
#[verifier::external_body]
pub(crate) fn at_most(a: &Nat, b: &Nat) -> (le: bool)
    ensures
        le == (nat_value(*a) <= nat_value(*b)),
{
    a <= b
}

/// The decimal text of a number as `Nat`'s `to_string` writes it: the
/// digits in groups of three, with `_` between the groups.
pub uninterp spec fn nat_decimal(n: nat) -> Seq<char>;

/// The number that a text stands for where `Nat`'s `from_str` reads it as
/// a number, and `None` where it does not.
pub uninterp spec fn nat_parsed(text: Seq<char>) -> Option<nat>;

/// `candid::Error`, with which a text that is no number is turned down.
#[verifier::external_type_specification]
#[verifier::external_body]
pub struct ExCandidError(candid::Error);

/// `Nat::to_string`: the text depends on the number alone, and it is a
/// text that `Nat::from_str` reads as that number: a digit first, then
/// digits and `_`, which the reading skips.
#[verifier::external_body]
pub(crate) fn to_decimal(n: &Nat) -> (text: String)
    ensures
        text@ == nat_decimal(nat_value(*n)),
        nat_parsed(text@) == Some(nat_value(*n)),
{
    n.to_string()
}

/// `Nat::from_str`: whether the text is read, and as which number,
/// depends on the text alone.
#[verifier::external_body]
pub(crate) fn from_decimal(text: &str) -> (r: Result<Nat, candid::Error>)
    ensures
        match r {
            Ok(n) => nat_parsed(text@) == Some(nat_value(n)),
            Err(_) => nat_parsed(text@) is None,
        },
{
    text.parse::<Nat>()
}

/// The amount that a decimal text stands for, if it stands for one.
pub fn parse_decimal(text: &str) -> (r: Option<Nat>)
    ensures
        match r {
            Some(n) => nat_parsed(text@) == Some(nat_value(n)),
            None => nat_parsed(text@) is None,
        },
{
    match from_decimal(text) {
        Ok(n) => Some(n),
        Err(_) => None,
    }
}

/// The amount zero.
pub fn zero() -> (n: Nat)
    ensures
        nat_value(n) == 0,
{
    from_u64(0)
}

} // verus!
