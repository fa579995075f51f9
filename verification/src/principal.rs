//! Node and user addresses.

use candid::Principal;
use vstd::prelude::*;

verus! {

/// `candid::Principal`, an address of at most 29 bytes. Opaque here: what it
/// holds is read through [`principal_bytes`].
#[verifier::external_type_specification]
#[verifier::external_body]
pub struct ExPrincipal(Principal);

/// The significant bytes of an address, as `Principal::as_slice` hands them out.
pub uninterp spec fn principal_bytes(p: Principal) -> Seq<u8>;

/// The textual form of the address with the given bytes, as
/// `Principal::to_text` computes it (checksum, base32, groups of five).
pub uninterp spec fn principal_text(bytes: Seq<u8>) -> Seq<char>;

/// `Principal::as_slice`: the significant bytes of the address, without
/// the padding behind them.
#[verifier::external_body]
pub(crate) fn as_slice<'a>(p: &'a Principal) -> (bytes: &'a [u8])
    ensures
        bytes@ == principal_bytes(*p),
{
    p.as_slice()
}

/// `Principal::to_text`: the text depends on the significant bytes alone.
#[verifier::external_body]
pub(crate) fn to_text(p: &Principal) -> (text: String)
    ensures
        text@ == principal_text(principal_bytes(*p)),
{
    p.to_text()
}

/// `Principal::anonymous`: the address made of the single byte 4.
#[verifier::external_body]
pub(crate) fn anonymous() -> (p: Principal)
    ensures
        principal_bytes(p) == seq![4u8],
{
    Principal::anonymous()
}

/// Whether two addresses are the same address: they hold the same bytes.
pub fn same_principal(a: &Principal, b: &Principal) -> (same: bool)
    ensures
        same == (principal_bytes(*a) == principal_bytes(*b)),
{
    let x = as_slice(a);
    let y = as_slice(b);
    if x.len() != y.len() {
        return false;
    }
    let mut i: usize = 0;
    while i < x.len()
        invariant
            i <= x.len(),
            x.len() == y.len(),
            x@ == principal_bytes(*a),
            y@ == principal_bytes(*b),
            forall|j: int| 0 <= j < i ==> x@[j] == y@[j],
        decreases x.len() - i,
    {
        if x[i] != y[i] {
            return false;
        }
        i += 1;
    }
    assert(x@ =~= y@);
    true
}

} // verus!
