//! The fees that a shard has collected.

use crate::amount::{copy_of, nat_decimal, nat_parsed, nat_value, parse_decimal, plus, to_decimal};
use crate::shard::stable::StableFeeBalance;
use candid::Nat;
use vstd::prelude::*;

verus! {

/// The fees collected so far. They only grow.
pub struct FeeBalance(pub Nat);

impl FeeBalance {
    /// The fees collected so far, as a number.
    pub open spec fn view(&self) -> nat {
        nat_value(self.0)
    }
}

impl Default for FeeBalance {
    fn default() -> (fees: Self)
        ensures
            fees@ == 0,
    {
        FeeBalance(crate::amount::zero())
    }
}

/// Adds a fee that was charged to the collected fees.
pub fn accept_fee(fees: &mut FeeBalance, value: Nat)
    ensures
        final(fees)@ == old(fees)@ + nat_value(value),
{
    fees.0 = plus(&fees.0, &value);
}

/// The fees collected so far.
pub fn get_accrued_fees(fees: &FeeBalance) -> (total: Nat)
    ensures
        nat_value(total) == fees@,
{
    copy_of(&fees.0)
}

/// The collected fees as they are written to a snapshot: as decimal
/// text, which is read back as the same number.
pub fn export_stable_storage(fees: FeeBalance) -> (stable: StableFeeBalance)
    ensures
        stable.0@ == nat_decimal(fees@),
        nat_parsed(stable.0@) == Some(fees@),
{
    StableFeeBalance(to_decimal(&fees.0))
}

/// The collected fees that a snapshot holds, if its text is a number.
pub fn import_stable_storage(fee_balance: StableFeeBalance) -> (fees: Option<FeeBalance>)
    ensures
        match fees {
            Some(f) => nat_parsed(fee_balance.0@) == Some(f@),
            None => nat_parsed(fee_balance.0@) is None,
        },
{
    match parse_decimal(fee_balance.0.as_str()) {
        Some(n) => Some(FeeBalance(n)),
        None => None,
    }
}

} // verus!
