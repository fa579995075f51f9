//! Moving value between the ledger and the token it wraps.
//!
//! The underlying token is another node. What is decided here is how much
//! to ask of it, and what its answer does to the balances.

use crate::amount::{at_most, copy_of, minus, nat_value};
use crate::principal::principal_bytes;
use crate::shard::balances::{
    balance_in, credit, debit, decrease_balance, increase_balance, ShardBalancesState,
    ShardBalancesView,
};
use crate::shard::fees::{accept_fee, FeeBalance};
use crate::shard::management::{get_fee, ManagerContractData};
use crate::supply::total;
use crate::types::{Result, TxError};
use candid::{Nat, Principal};
use vstd::prelude::*;

verus! {

/// How much of the underlying token to take from a caller that wants to
/// wrap `amount`, has allowed the shard to take `allowance`, and pays the
/// underlying token's `fee` out of the amount. An allowance below the
/// amount is an error, and so is an amount below the fee.
pub fn deposit_token(allowance: &Nat, amount: &Nat, fee: &Nat) -> (r: Result<Nat>)
    ensures
        nat_value(*allowance) < nat_value(*amount) || nat_value(*amount) < nat_value(*fee) ==> r
            == Err::<Nat, TxError>(TxError::InsufficientBalance),
        nat_value(*allowance) >= nat_value(*amount) && nat_value(*amount) >= nat_value(*fee) ==> (
        r matches Ok(n) && nat_value(n) == nat_value(*amount) - nat_value(*fee)),
{
    if !at_most(amount, allowance) {
        return Err(TxError::InsufficientBalance);
    }
    if !at_most(fee, amount) {
        return Err(TxError::InsufficientBalance);
    }
    Ok(minus(amount, fee))
}

/// Settles a deposit of the underlying token: where the token was taken
/// from the caller, the caller has as much more on the shard; where it
/// was not, nothing changes and the failure is told.
pub fn wrap(state: &mut ShardBalancesState, caller: Principal, deposit: Nat, transferred: bool) -> (r:
    Result<()>)
    requires
        old(state).wf(),
    ensures
        final(state).wf(),
        r == if transferred {
            Ok::<(), TxError>(())
        } else {
            Err(TxError::UnderlyingTransferFailure)
        },
        transferred ==> final(state)@ == (ShardBalancesView {
            balances: credit(old(state)@.balances, principal_bytes(caller), nat_value(deposit)),
            ..old(state)@
        }) && total(final(state)@.balances) == total(old(state)@.balances) + nat_value(deposit),
        !transferred ==> *final(state) == *old(state),
{
    if transferred {
        increase_balance(state, caller, deposit);
        Ok(())
    } else {
        Err(TxError::UnderlyingTransferFailure)
    }
}

/// Value that has left the caller's account and is to be paid out in the
/// underlying token.
pub struct PendingWithdrawal {
    caller: Principal,
    amount: Nat,
}

impl PendingWithdrawal {
    /// The account that the value came from, and the value.
    pub closed spec fn view(&self) -> (Seq<u8>, nat) {
        (principal_bytes(self.caller), nat_value(self.amount))
    }
}

/// The first half of a withdrawal: the amount, which has to exceed the
/// fee, leaves the caller's account; the fee goes to the collected fees,
/// the rest is to be paid out. A caller that holds less than the amount,
/// or an amount that does not exceed the fee, is an error, and nothing
/// changes.
pub fn unwrap(
    state: &mut ShardBalancesState,
    fees: &mut FeeBalance,
    data: &ManagerContractData,
    caller: Principal,
    amount: Nat,
) -> (r: Result<PendingWithdrawal>)
    requires
        old(state).wf(),
    ensures
        final(state).wf(),
        nat_value(amount) <= data@.fee || balance_in(
            old(state)@.balances,
            principal_bytes(caller),
        ) < nat_value(amount) ==> r == Err::<PendingWithdrawal, TxError>(
            TxError::InsufficientBalance,
        ) && *final(state) == *old(state) && *final(fees) == *old(fees),
        nat_value(amount) > data@.fee && balance_in(old(state)@.balances, principal_bytes(caller))
            >= nat_value(amount) ==> (r matches Ok(p) && p@ == (
            principal_bytes(caller),
            (nat_value(amount) - data@.fee) as nat,
        )) && final(state)@ == (ShardBalancesView {
            balances: debit(old(state)@.balances, principal_bytes(caller), nat_value(amount)),
            ..old(state)@
        }) && final(fees)@ == old(fees)@ + data@.fee && total(final(state)@.balances) + nat_value(
            amount,
        ) == total(old(state)@.balances),
{
    let fee = get_fee(data);
    if at_most(&amount, &fee) {
        return Err(TxError::InsufficientBalance);
    }
    match decrease_balance(state, caller, copy_of(&amount)) {
        Ok(()) => {},
        Err(e) => {
            return Err(e);
        },
    }
    let rest = minus(&amount, &fee);
    accept_fee(fees, fee);
    Ok(PendingWithdrawal { caller, amount: rest })
}

/// How much of the underlying token to send for a withdrawal, of which
/// the underlying token takes its own `fee`. Where the fee exceeds the
/// value nothing can be sent.
pub fn withdraw_token(pending: &PendingWithdrawal, fee: &Nat) -> (r: Option<Nat>)
    ensures
        nat_value(*fee) > pending@.1 ==> r is None,
        nat_value(*fee) <= pending@.1 ==> (r matches Some(n) && nat_value(n) == pending@.1
            - nat_value(*fee)),
{
    if at_most(fee, &pending.amount) {
        Some(minus(&pending.amount, fee))
    } else {
        None
    }
}

/// The second half of a withdrawal: where the underlying token was sent,
/// nothing changes; where it was not, the caller has the value back, but
/// not the fee, and the failure is told.
pub fn complete_unwrap(state: &mut ShardBalancesState, pending: PendingWithdrawal, sent: bool) -> (r:
    Result<()>)
    requires
        old(state).wf(),
    ensures
        final(state).wf(),
        r == if sent {
            Ok::<(), TxError>(())
        } else {
            Err(TxError::UnderlyingTransferFailure)
        },
        sent ==> *final(state) == *old(state),
        !sent ==> final(state)@ == (ShardBalancesView {
            balances: credit(old(state)@.balances, pending@.0, pending@.1),
            ..old(state)@
        }) && total(final(state)@.balances) == total(old(state)@.balances) + pending@.1,
{
    if sent {
        Ok(())
    } else {
        increase_balance(state, pending.caller, pending.amount);
        Err(TxError::UnderlyingTransferFailure)
    }
}

} // verus!
