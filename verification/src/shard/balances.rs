//! The balances of a shard and the transfers between accounts.

use crate::address_set::{set_of, AddressSet};
use crate::amount::{
    at_most, copy_of, minus, nat_decimal, nat_parsed, nat_value, parse_decimal, plus, to_decimal,
    zero,
};
use crate::shard::stable::StableShardBalances;
use crate::principal::{principal_bytes, principal_text, same_principal, to_text};
use crate::shard::fees::{accept_fee, FeeBalance};
use crate::shard::management::{assert_is_manager_contract, ManagerContractData};
use crate::supply::{lemma_total_empty, lemma_total_insert, total, Balances};
use crate::table::{
    lemma_map_of_push, lemma_prefix_map_all, lemma_prefix_map_step, map_of, prefix_map, Table,
};
use crate::types::{NotificationView, Result, ShardedTransferNotification, TxError};
use candid::{Nat, Principal};
use vstd::prelude::*;

verus! {

/// The accounts of a shard with what each holds, and for each account the
/// addresses that may spend from it.
pub struct ShardBalancesState {
    balances: Table<Nat>,
    spenders: Table<AddressSet>,
}

/// The accounts of a shard as plain values.
pub ghost struct ShardBalancesView {
    pub balances: Balances,
    pub spenders: Map<Seq<u8>, Set<Seq<u8>>>,
}

/// What the account holds; an address without an account holds nothing.
pub open spec fn balance_in(b: Balances, who: Seq<u8>) -> nat {
    if b.contains_key(who) {
        b[who]
    } else {
        0
    }
}

/// The balances after `amount` was added to what `who` holds.
pub open spec fn credit(b: Balances, who: Seq<u8>, amount: nat) -> Balances {
    b.insert(who, balance_in(b, who) + amount)
}

/// The balances after `amount` was taken from what `who` holds, which is
/// at least `amount`.
pub open spec fn debit(b: Balances, who: Seq<u8>, amount: nat) -> Balances {
    b.insert(who, (balance_in(b, who) - amount) as nat)
}

/// The addresses that may spend from the account of `owner`.
pub open spec fn spenders_of(s: Map<Seq<u8>, Set<Seq<u8>>>, owner: Seq<u8>) -> Set<Seq<u8>> {
    if s.contains_key(owner) {
        s[owner]
    } else {
        Set::empty()
    }
}

/// A credit raises the sum of the balances by its amount.
pub proof fn lemma_credit_total(b: Balances, who: Seq<u8>, amount: nat)
    requires
        b.dom().finite(),
    ensures
        credit(b, who, amount).dom().finite(),
        total(credit(b, who, amount)) == total(b) + amount,
{
    lemma_total_insert(b, who, balance_in(b, who) + amount);
    if !b.contains_key(who) {
        lemma_total_insert(b, who, 0);
        assert(b.insert(who, 0).insert(who, amount) =~= b.insert(who, amount));
        lemma_total_insert(b.insert(who, 0), who, amount);
    }
}

/// A debit that the account can bear lowers the sum of the balances by
/// its amount.
pub proof fn lemma_debit_total(b: Balances, who: Seq<u8>, amount: nat)
    requires
        b.dom().finite(),
        balance_in(b, who) >= amount,
    ensures
        debit(b, who, amount).dom().finite(),
        total(debit(b, who, amount)) + amount == total(b),
{
    lemma_total_insert(b, who, (balance_in(b, who) - amount) as nat);
}

/// The amounts that a map of accounts holds, as numbers.
pub open spec fn amounts(m: Map<Seq<u8>, Nat>) -> Balances {
    Map::new(|k: Seq<u8>| m.contains_key(k), |k: Seq<u8>| nat_value(m[k]))
}

/// The sets that a map of spender lists holds.
pub open spec fn member_sets(m: Map<Seq<u8>, AddressSet>) -> Map<Seq<u8>, Set<Seq<u8>>> {
    Map::new(|k: Seq<u8>| m.contains_key(k), |k: Seq<u8>| m[k]@)
}

/// The error of the node `shard` that has no account for `user`.
pub open spec fn is_account_missing(e: TxError, shard: Seq<u8>, user: Seq<u8>) -> bool {
    e matches TxError::AccountDoesNotExist { shard: s, user: u } && s@ == principal_text(shard)
        && u@ == principal_text(user)
}

impl ShardBalancesState {
    /// No account stands twice, and no spender twice in a list.
    pub closed spec fn wf(&self) -> bool {
        &&& self.balances.wf()
        &&& self.spenders.wf()
        &&& forall|k: Seq<u8>| #[trigger]
            self.spenders@.contains_key(k) ==> self.spenders@[k].wf()
    }

    pub closed spec fn view(&self) -> ShardBalancesView {
        ShardBalancesView {
            balances: amounts(self.balances@),
            spenders: member_sets(self.spenders@),
        }
    }

    /// The addresses of the accounts, as bytes, in the order in which the
    /// accounts were opened.
    pub closed spec fn account_ids(&self) -> Seq<Seq<u8>> {
        self.balances.keys()
    }

    /// The addresses of the accounts that have a list of spenders, as
    /// bytes, in the order of the lists.
    pub closed spec fn owner_ids(&self) -> Seq<Seq<u8>> {
        self.spenders.keys()
    }

    /// The accounts listed are the accounts of the shard, each once, and
    /// so are the owners of lists of spenders.
    pub proof fn lemma_ids(&self)
        requires
            self.wf(),
        ensures
            self.account_ids().no_duplicates(),
            self.account_ids().to_set() == self@.balances.dom(),
            self.owner_ids().no_duplicates(),
            self.owner_ids().to_set() == self@.spenders.dom(),
    {
        self.balances.lemma_finite();
        self.spenders.lemma_finite();
        assert(self@.balances.dom() =~= self.balances@.dom());
        assert(self@.spenders.dom() =~= self.spenders@.dom());
    }

    /// A shard has finitely many accounts.
    pub proof fn lemma_finite(&self)
        requires
            self.wf(),
        ensures
            self@.balances.dom().finite(),
    {
        self.balances.lemma_finite();
        assert(self@.balances.dom() =~= self.balances@.dom());
    }

    /// A shard without accounts and without lists of spenders.
    pub fn new() -> (state: Self)
        ensures
            state.wf(),
            state@.balances == Map::<Seq<u8>, nat>::empty(),
            state@.spenders == Map::<Seq<u8>, Set<Seq<u8>>>::empty(),
            state.account_ids() == Seq::<Seq<u8>>::empty(),
            state.owner_ids() == Seq::<Seq<u8>>::empty(),
    {
        let state = ShardBalancesState { balances: Table::new(), spenders: Table::new() };
        assert(state@.balances =~= Map::<Seq<u8>, nat>::empty());
        assert(state@.spenders =~= Map::<Seq<u8>, Set<Seq<u8>>>::empty());
        state
    }

    /// What the account holds, zero where there is none.
    fn held_by(&self, account: &Principal) -> (held: Nat)
        requires
            self.wf(),
        ensures
            nat_value(held) == balance_in(self@.balances, principal_bytes(*account)),
    {
        match self.balances.get(account) {
            Some(b) => copy_of(b),
            None => zero(),
        }
    }

    /// Sets what the account holds, opening the account where there is none.
    fn set_balance(&mut self, account: Principal, held: Nat)
        requires
            old(self).wf(),
        ensures
            final(self).wf(),
            final(self)@.balances == old(self)@.balances.insert(
                principal_bytes(account),
                nat_value(held),
            ),
            final(self)@.spenders == old(self)@.spenders,
    {
        self.balances.insert(account, held);
        assert(self@.balances =~= old(self)@.balances.insert(
            principal_bytes(account),
            nat_value(held),
        ));
    }
}

impl Default for ShardBalancesState {
    fn default() -> (state: Self)
        ensures
            state.wf(),
            state@.balances == Map::<Seq<u8>, nat>::empty(),
            state@.spenders == Map::<Seq<u8>, Set<Seq<u8>>>::empty(),
    {
        ShardBalancesState::new()
    }
}

/// Passes if the user has an account on this shard, whose address is
/// `self_id`.
pub fn assert_is_customer(state: &ShardBalancesState, self_id: &Principal, user: &Principal) -> (r:
    Result<()>)
    requires
        state.wf(),
    ensures
        state@.balances.contains_key(principal_bytes(*user)) ==> r.is_ok(),
        !state@.balances.contains_key(principal_bytes(*user)) ==> r.is_err() && is_account_missing(
            r.unwrap_err(),
            principal_bytes(*self_id),
            principal_bytes(*user),
        ),
{
    if state.balances.contains_key(user) {
        Ok(())
    } else {
        Err(TxError::AccountDoesNotExist { shard: to_text(self_id), user: to_text(user) })
    }
}

/// The manager opens an account, which holds nothing. Anyone else is
/// turned away; an account that is there already is an error. In both
/// cases nothing changes.
pub fn create_account(
    state: &mut ShardBalancesState,
    data: &ManagerContractData,
    caller: &Principal,
    account: Principal,
) -> (r: Result<()>)
    requires
        old(state).wf(),
    ensures
        final(state).wf(),
        r == if data@.manager_contract != principal_bytes(*caller) {
            Err::<(), TxError>(TxError::Unauthorized)
        } else if old(state)@.balances.contains_key(principal_bytes(account)) {
            Err(TxError::AccountAlreadyExists)
        } else {
            Ok(())
        },
        r.is_err() ==> *final(state) == *old(state),
        r.is_ok() ==> final(state)@ == (ShardBalancesView {
            balances: old(state)@.balances.insert(principal_bytes(account), 0),
            ..old(state)@
        }),
        total(final(state)@.balances) == total(old(state)@.balances),
{
    if assert_is_manager_contract(data, caller).is_err() {
        return Err(TxError::Unauthorized);
    }
    if state.balances.contains_key(&account) {
        return Err(TxError::AccountAlreadyExists);
    }
    proof {
        state.lemma_finite();
        lemma_total_insert(state@.balances, principal_bytes(account), 0);
    }
    state.set_balance(account, zero());
    Ok(())
}

/// Adds the amount to what the account holds. An address without an
/// account gets one.
pub fn increase_balance(state: &mut ShardBalancesState, account: Principal, amount: Nat)
    requires
        old(state).wf(),
    ensures
        final(state).wf(),
        final(state)@ == (ShardBalancesView {
            balances: credit(old(state)@.balances, principal_bytes(account), nat_value(amount)),
            ..old(state)@
        }),
        total(final(state)@.balances) == total(old(state)@.balances) + nat_value(amount),
{
    proof {
        state.lemma_finite();
        lemma_credit_total(state@.balances, principal_bytes(account), nat_value(amount));
    }
    let held = state.held_by(&account);
    state.set_balance(account, plus(&held, &amount));
}

/// Takes the amount from what the account holds. An account that holds
/// less is left as it is, with the rest of the shard: no balance ever
/// falls below zero.
pub fn decrease_balance(state: &mut ShardBalancesState, account: Principal, amount: Nat) -> (r:
    Result<()>)
    requires
        old(state).wf(),
    ensures
        final(state).wf(),
        r == if balance_in(old(state)@.balances, principal_bytes(account)) >= nat_value(amount) {
            Ok::<(), TxError>(())
        } else {
            Err(TxError::InsufficientBalance)
        },
        r.is_err() ==> *final(state) == *old(state),
        r.is_ok() ==> final(state)@ == (ShardBalancesView {
            balances: debit(old(state)@.balances, principal_bytes(account), nat_value(amount)),
            ..old(state)@
        }) && total(final(state)@.balances) + nat_value(amount) == total(old(state)@.balances),
{
    let held = state.held_by(&account);
    if at_most(&amount, &held) {
        proof {
            state.lemma_finite();
            lemma_debit_total(state@.balances, principal_bytes(account), nat_value(amount));
        }
        state.set_balance(account, minus(&held, &amount));
        Ok(())
    } else {
        Err(TxError::InsufficientBalance)
    }
}

/// Takes the fee from the account and adds it to the collected fees, both
/// or neither: where the account holds less than the fee, nothing changes.
pub fn charge_fee(
    state: &mut ShardBalancesState,
    fees: &mut FeeBalance,
    user: Principal,
    fee: Nat,
) -> (r: Result<()>)
    requires
        old(state).wf(),
    ensures
        final(state).wf(),
        r == if balance_in(old(state)@.balances, principal_bytes(user)) >= nat_value(fee) {
            Ok::<(), TxError>(())
        } else {
            Err(TxError::InsufficientBalance)
        },
        r.is_err() ==> *final(state) == *old(state) && *final(fees) == *old(fees),
        r.is_ok() ==> final(state)@ == (ShardBalancesView {
            balances: debit(old(state)@.balances, principal_bytes(user), nat_value(fee)),
            ..old(state)@
        }) && final(fees)@ == old(fees)@ + nat_value(fee),
        total(final(state)@.balances) + final(fees)@ == total(old(state)@.balances) + old(fees)@,
{
    match decrease_balance(state, user, copy_of(&fee)) {
        Ok(()) => {
            accept_fee(fees, fee);
            Ok(())
        },
        Err(e) => Err(e),
    }
}

/// All that the shard holds: the sum of the balances and the collected
/// fees.
pub fn shard_get_supply(state: &ShardBalancesState, fees: &FeeBalance) -> (supply: Nat)
    requires
        state.wf(),
    ensures
        nat_value(supply) == total(state@.balances) + fees@,
{
    let n = state.balances.len();
    let mut sum = zero();
    let mut i: usize = 0;
    proof {
        lemma_total_empty();
        assert(amounts(
            map_of(state.balances.keys().take(0), state.balances.values().take(0)),
        ) =~= Map::<Seq<u8>, nat>::empty());
    }
    while i < n
        invariant
            i <= n,
            n == state.balances.keys().len(),
            n == state.balances.values().len(),
            state.wf(),
            amounts(
                map_of(state.balances.keys().take(i as int), state.balances.values().take(i as int)),
            ).dom().finite(),
            nat_value(sum) == total(
                amounts(
                    map_of(
                        state.balances.keys().take(i as int),
                        state.balances.values().take(i as int),
                    ),
                ),
            ),
        decreases n - i,
    {
        let held = state.balances.value_at(i);
        proof {
            let keys = state.balances.keys();
            let values = state.balances.values();
            let k = keys[i as int];
            assert(keys.take(i + 1) =~= keys.take(i as int).push(k));
            assert(values.take(i + 1) =~= values.take(i as int).push(*held));
            assert(!keys.take(i as int).contains(k));
            lemma_map_of_push(keys.take(i as int), values.take(i as int), k, *held);
            let prev = amounts(map_of(keys.take(i as int), values.take(i as int)));
            let next = amounts(map_of(keys.take(i + 1), values.take(i + 1)));
            assert(next =~= prev.insert(k, nat_value(*held)));
            lemma_total_insert(prev, k, nat_value(*held));
        }
        sum = plus(&sum, held);
        i += 1;
    }
    proof {
        assert(state.balances.keys().take(n as int) =~= state.balances.keys());
        assert(state.balances.values().take(n as int) =~= state.balances.values());
    }
    plus(&sum, &fees.0)
}

/// What the account holds, if this shard, whose address is `self_id`, has
/// that account.
pub fn balance_of(state: &ShardBalancesState, self_id: &Principal, account: &Principal)
    -> (r: Result<Nat>)
    requires
        state.wf(),
    ensures
        state@.balances.contains_key(principal_bytes(*account)) ==> r.is_ok() && nat_value(
            r.unwrap(),
        ) == state@.balances[principal_bytes(*account)],
        !state@.balances.contains_key(principal_bytes(*account)) ==> r.is_err()
            && is_account_missing(
            r.unwrap_err(),
            principal_bytes(*self_id),
            principal_bytes(*account),
        ),
{
    match state.balances.get(account) {
        Some(held) => Ok(copy_of(held)),
        None => Err(
            TxError::AccountDoesNotExist { shard: to_text(self_id), user: to_text(account) },
        ),
    }
}

/// Why a transfer is turned down before anything has changed.
pub ghost enum Refusal {
    UnknownSender,
    UnknownRecipient,
    ValueTooSmall,
    InsufficientBalance,
}

/// The first reason, if any, to turn a transfer down. The recipient is
/// looked up only where it lives on this shard (`local`); the fee is part
/// of the value, so the value has to exceed it.
pub open spec fn transfer_refusal(
    b: Balances,
    local: bool,
    from: Seq<u8>,
    to: Seq<u8>,
    value: nat,
    fee: nat,
) -> Option<Refusal> {
    if !b.contains_key(from) {
        Some(Refusal::UnknownSender)
    } else if local && !b.contains_key(to) {
        Some(Refusal::UnknownRecipient)
    } else if value <= fee {
        Some(Refusal::ValueTooSmall)
    } else if b[from] < value {
        Some(Refusal::InsufficientBalance)
    } else {
        None
    }
}

/// The error that tells the reason on the shard `self_id`.
pub open spec fn is_refusal(
    e: TxError,
    why: Refusal,
    self_id: Seq<u8>,
    from: Seq<u8>,
    to: Seq<u8>,
) -> bool {
    match why {
        Refusal::UnknownSender => is_account_missing(e, self_id, from),
        Refusal::UnknownRecipient => is_account_missing(e, self_id, to),
        Refusal::ValueTooSmall => e == TxError::TransferValueTooSmall,
        Refusal::InsufficientBalance => e == TxError::InsufficientBalance,
    }
}

/// Decides whether a transfer of `value` from `from` to `to` on the shard
/// `shard_id` may start on this shard, whose address is `self_id`.
pub fn pre_transfer_check(
    state: &ShardBalancesState,
    self_id: &Principal,
    from: &Principal,
    shard_id: &Principal,
    to: &Principal,
    value: &Nat,
    fee: &Nat,
) -> (r: Result<()>)
    requires
        state.wf(),
    ensures
        match transfer_refusal(
            state@.balances,
            principal_bytes(*shard_id) == principal_bytes(*self_id),
            principal_bytes(*from),
            principal_bytes(*to),
            nat_value(*value),
            nat_value(*fee),
        ) {
            None => r.is_ok(),
            Some(why) => r.is_err() && is_refusal(
                r.unwrap_err(),
                why,
                principal_bytes(*self_id),
                principal_bytes(*from),
                principal_bytes(*to),
            ),
        },
{
    let check_to = same_principal(shard_id, self_id);
    match assert_is_customer(state, self_id, from) {
        Ok(()) => {},
        Err(e) => {
            return Err(e);
        },
    }
    if check_to {
        match assert_is_customer(state, self_id, to) {
            Ok(()) => {},
            Err(e) => {
                return Err(e);
            },
        }
    }
    if at_most(value, fee) {
        return Err(TxError::TransferValueTooSmall);
    }
    let held = state.held_by(from);
    if at_most(value, &held) {
        Ok(())
    } else {
        Err(TxError::InsufficientBalance)
    }
}

/// Value that has left the sender's account and waits for the answer of
/// another node. It is settled once, by the call that takes it.
pub struct PendingTransfer {
    from: Principal,
    to_shard: Principal,
    to: Principal,
    amount: Nat,
    local: bool,
}

/// A pending transfer as plain values.
pub ghost struct PendingView {
    pub from: Seq<u8>,
    pub to_shard: Seq<u8>,
    pub to: Seq<u8>,
    pub amount: nat,
    /// The recipient lives on the shard that holds the pending value.
    pub local: bool,
}

impl PendingTransfer {
    pub closed spec fn view(&self) -> PendingView {
        PendingView {
            from: principal_bytes(self.from),
            to_shard: principal_bytes(self.to_shard),
            to: principal_bytes(self.to),
            amount: nat_value(self.amount),
            local: self.local,
        }
    }

    /// The account that the value came from.
    pub fn from(&self) -> (p: Principal)
        ensures
            principal_bytes(p) == self@.from,
    {
        self.from
    }

    /// The shard of the recipient.
    pub fn to_shard(&self) -> (p: Principal)
        ensures
            principal_bytes(p) == self@.to_shard,
    {
        self.to_shard
    }

    /// The recipient.
    pub fn to(&self) -> (p: Principal)
        ensures
            principal_bytes(p) == self@.to,
    {
        self.to
    }

    /// The value in flight: what was sent, less the fee.
    pub fn amount(&self) -> (n: Nat)
        ensures
            nat_value(n) == self@.amount,
    {
        copy_of(&self.amount)
    }

    /// Whether the recipient lives on the shard that holds the value.
    pub fn is_local(&self) -> (local: bool)
        ensures
            local == self@.local,
    {
        self.local
    }
}

/// How far a transfer has come when the shard of the sender has done its
/// part.
pub enum TransferStep {
    /// Both accounts live on this shard: the recipient has the value.
    Settled,
    /// The value has left the sender and is to be handed to the shard of
    /// the recipient, whose answer settles the transfer.
    AwaitingRemote(PendingTransfer),
}

/// The balances once a pending transfer is settled. Delivered, the value
/// goes to the recipient: here, where the recipient is local, and on the
/// other shard otherwise. Not delivered, it goes back to the sender.
pub open spec fn settle(b: Balances, p: PendingView, delivered: bool) -> Balances {
    if !delivered {
        credit(b, p.from, p.amount)
    } else if p.local {
        credit(b, p.to, p.amount)
    } else {
        b
    }
}

/// What the first half of a transfer does to the balances and the
/// collected fees of the sender's shard, and what it answers.
///
/// A transfer that is turned down changes nothing. Otherwise the fee goes
/// from the sender to the collected fees. Then the rest of the value goes
/// to the recipient, if it lives here; it leaves the sender and is
/// pending, if the recipient's shard is a sibling; and it stays with the
/// sender, who is told that the call is not authorized, if that shard is
/// not a sibling.
pub open spec fn transfer_started(
    before: Balances,
    fees_before: nat,
    data: crate::shard::management::ManagerContractView,
    self_id: Seq<u8>,
    from: Seq<u8>,
    to_shard: Seq<u8>,
    to: Seq<u8>,
    value: nat,
    r: Result<TransferStep>,
    after: Balances,
    fees_after: nat,
) -> bool {
    let local = to_shard == self_id;
    match transfer_refusal(before, local, from, to, value, data.fee) {
        Some(why) => {
            &&& r matches Err(e) && is_refusal(e, why, self_id, from, to)
            &&& after == before
            &&& fees_after == fees_before
        },
        None => {
            &&& fees_after == fees_before + data.fee
            &&& if local {
                &&& r matches Ok(TransferStep::Settled)
                &&& after == credit(debit(before, from, value), to, (value - data.fee) as nat)
            } else if data.sibling_shards.contains(to_shard) {
                &&& r matches Ok(TransferStep::AwaitingRemote(p))
                &&& p@ == (PendingView {
                    from,
                    to_shard,
                    to,
                    amount: (value - data.fee) as nat,
                    local: false,
                })
                &&& after == debit(before, from, value)
            } else {
                &&& r == Err::<TransferStep, TxError>(TxError::Unauthorized)
                &&& after == debit(before, from, data.fee)
            }
        },
    }
}

/// The value that a transfer step has left in flight.
pub open spec fn in_flight(r: Result<TransferStep>) -> nat {
    match r {
        Ok(TransferStep::AwaitingRemote(p)) => p@.amount,
        _ => 0,
    }
}

/// Takes the fee and the rest of the value from the sender, after the
/// transfer has passed `pre_transfer_check`.
fn take_from_sender(
    state: &mut ShardBalancesState,
    fees: &mut FeeBalance,
    from: Principal,
    value: &Nat,
    fee: &Nat,
) -> (amount: Nat)
    requires
        old(state).wf(),
        old(state)@.balances.contains_key(principal_bytes(from)),
        nat_value(*fee) < nat_value(*value) <= old(state)@.balances[principal_bytes(from)],
    ensures
        final(state).wf(),
        nat_value(amount) == nat_value(*value) - nat_value(*fee),
        final(fees)@ == old(fees)@ + nat_value(*fee),
        final(state)@ == (ShardBalancesView {
            balances: debit(old(state)@.balances, principal_bytes(from), nat_value(*value)),
            ..old(state)@
        }),
        total(final(state)@.balances) + nat_value(*value) == total(old(state)@.balances),
{
    let ghost b = state@.balances;
    let ghost who = principal_bytes(from);
    let charged = charge_fee(state, fees, from, copy_of(fee));
    assert(charged.is_ok());
    let amount = minus(value, fee);
    let taken = decrease_balance(state, from, copy_of(&amount));
    assert(taken.is_ok());
    assert(state@.balances =~= debit(b, who, nat_value(*value)));
    amount
}

/// The first half of a transfer of `value` from `from` to `to` on the
/// shard `to_shard`, on the sender's shard, whose address is `self_id`.
/// See [`transfer_started`]. The sum of the balances, the collected fees
/// and the value in flight stays what it was.
pub fn transfer_internal(
    state: &mut ShardBalancesState,
    fees: &mut FeeBalance,
    data: &ManagerContractData,
    self_id: &Principal,
    from: Principal,
    to_shard: Principal,
    to: Principal,
    value: Nat,
) -> (r: Result<TransferStep>)
    requires
        old(state).wf(),
        data.wf(),
    ensures
        final(state).wf(),
        final(state)@.spenders == old(state)@.spenders,
        transfer_started(
            old(state)@.balances,
            old(fees)@,
            data@,
            principal_bytes(*self_id),
            principal_bytes(from),
            principal_bytes(to_shard),
            principal_bytes(to),
            nat_value(value),
            r,
            final(state)@.balances,
            final(fees)@,
        ),
        total(final(state)@.balances) + final(fees)@ + in_flight(r) == total(
            old(state)@.balances,
        ) + old(fees)@,
{
    let fee = crate::shard::management::get_fee(data);
    match pre_transfer_check(state, self_id, &from, &to_shard, &to, &value, &fee) {
        Ok(()) => {},
        Err(e) => {
            return Err(e);
        },
    }
    let amount = take_from_sender(state, fees, from, &value, &fee);
    if same_principal(&to_shard, self_id) {
        increase_balance(state, to, amount);
        Ok(TransferStep::Settled)
    } else if data.sibling_shards.contains(&to_shard) {
        Ok(TransferStep::AwaitingRemote(PendingTransfer { from, to_shard, to, amount, local: false }))
    } else {
        let ghost b = old(state)@.balances;
        increase_balance(state, from, amount);
        assert(state@.balances =~= debit(b, principal_bytes(from), nat_value(fee)));
        Err(TxError::Unauthorized)
    }
}

/// The second half of a transfer: settles the pending value by the answer
/// of the other node and hands the answer on. Where the other node has
/// taken the value, a recipient on this shard is credited; where it has
/// failed, the sender gets the value back, but never the fee.
pub fn complete_transfer<T>(
    state: &mut ShardBalancesState,
    pending: PendingTransfer,
    response: Result<T>,
) -> (r: Result<T>)
    requires
        old(state).wf(),
    ensures
        final(state).wf(),
        r == response,
        final(state)@.spenders == old(state)@.spenders,
        final(state)@.balances == settle(old(state)@.balances, pending@, response.is_ok()),
        total(final(state)@.balances) == total(old(state)@.balances) + (if response.is_ok()
            && !pending@.local {
            0
        } else {
            pending@.amount
        }),
{
    match response {
        Ok(answer) => {
            if pending.local {
                increase_balance(state, pending.to, pending.amount);
            }
            Ok(answer)
        },
        Err(e) => {
            increase_balance(state, pending.from, pending.amount);
            Err(e)
        },
    }
}

/// A transfer that the caller makes from its own account.
pub fn transfer(
    state: &mut ShardBalancesState,
    fees: &mut FeeBalance,
    data: &ManagerContractData,
    self_id: &Principal,
    caller: Principal,
    to_shard: Principal,
    to: Principal,
    value: Nat,
) -> (r: Result<TransferStep>)
    requires
        old(state).wf(),
        data.wf(),
    ensures
        final(state).wf(),
        final(state)@.spenders == old(state)@.spenders,
        transfer_started(
            old(state)@.balances,
            old(fees)@,
            data@,
            principal_bytes(*self_id),
            principal_bytes(caller),
            principal_bytes(to_shard),
            principal_bytes(to),
            nat_value(value),
            r,
            final(state)@.balances,
            final(fees)@,
        ),
        total(final(state)@.balances) + final(fees)@ + in_flight(r) == total(
            old(state)@.balances,
        ) + old(fees)@,
{
    transfer_internal(state, fees, data, self_id, caller, to_shard, to, value)
}

/// A transfer that the manager makes from the account of `from`. Anyone
/// else is turned away and nothing changes.
pub fn transfer_from_manager(
    state: &mut ShardBalancesState,
    fees: &mut FeeBalance,
    data: &ManagerContractData,
    self_id: &Principal,
    caller: &Principal,
    from: Principal,
    to_shard: Principal,
    to: Principal,
    value: Nat,
) -> (r: Result<TransferStep>)
    requires
        old(state).wf(),
        data.wf(),
    ensures
        final(state).wf(),
        final(state)@.spenders == old(state)@.spenders,
        data@.manager_contract != principal_bytes(*caller) ==> r == Err::<TransferStep, TxError>(
            TxError::Unauthorized,
        ) && *final(state) == *old(state) && *final(fees) == *old(fees),
        data@.manager_contract == principal_bytes(*caller) ==> transfer_started(
            old(state)@.balances,
            old(fees)@,
            data@,
            principal_bytes(*self_id),
            principal_bytes(from),
            principal_bytes(to_shard),
            principal_bytes(to),
            nat_value(value),
            r,
            final(state)@.balances,
            final(fees)@,
        ),
        total(final(state)@.balances) + final(fees)@ + in_flight(r) == total(
            old(state)@.balances,
        ) + old(fees)@,
{
    if assert_is_manager_contract(data, caller).is_err() {
        return Err(TxError::Unauthorized);
    }
    transfer_internal(state, fees, data, self_id, from, to_shard, to, value)
}

/// Passes if the caller may spend from the account.
pub fn assert_is_spender(state: &ShardBalancesState, caller: &Principal, of_account: &Principal)
    -> (r: Result<()>)
    requires
        state.wf(),
    ensures
        r == if spenders_of(state@.spenders, principal_bytes(*of_account)).contains(
            principal_bytes(*caller),
        ) {
            Ok::<(), TxError>(())
        } else {
            Err(TxError::Unauthorized)
        },
{
    match state.spenders.get(of_account) {
        Some(spenders) => {
            if spenders.contains(caller) {
                Ok(())
            } else {
                Err(TxError::Unauthorized)
            }
        },
        None => Err(TxError::Unauthorized),
    }
}

/// The caller lets `account` spend from the caller's own account.
pub fn add_spender(state: &mut ShardBalancesState, caller: Principal, account: Principal)
    requires
        old(state).wf(),
    ensures
        final(state).wf(),
        final(state)@ == (ShardBalancesView {
            spenders: old(state)@.spenders.insert(
                principal_bytes(caller),
                spenders_of(old(state)@.spenders, principal_bytes(caller)).insert(
                    principal_bytes(account),
                ),
            ),
            ..old(state)@
        }),
{
    let mut list = match state.spenders.remove(&caller) {
        Some(list) => list,
        None => AddressSet::new(),
    };
    list.insert(account);
    state.spenders.insert(caller, list);
    assert(state@.spenders =~= old(state)@.spenders.insert(
        principal_bytes(caller),
        spenders_of(old(state)@.spenders, principal_bytes(caller)).insert(
            principal_bytes(account),
        ),
    ));
}

/// The caller no longer lets `account` spend from the caller's own
/// account.
pub fn remove_spender(state: &mut ShardBalancesState, caller: Principal, account: Principal)
    requires
        old(state).wf(),
    ensures
        final(state).wf(),
        final(state)@ == (ShardBalancesView {
            spenders: old(state)@.spenders.insert(
                principal_bytes(caller),
                spenders_of(old(state)@.spenders, principal_bytes(caller)).remove(
                    principal_bytes(account),
                ),
            ),
            ..old(state)@
        }),
{
    let mut list = match state.spenders.remove(&caller) {
        Some(list) => list,
        None => AddressSet::new(),
    };
    list.remove(&account);
    state.spenders.insert(caller, list);
    assert(state@.spenders =~= old(state)@.spenders.insert(
        principal_bytes(caller),
        spenders_of(old(state)@.spenders, principal_bytes(caller)).remove(
            principal_bytes(account),
        ),
    ));
}

/// A transfer that the caller makes from the account of `from`, which
/// has let the caller spend. Anyone else is turned away and nothing
/// changes.
pub fn spend(
    state: &mut ShardBalancesState,
    fees: &mut FeeBalance,
    data: &ManagerContractData,
    self_id: &Principal,
    caller: &Principal,
    from: Principal,
    to_shard: Principal,
    to: Principal,
    value: Nat,
) -> (r: Result<TransferStep>)
    requires
        old(state).wf(),
        data.wf(),
    ensures
        final(state).wf(),
        final(state)@.spenders == old(state)@.spenders,
        !spenders_of(old(state)@.spenders, principal_bytes(from)).contains(
            principal_bytes(*caller),
        ) ==> r == Err::<TransferStep, TxError>(TxError::Unauthorized) && *final(state) == *old(
            state,
        ) && *final(fees) == *old(fees),
        spenders_of(old(state)@.spenders, principal_bytes(from)).contains(
            principal_bytes(*caller),
        ) ==> transfer_started(
            old(state)@.balances,
            old(fees)@,
            data@,
            principal_bytes(*self_id),
            principal_bytes(from),
            principal_bytes(to_shard),
            principal_bytes(to),
            nat_value(value),
            r,
            final(state)@.balances,
            final(fees)@,
        ),
        total(final(state)@.balances) + final(fees)@ + in_flight(r) == total(
            old(state)@.balances,
        ) + old(fees)@,
{
    if assert_is_spender(state, caller, &from).is_err() {
        return Err(TxError::Unauthorized);
    }
    transfer_internal(state, fees, data, self_id, from, to_shard, to, value)
}

/// What the shard of the recipient does with a transfer that the shard
/// `caller` hands over: a caller that is no sibling is turned away, a
/// recipient without an account is an error, and in both cases nothing
/// changes; otherwise the recipient has the value.
pub fn receive_transfer(
    state: &mut ShardBalancesState,
    data: &ManagerContractData,
    self_id: &Principal,
    caller: &Principal,
    to: Principal,
    value: Nat,
) -> (r: Result<()>)
    requires
        old(state).wf(),
        data.wf(),
    ensures
        final(state).wf(),
        !data@.sibling_shards.contains(principal_bytes(*caller)) ==> r == Err::<(), TxError>(
            TxError::Unauthorized,
        ),
        data@.sibling_shards.contains(principal_bytes(*caller)) && !old(
            state,
        )@.balances.contains_key(principal_bytes(to)) ==> r.is_err() && is_account_missing(
            r.unwrap_err(),
            principal_bytes(*self_id),
            principal_bytes(to),
        ),
        data@.sibling_shards.contains(principal_bytes(*caller)) && old(
            state,
        )@.balances.contains_key(principal_bytes(to)) ==> r.is_ok(),
        r.is_err() ==> *final(state) == *old(state),
        r.is_ok() ==> final(state)@ == (ShardBalancesView {
            balances: credit(old(state)@.balances, principal_bytes(to), nat_value(value)),
            ..old(state)@
        }) && total(final(state)@.balances) == total(old(state)@.balances) + nat_value(value),
{
    if !data.sibling_shards.contains(caller) {
        return Err(TxError::Unauthorized);
    }
    match assert_is_customer(state, self_id, &to) {
        Ok(()) => {},
        Err(e) => {
            return Err(e);
        },
    }
    increase_balance(state, to, value);
    Ok(())
}

/// A transfer whose value has left the sender and is held back until the
/// recipient's endpoint has answered the notification.
pub struct PendingNotification {
    /// What the endpoint is told.
    pub notification: ShardedTransferNotification,
    /// The node of the endpoint.
    pub notify_principal: Principal,
    /// The name of the endpoint.
    pub notify_method: String,
    /// The value that is held back. Where it is local the endpoint is
    /// called from here; otherwise the notification goes to the shard of
    /// the recipient, which calls the endpoint.
    pub pending: PendingTransfer,
}

/// What the first half of a transfer with notification does to the
/// balances and the collected fees of the sender's shard, and what it
/// answers.
///
/// A transfer that is turned down changes nothing. Otherwise the fee goes
/// from the sender to the collected fees. Where the recipient lives here
/// or on a sibling, the rest of the value leaves the sender and is held
/// back, and the answer holds the notification to send. Where the
/// recipient's shard is no sibling, the rest stays with the sender, who is
/// told that the call is not authorized.
pub open spec fn notification_started(
    before: Balances,
    fees_before: nat,
    data: crate::shard::management::ManagerContractView,
    self_id: Seq<u8>,
    from: Seq<u8>,
    to_shard: Seq<u8>,
    to: Seq<u8>,
    value: nat,
    notify_principal: Seq<u8>,
    notify_method: Seq<char>,
    payload: Seq<char>,
    r: Result<PendingNotification>,
    after: Balances,
    fees_after: nat,
) -> bool {
    let local = to_shard == self_id;
    match transfer_refusal(before, local, from, to, value, data.fee) {
        Some(why) => {
            &&& r matches Err(e) && is_refusal(e, why, self_id, from, to)
            &&& after == before
            &&& fees_after == fees_before
        },
        None => {
            &&& fees_after == fees_before + data.fee
            &&& if local || data.sibling_shards.contains(to_shard) {
                &&& r matches Ok(n)
                &&& n.pending@ == (PendingView {
                    from,
                    to_shard,
                    to,
                    amount: (value - data.fee) as nat,
                    local,
                })
                &&& n.notification@ == (NotificationView {
                    from,
                    from_shard: self_id,
                    to,
                    fee_charged: data.fee,
                    value: (value - data.fee) as nat,
                    data: payload,
                })
                &&& principal_bytes(n.notify_principal) == notify_principal
                &&& n.notify_method@ == notify_method
                &&& after == debit(before, from, value)
            } else {
                &&& r == Err::<PendingNotification, TxError>(TxError::Unauthorized)
                &&& after == debit(before, from, data.fee)
            }
        },
    }
}

/// The value that a transfer with notification holds back.
pub open spec fn held_back(r: Result<PendingNotification>) -> nat {
    match r {
        Ok(n) => n.pending@.amount,
        Err(_) => 0,
    }
}

/// The first half of a transfer of `value` from `from` to `to` on the
/// shard `shard_id` that tells the endpoint `notify_method` of the node
/// `notify_principal` before the recipient has the value. See
/// [`notification_started`]. The sum of the balances, the collected fees
/// and the value held back stays what it was.
pub fn transfer_and_call_internal(
    state: &mut ShardBalancesState,
    fees: &mut FeeBalance,
    data: &ManagerContractData,
    self_id: &Principal,
    from: Principal,
    shard_id: Principal,
    to: Principal,
    value: Nat,
    notify_principal: Principal,
    notify_method: String,
    payload: String,
) -> (r: Result<PendingNotification>)
    requires
        old(state).wf(),
        data.wf(),
    ensures
        final(state).wf(),
        final(state)@.spenders == old(state)@.spenders,
        notification_started(
            old(state)@.balances,
            old(fees)@,
            data@,
            principal_bytes(*self_id),
            principal_bytes(from),
            principal_bytes(shard_id),
            principal_bytes(to),
            nat_value(value),
            principal_bytes(notify_principal),
            notify_method@,
            payload@,
            r,
            final(state)@.balances,
            final(fees)@,
        ),
        total(final(state)@.balances) + final(fees)@ + held_back(r) == total(
            old(state)@.balances,
        ) + old(fees)@,
{
    let fee = crate::shard::management::get_fee(data);
    match pre_transfer_check(state, self_id, &from, &shard_id, &to, &value, &fee) {
        Ok(()) => {},
        Err(e) => {
            return Err(e);
        },
    }
    let amount = take_from_sender(state, fees, from, &value, &fee);
    let local = same_principal(&shard_id, self_id);
    if local || data.sibling_shards.contains(&shard_id) {
        let notification = ShardedTransferNotification {
            from,
            from_shard: *self_id,
            to,
            fee_charged: fee,
            value: copy_of(&amount),
            data: payload,
        };
        let pending = PendingTransfer { from, to_shard: shard_id, to, amount, local };
        Ok(PendingNotification { notification, notify_principal, notify_method, pending })
    } else {
        let ghost b = old(state)@.balances;
        increase_balance(state, from, amount);
        assert(state@.balances =~= debit(b, principal_bytes(from), nat_value(fee)));
        Err(TxError::Unauthorized)
    }
}

/// A transfer with notification that the caller makes from its own
/// account.
pub fn transfer_and_call(
    state: &mut ShardBalancesState,
    fees: &mut FeeBalance,
    data: &ManagerContractData,
    self_id: &Principal,
    caller: Principal,
    shard_id: Principal,
    to: Principal,
    value: Nat,
    notify_principal: Principal,
    notify_method: String,
    payload: String,
) -> (r: Result<PendingNotification>)
    requires
        old(state).wf(),
        data.wf(),
    ensures
        final(state).wf(),
        final(state)@.spenders == old(state)@.spenders,
        notification_started(
            old(state)@.balances,
            old(fees)@,
            data@,
            principal_bytes(*self_id),
            principal_bytes(caller),
            principal_bytes(shard_id),
            principal_bytes(to),
            nat_value(value),
            principal_bytes(notify_principal),
            notify_method@,
            payload@,
            r,
            final(state)@.balances,
            final(fees)@,
        ),
        total(final(state)@.balances) + final(fees)@ + held_back(r) == total(
            old(state)@.balances,
        ) + old(fees)@,
{
    transfer_and_call_internal(
        state,
        fees,
        data,
        self_id,
        caller,
        shard_id,
        to,
        value,
        notify_principal,
        notify_method,
        payload,
    )
}

/// A transfer with notification that the caller makes from the account of
/// `from`, which has let the caller spend. Anyone else is turned away and
/// nothing changes.
pub fn spend_and_call(
    state: &mut ShardBalancesState,
    fees: &mut FeeBalance,
    data: &ManagerContractData,
    self_id: &Principal,
    caller: &Principal,
    from: Principal,
    shard_id: Principal,
    to: Principal,
    value: Nat,
    notify_principal: Principal,
    notify_method: String,
    payload: String,
) -> (r: Result<PendingNotification>)
    requires
        old(state).wf(),
        data.wf(),
    ensures
        final(state).wf(),
        final(state)@.spenders == old(state)@.spenders,
        !spenders_of(old(state)@.spenders, principal_bytes(from)).contains(
            principal_bytes(*caller),
        ) ==> r == Err::<PendingNotification, TxError>(TxError::Unauthorized) && *final(state)
            == *old(state) && *final(fees) == *old(fees),
        spenders_of(old(state)@.spenders, principal_bytes(from)).contains(
            principal_bytes(*caller),
        ) ==> notification_started(
            old(state)@.balances,
            old(fees)@,
            data@,
            principal_bytes(*self_id),
            principal_bytes(from),
            principal_bytes(shard_id),
            principal_bytes(to),
            nat_value(value),
            principal_bytes(notify_principal),
            notify_method@,
            payload@,
            r,
            final(state)@.balances,
            final(fees)@,
        ),
        total(final(state)@.balances) + final(fees)@ + held_back(r) == total(
            old(state)@.balances,
        ) + old(fees)@,
{
    if assert_is_spender(state, caller, &from).is_err() {
        return Err(TxError::Unauthorized);
    }
    transfer_and_call_internal(
        state,
        fees,
        data,
        self_id,
        from,
        shard_id,
        to,
        value,
        notify_principal,
        notify_method,
        payload,
    )
}

/// Value that a sibling has handed over and that the recipient gets once
/// its endpoint has answered the notification.
pub struct PendingReceipt {
    to: Principal,
    amount: Nat,
}

impl PendingReceipt {
    /// The recipient and the value.
    pub closed spec fn view(&self) -> (Seq<u8>, nat) {
        (principal_bytes(self.to), nat_value(self.amount))
    }
}

/// What the shard of the recipient does first with a transfer with
/// notification that the shard `caller` hands over: a caller that is no
/// sibling is turned away, and a recipient without an account is an error.
/// Otherwise the value waits for the answer of the recipient's endpoint.
pub fn receive_transfer_and_call(
    state: &ShardBalancesState,
    data: &ManagerContractData,
    self_id: &Principal,
    caller: &Principal,
    notification: &ShardedTransferNotification,
) -> (r: Result<PendingReceipt>)
    requires
        state.wf(),
        data.wf(),
    ensures
        !data@.sibling_shards.contains(principal_bytes(*caller)) ==> r == Err::<
            PendingReceipt,
            TxError,
        >(TxError::Unauthorized),
        data@.sibling_shards.contains(principal_bytes(*caller)) && !state@.balances.contains_key(
            notification@.to,
        ) ==> (r matches Err(e) && is_account_missing(
            e,
            principal_bytes(*self_id),
            notification@.to,
        )),
        data@.sibling_shards.contains(principal_bytes(*caller)) && state@.balances.contains_key(
            notification@.to,
        ) ==> (r matches Ok(p) && p@ == (notification@.to, notification@.value)),
{
    if !data.sibling_shards.contains(caller) {
        return Err(TxError::Unauthorized);
    }
    match assert_is_customer(state, self_id, &notification.to) {
        Ok(()) => {},
        Err(e) => {
            return Err(e);
        },
    }
    Ok(PendingReceipt { to: notification.to, amount: copy_of(&notification.value) })
}

/// The second half on the shard of the recipient: where the endpoint has
/// answered, the recipient has the value; where it has failed, nothing
/// changes. The answer is handed on.
pub fn complete_receive_transfer_and_call<T>(
    state: &mut ShardBalancesState,
    receipt: PendingReceipt,
    response: Result<T>,
) -> (r: Result<T>)
    requires
        old(state).wf(),
    ensures
        final(state).wf(),
        r == response,
        response.is_err() ==> *final(state) == *old(state),
        response.is_ok() ==> final(state)@ == (ShardBalancesView {
            balances: credit(old(state)@.balances, receipt@.0, receipt@.1),
            ..old(state)@
        }) && total(final(state)@.balances) == total(old(state)@.balances) + receipt@.1,
{
    match response {
        Ok(answer) => {
            increase_balance(state, receipt.to, receipt.amount);
            Ok(answer)
        },
        Err(e) => Err(e),
    }
}

/// The lists of spenders as they are written to a snapshot: each account
/// that has a list, with the list.
pub type ShardSpenders = Vec<(Principal, Vec<Principal>)>;

/// The balances that the entries of a snapshot stand for, a later entry
/// for an address in place of an earlier one; `None` where the text of an
/// entry is no number.
pub open spec fn restored_balances(entries: Seq<(Principal, String)>) -> Option<Balances>
    decreases entries.len(),
{
    if entries.len() == 0 {
        Some(Map::empty())
    } else {
        match (restored_balances(entries.drop_last()), nat_parsed(entries.last().1@)) {
            (Some(m), Some(n)) => Some(m.insert(principal_bytes(entries.last().0), n)),
            _ => None,
        }
    }
}

/// The lists of spenders that the entries of a snapshot stand for, a
/// later entry for an address in place of an earlier one.
pub open spec fn restored_spenders(entries: Seq<(Principal, Vec<Principal>)>) -> Map<
    Seq<u8>,
    Set<Seq<u8>>,
>
    decreases entries.len(),
{
    if entries.len() == 0 {
        Map::empty()
    } else {
        restored_spenders(entries.drop_last()).insert(
            principal_bytes(entries.last().0),
            set_of(entries.last().1@),
        )
    }
}

/// Entries of which a part stands for no balances stand for none.
proof fn lemma_restored_none(entries: Seq<(Principal, String)>, k: int)
    requires
        0 <= k <= entries.len(),
        restored_balances(entries.take(k)) is None,
    ensures
        restored_balances(entries) is None,
    decreases entries.len() - k,
{
    if k == entries.len() {
        assert(entries.take(k) =~= entries);
    } else {
        assert(entries.drop_last().take(k) =~= entries.take(k));
        lemma_restored_none(entries.drop_last(), k);
    }
}

/// Entries that list the accounts, each with a text that is read as what
/// the account holds, stand for the balances.
proof fn lemma_restored_balances(
    entries: Seq<(Principal, String)>,
    ids: Seq<Seq<u8>>,
    held: Balances,
    k: int,
)
    requires
        entries.len() == ids.len(),
        forall|i: int|
            0 <= i < entries.len() ==> principal_bytes((#[trigger] entries[i]).0) == ids[i]
                && nat_parsed(entries[i].1@) == Some(held[ids[i]]),
        0 <= k <= entries.len(),
    ensures
        restored_balances(entries.take(k)) == Some(prefix_map(ids, held, k)),
    decreases k,
{
    if k == 0 {
        assert(prefix_map(ids, held, k) =~= Map::<Seq<u8>, nat>::empty());
    } else {
        lemma_restored_balances(entries, ids, held, k - 1);
        lemma_prefix_map_step(ids, held, k);
        assert(entries.take(k).drop_last() =~= entries.take(k - 1));
        assert(entries.take(k).last() == entries[k - 1]);
    }
}

/// Entries that list the owners, each with its spenders, stand for the
/// lists of spenders.
proof fn lemma_restored_spenders(
    entries: Seq<(Principal, Vec<Principal>)>,
    ids: Seq<Seq<u8>>,
    lists: Map<Seq<u8>, Set<Seq<u8>>>,
    k: int,
)
    requires
        entries.len() == ids.len(),
        forall|i: int|
            0 <= i < entries.len() ==> principal_bytes((#[trigger] entries[i]).0) == ids[i]
                && set_of(entries[i].1@) == lists[ids[i]],
        0 <= k <= entries.len(),
    ensures
        restored_spenders(entries.take(k)) == prefix_map(ids, lists, k),
    decreases k,
{
    if k == 0 {
        assert(restored_spenders(entries.take(k)) =~= prefix_map(ids, lists, k));
    } else {
        lemma_restored_spenders(entries, ids, lists, k - 1);
        lemma_prefix_map_step(ids, lists, k);
        assert(entries.take(k).drop_last() =~= entries.take(k - 1));
        assert(entries.take(k).last() == entries[k - 1]);
    }
}

/// The state of the shard as it is written to a snapshot: the accounts in
/// the order in which they were opened, each with what it holds as
/// decimal text, and the lists of spenders. What is written stands for
/// the balances and the lists as they are, so that reading it back gives
/// the state that was written.
pub fn export_stable_storage(state: ShardBalancesState) -> (stable: (
    StableShardBalances,
    ShardSpenders,
))
    requires
        state.wf(),
    ensures
        stable.0.0@.len() == state.account_ids().len(),
        forall|i: int|
            0 <= i < stable.0.0@.len() ==> principal_bytes((#[trigger] stable.0.0@[i]).0)
                == state.account_ids()[i] && stable.0.0@[i].1@ == nat_decimal(
                state@.balances[state.account_ids()[i]],
            ),
        stable.1@.len() == state.owner_ids().len(),
        forall|i: int|
            0 <= i < stable.1@.len() ==> principal_bytes((#[trigger] stable.1@[i]).0)
                == state.owner_ids()[i] && set_of(stable.1@[i].1@)
                == state@.spenders[state.owner_ids()[i]],
        restored_balances(stable.0.0@) == Some(state@.balances),
        restored_spenders(stable.1@) == state@.spenders,
{
    let n = state.balances.len();
    let mut balances: Vec<(Principal, String)> = Vec::new();
    let mut i: usize = 0;
    while i < n
        invariant
            i <= n,
            state.wf(),
            n == state.balances.keys().len(),
            balances@.len() == i,
            forall|j: int|
                0 <= j < i ==> principal_bytes((#[trigger] balances@[j]).0) == state.account_ids()[j]
                    && balances@[j].1@ == nat_decimal(state@.balances[state.account_ids()[j]])
                    && nat_parsed(balances@[j].1@) == Some(state@.balances[state.account_ids()[j]]),
        decreases n - i,
    {
        let key = state.balances.key_at(i);
        let held = state.balances.value_at(i);
        balances.push((key, to_decimal(held)));
        i += 1;
    }
    let m = state.spenders.len();
    let mut spenders: Vec<(Principal, Vec<Principal>)> = Vec::new();
    let mut k: usize = 0;
    while k < m
        invariant
            k <= m,
            state.wf(),
            m == state.spenders.keys().len(),
            spenders@.len() == k,
            forall|j: int|
                0 <= j < k ==> principal_bytes((#[trigger] spenders@[j]).0) == state.owner_ids()[j]
                    && set_of(spenders@[j].1@) == state@.spenders[state.owner_ids()[j]],
        decreases m - k,
    {
        let owner = state.spenders.key_at(k);
        let list = state.spenders.value_at(k);
        let members = list.to_vec();
        spenders.push((owner, members));
        k += 1;
    }
    proof {
        state.lemma_ids();
        lemma_restored_balances(balances@, state.account_ids(), state@.balances, n as int);
        lemma_prefix_map_all(state.account_ids(), state@.balances);
        assert(balances@.take(n as int) =~= balances@);
        lemma_restored_spenders(spenders@, state.owner_ids(), state@.spenders, m as int);
        lemma_prefix_map_all(state.owner_ids(), state@.spenders);
        assert(spenders@.take(m as int) =~= spenders@);
    }
    (StableShardBalances(balances), spenders)
}

/// The state of the shard that a snapshot holds; `None` where the text of
/// a balance is no number.
pub fn import_stable_storage(balances: StableShardBalances, spenders: ShardSpenders) -> (r: Option<
    ShardBalancesState,
>)
    ensures
        match r {
            Some(state) => state.wf() && restored_balances(balances.0@) == Some(state@.balances)
                && state@.spenders == restored_spenders(spenders@),
            None => restored_balances(balances.0@) is None,
        },
{
    let mut state = ShardBalancesState::new();
    let mut i: usize = 0;
    assert(balances.0@.take(0) =~= Seq::<(Principal, String)>::empty());
    while i < balances.0.len()
        invariant
            i <= balances.0@.len(),
            state.wf(),
            state@.spenders == Map::<Seq<u8>, Set<Seq<u8>>>::empty(),
            restored_balances(balances.0@.take(i as int)) == Some(state@.balances),
        decreases balances.0@.len() - i,
    {
        proof {
            assert(balances.0@.take(i + 1).drop_last() =~= balances.0@.take(i as int));
            assert(balances.0@.take(i + 1).last() == balances.0@[i as int]);
        }
        match parse_decimal(balances.0[i].1.as_str()) {
            Some(held) => {
                state.set_balance(balances.0[i].0, held);
            },
            None => {
                proof {
                    lemma_restored_none(balances.0@, i + 1);
                }
                return None;
            },
        }
        i += 1;
    }
    proof {
        assert(balances.0@.take(i as int) =~= balances.0@);
        assert(spenders@.take(0) =~= Seq::<(Principal, Vec<Principal>)>::empty());
        assert(state@.spenders =~= restored_spenders(spenders@.take(0)));
    }
    let mut k: usize = 0;
    while k < spenders.len()
        invariant
            k <= spenders@.len(),
            state.wf(),
            restored_balances(balances.0@) == Some(state@.balances),
            state@.spenders == restored_spenders(spenders@.take(k as int)),
        decreases spenders@.len() - k,
    {
        proof {
            assert(spenders@.take(k + 1).drop_last() =~= spenders@.take(k as int));
            assert(spenders@.take(k + 1).last() == spenders@[k as int]);
        }
        let ghost before = state@.spenders;
        let list = AddressSet::from_vec(&spenders[k].1);
        state.spenders.insert(spenders[k].0, list);
        proof {
            assert(state@.spenders =~= before.insert(
                principal_bytes(spenders@[k as int].0),
                set_of(spenders@[k as int].1@),
            ));
        }
        k += 1;
    }
    proof {
        assert(spenders@.take(k as int) =~= spenders@);
    }
    Some(state)
}

} // verus!
