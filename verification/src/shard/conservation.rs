//! What holds of the funds of a shard whatever the operations do: nothing
//! is created, nothing is lost, no balance falls below zero, and value in
//! flight arrives at exactly one account.

use crate::shard::balances::{
    balance_in, credit, debit, held_back, in_flight, lemma_credit_total, lemma_debit_total,
    notification_started, settle, transfer_refusal, transfer_started, PendingNotification,
    PendingView, TransferStep,
};
use crate::shard::management::ManagerContractView;
use crate::supply::{total, Balances};
use crate::types::Result;
use vstd::prelude::*;

verus! {

/// A debit that the account can bear takes exactly its amount and leaves
/// every other account as it was: the balance never falls below zero.
pub proof fn lemma_debit_exact(b: Balances, who: Seq<u8>, amount: nat)
    requires
        balance_in(b, who) >= amount,
    ensures
        balance_in(debit(b, who, amount), who) + amount == balance_in(b, who),
        forall|other: Seq<u8>|
            other != who ==> balance_in(debit(b, who, amount), other) == balance_in(b, other),
{
}

/// The first half of a transfer neither creates nor destroys funds: the
/// balances, the collected fees and the value in flight sum to what the
/// balances and the fees were before.
pub proof fn lemma_transfer_keeps_supply(
    before: Balances,
    fees_before: nat,
    data: ManagerContractView,
    self_id: Seq<u8>,
    from: Seq<u8>,
    to_shard: Seq<u8>,
    to: Seq<u8>,
    value: nat,
    r: Result<TransferStep>,
    after: Balances,
    fees_after: nat,
)
    requires
        before.dom().finite(),
        transfer_started(
            before,
            fees_before,
            data,
            self_id,
            from,
            to_shard,
            to,
            value,
            r,
            after,
            fees_after,
        ),
    ensures
        after.dom().finite(),
        total(after) + fees_after + in_flight(r) == total(before) + fees_before,
{
    if transfer_refusal(before, to_shard == self_id, from, to, value, data.fee) is None {
        lemma_debit_total(before, from, value);
        lemma_debit_total(before, from, data.fee);
        lemma_credit_total(debit(before, from, value), to, (value - data.fee) as nat);
    }
}

/// The first half of a transfer with notification neither creates nor
/// destroys funds.
pub proof fn lemma_notification_keeps_supply(
    before: Balances,
    fees_before: nat,
    data: ManagerContractView,
    self_id: Seq<u8>,
    from: Seq<u8>,
    to_shard: Seq<u8>,
    to: Seq<u8>,
    value: nat,
    notify_principal: Seq<u8>,
    notify_method: Seq<char>,
    payload: Seq<char>,
    r: Result<PendingNotification>,
    after: Balances,
    fees_after: nat,
)
    requires
        before.dom().finite(),
        notification_started(
            before,
            fees_before,
            data,
            self_id,
            from,
            to_shard,
            to,
            value,
            notify_principal,
            notify_method,
            payload,
            r,
            after,
            fees_after,
        ),
    ensures
        after.dom().finite(),
        total(after) + fees_after + held_back(r) == total(before) + fees_before,
{
    if transfer_refusal(before, to_shard == self_id, from, to, value, data.fee) is None {
        lemma_debit_total(before, from, value);
        lemma_debit_total(before, from, data.fee);
    }
}

/// A transfer between two shards that arrives neither creates nor
/// destroys funds: what the two shards hold together, balances and fees,
/// is the same before the sender's shard starts and after the recipient's
/// shard has credited the recipient and the sender's shard has settled.
pub proof fn lemma_delivery_keeps_supply(
    sender_before: Balances,
    fees_before: nat,
    data: ManagerContractView,
    self_id: Seq<u8>,
    from: Seq<u8>,
    to_shard: Seq<u8>,
    to: Seq<u8>,
    value: nat,
    r: Result<TransferStep>,
    sender_after: Balances,
    fees_after: nat,
    recipient_before: Balances,
)
    requires
        sender_before.dom().finite(),
        recipient_before.dom().finite(),
        transfer_started(
            sender_before,
            fees_before,
            data,
            self_id,
            from,
            to_shard,
            to,
            value,
            r,
            sender_after,
            fees_after,
        ),
        r matches Ok(TransferStep::AwaitingRemote(_)),
    ensures
        ({
            let p = r->Ok_0->AwaitingRemote_0@;
            total(settle(sender_after, p, true)) + fees_after + total(
                credit(recipient_before, p.to, p.amount),
            ) == total(sender_before) + fees_before + total(recipient_before)
        }),
{
    let p = r->Ok_0->AwaitingRemote_0@;
    lemma_transfer_keeps_supply(
        sender_before,
        fees_before,
        data,
        self_id,
        from,
        to_shard,
        to,
        value,
        r,
        sender_after,
        fees_after,
    );
    lemma_credit_total(recipient_before, p.to, p.amount);
}

/// Where the other shard fails, the sender pays the fee and nothing else:
/// once the pending value is settled as not delivered, the balances are
/// those from before the transfer with the fee taken from the sender, and
/// the shard holds what it held before.
pub proof fn lemma_rollback_costs_the_fee(
    before: Balances,
    fees_before: nat,
    data: ManagerContractView,
    self_id: Seq<u8>,
    from: Seq<u8>,
    to_shard: Seq<u8>,
    to: Seq<u8>,
    value: nat,
    r: Result<TransferStep>,
    after: Balances,
    fees_after: nat,
)
    requires
        before.dom().finite(),
        transfer_started(
            before,
            fees_before,
            data,
            self_id,
            from,
            to_shard,
            to,
            value,
            r,
            after,
            fees_after,
        ),
        r matches Ok(TransferStep::AwaitingRemote(_)),
    ensures
        ({
            let p = r->Ok_0->AwaitingRemote_0@;
            let settled = settle(after, p, false);
            &&& settled == debit(before, from, data.fee)
            &&& balance_in(settled, from) == balance_in(before, from) - data.fee
            &&& total(settled) + fees_after == total(before) + fees_before
        }),
{
    let p = r->Ok_0->AwaitingRemote_0@;
    assert(settle(after, p, false) =~= debit(before, from, data.fee));
    lemma_debit_total(before, from, data.fee);
}

/// The same for a transfer with notification: where the endpoint or the
/// other shard fails, the sender pays the fee and nothing else.
pub proof fn lemma_failed_notification_costs_the_fee(
    before: Balances,
    fees_before: nat,
    data: ManagerContractView,
    self_id: Seq<u8>,
    from: Seq<u8>,
    to_shard: Seq<u8>,
    to: Seq<u8>,
    value: nat,
    notify_principal: Seq<u8>,
    notify_method: Seq<char>,
    payload: Seq<char>,
    r: Result<PendingNotification>,
    after: Balances,
    fees_after: nat,
)
    requires
        before.dom().finite(),
        notification_started(
            before,
            fees_before,
            data,
            self_id,
            from,
            to_shard,
            to,
            value,
            notify_principal,
            notify_method,
            payload,
            r,
            after,
            fees_after,
        ),
        r is Ok,
    ensures
        ({
            let p = r->Ok_0.pending@;
            let settled = settle(after, p, false);
            &&& settled == debit(before, from, data.fee)
            &&& balance_in(settled, from) == balance_in(before, from) - data.fee
            &&& total(settled) + fees_after == total(before) + fees_before
        }),
{
    let p = r->Ok_0.pending@;
    assert(settle(after, p, false) =~= debit(before, from, data.fee));
    lemma_debit_total(before, from, data.fee);
}

/// Value that is held back goes to exactly one account: to the recipient
/// where it was delivered, to the sender where it was not. That account
/// has the value more, no other account changes, and the shard holds
/// exactly that value more.
pub proof fn lemma_settled_to_exactly_one(b: Balances, p: PendingView, delivered: bool)
    requires
        b.dom().finite(),
        p.local,
    ensures
        ({
            let settled = settle(b, p, delivered);
            let winner = if delivered { p.to } else { p.from };
            &&& balance_in(settled, winner) == balance_in(b, winner) + p.amount
            &&& forall|other: Seq<u8>|
                other != winner ==> balance_in(settled, other) == balance_in(b, other)
            &&& total(settled) == total(b) + p.amount
        }),
{
    let winner = if delivered { p.to } else { p.from };
    lemma_credit_total(b, winner, p.amount);
}

/// Value on its way to another shard is credited on this shard only where
/// the other shard has failed, and then to the sender.
pub proof fn lemma_remote_settlement(b: Balances, p: PendingView, delivered: bool)
    requires
        b.dom().finite(),
        !p.local,
    ensures
        delivered ==> settle(b, p, delivered) == b,
        !delivered ==> settle(b, p, delivered) == credit(b, p.from, p.amount) && total(
            settle(b, p, delivered),
        ) == total(b) + p.amount,
{
    lemma_credit_total(b, p.from, p.amount);
}

/// What one shard holds: its balances and its collected fees.
pub ghost struct ShardFunds {
    pub balances: Balances,
    pub fees: nat,
}

/// All the shards of a ledger with what each holds, and the value that
/// has left one account and has not yet arrived at another.
pub ghost struct Ledger {
    pub shards: Seq<ShardFunds>,
    pub in_flight: nat,
}

/// The funds of one shard: the sum of its balances and its fees.
pub open spec fn funds(s: ShardFunds) -> nat {
    total(s.balances) + s.fees
}

/// The funds of all the shards together.
pub open spec fn all_funds(shards: Seq<ShardFunds>) -> nat
    decreases shards.len(),
{
    if shards.len() == 0 {
        0
    } else {
        all_funds(shards.drop_last()) + funds(shards.last())
    }
}

/// All that the ledger holds: the funds of the shards and the value in
/// flight.
pub open spec fn holdings(l: Ledger) -> nat {
    all_funds(l.shards) + l.in_flight
}

/// Whether the ledger `b` comes from the ledger `a` by one operation of
/// the shard at `i` that neither creates nor destroys funds: no other
/// shard changes, and what the shard gains or loses is what the value in
/// flight loses or gains.
pub open spec fn is_step_of(a: Ledger, b: Ledger, i: int) -> bool {
    &&& 0 <= i < a.shards.len()
    &&& b.shards == a.shards.update(i, b.shards[i])
    &&& funds(b.shards[i]) + b.in_flight == funds(a.shards[i]) + a.in_flight
}

/// Whether the ledger `b` comes from the ledger `a` by one such operation
/// of some shard.
pub open spec fn is_step(a: Ledger, b: Ledger) -> bool {
    exists|i: int| is_step_of(a, b, i)
}

/// Replacing what one shard holds changes the funds of all the shards by
/// the difference.
pub proof fn lemma_all_funds_update(shards: Seq<ShardFunds>, i: int, s: ShardFunds)
    requires
        0 <= i < shards.len(),
    ensures
        all_funds(shards.update(i, s)) + funds(shards[i]) == all_funds(shards) + funds(s),
    decreases shards.len(),
{
    let updated = shards.update(i, s);
    if i == shards.len() - 1 {
        assert(updated.drop_last() =~= shards.drop_last());
    } else {
        assert(updated.drop_last() =~= shards.drop_last().update(i, s));
        lemma_all_funds_update(shards.drop_last(), i, s);
    }
}

/// One operation keeps what the ledger holds.
pub proof fn lemma_step_keeps_holdings(a: Ledger, b: Ledger)
    requires
        is_step(a, b),
    ensures
        holdings(b) == holdings(a),
{
    let i = choose|i: int| is_step_of(a, b, i);
    lemma_all_funds_update(a.shards, i, b.shards[i]);
}

/// Whatever run of operations the shards make, the ledger holds in the
/// end what it held at the start: the sum of all balances, all fees and
/// the value in flight never changes.
pub proof fn lemma_run_keeps_holdings(run: Seq<Ledger>, k: int)
    requires
        forall|j: int| 0 <= j < run.len() - 1 ==> is_step(#[trigger] run[j], run[j + 1]),
        0 <= k < run.len(),
    ensures
        holdings(run[k]) == holdings(run[0]),
    decreases k,
{
    if k > 0 {
        lemma_run_keeps_holdings(run, k - 1);
        assert(is_step(run[k - 1], run[k - 1 + 1]));
        lemma_step_keeps_holdings(run[k - 1], run[k]);
    }
}

/// The first half of a transfer on the shard at `i` is such an operation:
/// what leaves the shard is in flight.
pub proof fn lemma_transfer_is_a_step(
    a: Ledger,
    i: int,
    data: ManagerContractView,
    self_id: Seq<u8>,
    from: Seq<u8>,
    to_shard: Seq<u8>,
    to: Seq<u8>,
    value: nat,
    r: Result<TransferStep>,
    after: Balances,
    fees_after: nat,
)
    requires
        0 <= i < a.shards.len(),
        a.shards[i].balances.dom().finite(),
        transfer_started(
            a.shards[i].balances,
            a.shards[i].fees,
            data,
            self_id,
            from,
            to_shard,
            to,
            value,
            r,
            after,
            fees_after,
        ),
    ensures
        is_step(
            a,
            Ledger {
                shards: a.shards.update(i, ShardFunds { balances: after, fees: fees_after }),
                in_flight: a.in_flight + in_flight(r),
            },
        ),
{
    let b = Ledger {
        shards: a.shards.update(i, ShardFunds { balances: after, fees: fees_after }),
        in_flight: a.in_flight + in_flight(r),
    };
    lemma_transfer_keeps_supply(
        a.shards[i].balances,
        a.shards[i].fees,
        data,
        self_id,
        from,
        to_shard,
        to,
        value,
        r,
        after,
        fees_after,
    );
    assert(b.shards =~= a.shards.update(i, b.shards[i]));
    assert(is_step_of(a, b, i));
}

/// The first half of a transfer with notification on the shard at `i` is
/// such an operation: what is held back is in flight.
pub proof fn lemma_notification_is_a_step(
    a: Ledger,
    i: int,
    data: ManagerContractView,
    self_id: Seq<u8>,
    from: Seq<u8>,
    to_shard: Seq<u8>,
    to: Seq<u8>,
    value: nat,
    notify_principal: Seq<u8>,
    notify_method: Seq<char>,
    payload: Seq<char>,
    r: Result<PendingNotification>,
    after: Balances,
    fees_after: nat,
)
    requires
        0 <= i < a.shards.len(),
        a.shards[i].balances.dom().finite(),
        notification_started(
            a.shards[i].balances,
            a.shards[i].fees,
            data,
            self_id,
            from,
            to_shard,
            to,
            value,
            notify_principal,
            notify_method,
            payload,
            r,
            after,
            fees_after,
        ),
    ensures
        is_step(
            a,
            Ledger {
                shards: a.shards.update(i, ShardFunds { balances: after, fees: fees_after }),
                in_flight: a.in_flight + held_back(r),
            },
        ),
{
    let b = Ledger {
        shards: a.shards.update(i, ShardFunds { balances: after, fees: fees_after }),
        in_flight: a.in_flight + held_back(r),
    };
    lemma_notification_keeps_supply(
        a.shards[i].balances,
        a.shards[i].fees,
        data,
        self_id,
        from,
        to_shard,
        to,
        value,
        notify_principal,
        notify_method,
        payload,
        r,
        after,
        fees_after,
    );
    assert(b.shards =~= a.shards.update(i, b.shards[i]));
    assert(is_step_of(a, b, i));
}

/// Crediting on the shard at `i` value that was in flight is such an
/// operation. This is what the shard of the recipient does with a
/// transfer that is handed over, and what the shard of the sender does
/// with value that comes back or is delivered to a recipient of its own.
pub proof fn lemma_arrival_is_a_step(a: Ledger, i: int, who: Seq<u8>, amount: nat)
    requires
        0 <= i < a.shards.len(),
        a.shards[i].balances.dom().finite(),
        a.in_flight >= amount,
    ensures
        is_step(
            a,
            Ledger {
                shards: a.shards.update(
                    i,
                    ShardFunds {
                        balances: credit(a.shards[i].balances, who, amount),
                        fees: a.shards[i].fees,
                    },
                ),
                in_flight: (a.in_flight - amount) as nat,
            },
        ),
{
    let b = Ledger {
        shards: a.shards.update(
            i,
            ShardFunds { balances: credit(a.shards[i].balances, who, amount), fees: a.shards[i].fees },
        ),
        in_flight: (a.in_flight - amount) as nat,
    };
    lemma_credit_total(a.shards[i].balances, who, amount);
    assert(b.shards =~= a.shards.update(i, b.shards[i]));
    assert(is_step_of(a, b, i));
}

} // verus!
