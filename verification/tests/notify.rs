use candid::{Nat, Principal};
use enoki_wrapped_token::shard::balances::{
    add_spender, balance_of, complete_receive_transfer_and_call, complete_transfer,
    create_account, increase_balance, receive_transfer_and_call, shard_get_supply, spend_and_call,
    transfer_and_call, transfer_and_call_internal, ShardBalancesState,
};
use enoki_wrapped_token::shard::fees::{get_accrued_fees, FeeBalance};
use enoki_wrapped_token::shard::management::{
    add_sibling_shard, finish_init, init, set_fee, ManagerContractData,
};
use enoki_wrapped_token::types::{RejectionCode, TxError};

fn node(n: u8) -> Principal {
    Principal::from_slice(&[n, 2, 2])
}

fn units(n: u64) -> Nat {
    Nat::from(n)
}

const ADMIN: u8 = 1;
const MANAGER_NODE: u8 = 2;
const ASSET: u8 = 3;
const HERE: u8 = 10;
const THERE: u8 = 11;
const ALICE: u8 = 21;
const BOB: u8 = 22;
const EXCHANGE: u8 = 50;

fn shard_with(
    siblings: &[u8],
    fee: u64,
    accounts: &[(u8, u64)],
) -> (ShardBalancesState, FeeBalance, ManagerContractData) {
    let mut data = init(node(ADMIN), 0);
    finish_init(&mut data, &node(ADMIN), node(MANAGER_NODE), node(ASSET)).unwrap();
    for s in siblings {
        add_sibling_shard(&mut data, &node(MANAGER_NODE), node(*s)).unwrap();
    }
    set_fee(&mut data, &node(MANAGER_NODE), units(fee)).unwrap();
    let mut state = ShardBalancesState::new();
    for (who, held) in accounts {
        create_account(&mut state, &data, &node(MANAGER_NODE), node(*who)).unwrap();
        increase_balance(&mut state, node(*who), units(*held));
    }
    (state, FeeBalance::default(), data)
}

fn holds(state: &ShardBalancesState, shard: u8, who: u8) -> Nat {
    balance_of(state, &node(shard), &node(who)).unwrap()
}

fn rejected() -> TxError {
    TxError::from((RejectionCode::CanisterReject, "no".to_string()))
}

#[test]
fn local_notification_holds_the_value_back() {
    let (mut a, mut fees, data) = shard_with(&[THERE], 2, &[(ALICE, 100), (BOB, 1)]);
    let started = transfer_and_call(
        &mut a,
        &mut fees,
        &data,
        &node(HERE),
        node(ALICE),
        node(HERE),
        node(BOB),
        units(30),
        node(EXCHANGE),
        "deposit".to_string(),
        "memo".to_string(),
    )
    .unwrap();
    assert_eq!(holds(&a, HERE, ALICE), units(70));
    assert_eq!(holds(&a, HERE, BOB), units(1));
    assert_eq!(get_accrued_fees(&fees), units(2));
    assert_eq!(shard_get_supply(&a, &fees), units(73));
    assert!(started.pending.is_local());
    assert_eq!(started.pending.amount(), units(28));
    assert_eq!(started.notify_principal, node(EXCHANGE));
    assert_eq!(started.notify_method, "deposit");
    assert_eq!(started.notification.from, node(ALICE));
    assert_eq!(started.notification.from_shard, node(HERE));
    assert_eq!(started.notification.to, node(BOB));
    assert_eq!(started.notification.fee_charged, units(2));
    assert_eq!(started.notification.value, units(28));
    assert_eq!(started.notification.data, "memo");
}

#[test]
fn answered_notification_credits_the_recipient_only() {
    let (mut a, mut fees, data) = shard_with(&[THERE], 2, &[(ALICE, 100), (BOB, 1)]);
    let started = transfer_and_call_internal(
        &mut a,
        &mut fees,
        &data,
        &node(HERE),
        node(ALICE),
        node(HERE),
        node(BOB),
        units(30),
        node(EXCHANGE),
        "deposit".to_string(),
        String::new(),
    )
    .unwrap();
    let r = complete_transfer(&mut a, started.pending, Ok("token-7".to_string()));
    assert_eq!(r, Ok("token-7".to_string()));
    assert_eq!(holds(&a, HERE, ALICE), units(70));
    assert_eq!(holds(&a, HERE, BOB), units(29));
    assert_eq!(shard_get_supply(&a, &fees), units(101));
}

#[test]
fn failed_notification_credits_the_sender_only() {
    let (mut a, mut fees, data) = shard_with(&[THERE], 2, &[(ALICE, 100), (BOB, 1)]);
    let started = transfer_and_call_internal(
        &mut a,
        &mut fees,
        &data,
        &node(HERE),
        node(ALICE),
        node(HERE),
        node(BOB),
        units(30),
        node(EXCHANGE),
        "deposit".to_string(),
        String::new(),
    )
    .unwrap();
    let r = complete_transfer(&mut a, started.pending, Err::<String, TxError>(rejected()));
    assert_eq!(r, Err(rejected()));
    assert_eq!(holds(&a, HERE, ALICE), units(98));
    assert_eq!(holds(&a, HERE, BOB), units(1));
    assert_eq!(get_accrued_fees(&fees), units(2));
    assert_eq!(shard_get_supply(&a, &fees), units(101));
}

#[test]
fn forwarded_notification_is_settled_on_both_shards() {
    let (mut a, mut fees_a, data_a) = shard_with(&[THERE], 2, &[(ALICE, 100)]);
    let (mut b, fees_b, data_b) = shard_with(&[HERE], 2, &[(BOB, 1)]);
    let started = transfer_and_call(
        &mut a,
        &mut fees_a,
        &data_a,
        &node(HERE),
        node(ALICE),
        node(THERE),
        node(BOB),
        units(30),
        node(EXCHANGE),
        "deposit".to_string(),
        String::new(),
    )
    .unwrap();
    assert!(!started.pending.is_local());
    assert_eq!(started.pending.to_shard(), node(THERE));
    let receipt =
        receive_transfer_and_call(&b, &data_b, &node(THERE), &node(HERE), &started.notification)
            .ok()
            .unwrap();
    assert_eq!(holds(&b, THERE, BOB), units(1));
    let answer = complete_receive_transfer_and_call(&mut b, receipt, Ok("done".to_string()));
    assert_eq!(answer, Ok("done".to_string()));
    assert_eq!(holds(&b, THERE, BOB), units(29));
    assert_eq!(complete_transfer(&mut a, started.pending, answer), Ok("done".to_string()));
    assert_eq!(holds(&a, HERE, ALICE), units(70));
    assert_eq!(shard_get_supply(&a, &fees_a) + shard_get_supply(&b, &fees_b), units(101));
}

#[test]
fn forwarded_notification_that_fails_goes_back_to_the_sender() {
    let (mut a, mut fees_a, data_a) = shard_with(&[THERE], 2, &[(ALICE, 100)]);
    let (mut b, fees_b, data_b) = shard_with(&[HERE], 2, &[(BOB, 1)]);
    let started = transfer_and_call(
        &mut a,
        &mut fees_a,
        &data_a,
        &node(HERE),
        node(ALICE),
        node(THERE),
        node(BOB),
        units(30),
        node(EXCHANGE),
        "deposit".to_string(),
        String::new(),
    )
    .unwrap();
    let receipt =
        receive_transfer_and_call(&b, &data_b, &node(THERE), &node(HERE), &started.notification)
            .ok()
            .unwrap();
    let answer = complete_receive_transfer_and_call(&mut b, receipt, Err::<String, _>(rejected()));
    assert_eq!(answer, Err(rejected()));
    assert_eq!(holds(&b, THERE, BOB), units(1));
    assert_eq!(complete_transfer(&mut a, started.pending, answer), Err(rejected()));
    assert_eq!(holds(&a, HERE, ALICE), units(98));
    assert_eq!(shard_get_supply(&a, &fees_a) + shard_get_supply(&b, &fees_b), units(101));
}

#[test]
fn received_notification_needs_a_sibling_and_an_account() {
    let (mut a, mut fees_a, data_a) = shard_with(&[THERE], 2, &[(ALICE, 100)]);
    let (b, _, data_b) = shard_with(&[HERE], 2, &[(ALICE, 1)]);
    let started = transfer_and_call(
        &mut a,
        &mut fees_a,
        &data_a,
        &node(HERE),
        node(ALICE),
        node(THERE),
        node(BOB),
        units(30),
        node(EXCHANGE),
        "deposit".to_string(),
        String::new(),
    )
    .unwrap();
    let stranger =
        receive_transfer_and_call(&b, &data_b, &node(THERE), &node(12), &started.notification);
    assert_eq!(stranger.err(), Some(TxError::Unauthorized));
    let unknown =
        receive_transfer_and_call(&b, &data_b, &node(THERE), &node(HERE), &started.notification);
    assert_eq!(
        unknown.err(),
        Some(TxError::AccountDoesNotExist {
            shard: node(THERE).to_text(),
            user: node(BOB).to_text()
        })
    );
}

#[test]
fn notification_for_a_shard_that_is_no_sibling_costs_the_fee() {
    let (mut a, mut fees, data) = shard_with(&[THERE], 2, &[(ALICE, 100)]);
    let r = transfer_and_call(
        &mut a,
        &mut fees,
        &data,
        &node(HERE),
        node(ALICE),
        node(12),
        node(BOB),
        units(30),
        node(EXCHANGE),
        "deposit".to_string(),
        String::new(),
    );
    assert_eq!(r.err(), Some(TxError::Unauthorized));
    assert_eq!(holds(&a, HERE, ALICE), units(98));
    assert_eq!(get_accrued_fees(&fees), units(2));
}

#[test]
fn notification_that_is_refused_changes_nothing() {
    let (mut a, mut fees, data) = shard_with(&[THERE], 2, &[(ALICE, 100)]);
    let r = transfer_and_call(
        &mut a,
        &mut fees,
        &data,
        &node(HERE),
        node(ALICE),
        node(THERE),
        node(BOB),
        units(2),
        node(EXCHANGE),
        "deposit".to_string(),
        String::new(),
    );
    assert_eq!(r.err(), Some(TxError::TransferValueTooSmall));
    assert_eq!(holds(&a, HERE, ALICE), units(100));
    assert_eq!(get_accrued_fees(&fees), units(0));
}

#[test]
fn only_a_spender_spends_with_notification() {
    let (mut a, mut fees, data) = shard_with(&[THERE], 2, &[(ALICE, 100), (BOB, 0)]);
    let r = spend_and_call(
        &mut a,
        &mut fees,
        &data,
        &node(HERE),
        &node(EXCHANGE),
        node(ALICE),
        node(HERE),
        node(BOB),
        units(30),
        node(EXCHANGE),
        "deposit".to_string(),
        String::new(),
    );
    assert_eq!(r.err(), Some(TxError::Unauthorized));
    assert_eq!(holds(&a, HERE, ALICE), units(100));
    add_spender(&mut a, node(ALICE), node(EXCHANGE));
    let started = spend_and_call(
        &mut a,
        &mut fees,
        &data,
        &node(HERE),
        &node(EXCHANGE),
        node(ALICE),
        node(HERE),
        node(BOB),
        units(30),
        node(EXCHANGE),
        "deposit".to_string(),
        String::new(),
    )
    .unwrap();
    assert_eq!(started.notification.from, node(ALICE));
    assert_eq!(holds(&a, HERE, ALICE), units(70));
    assert_eq!(complete_transfer(&mut a, started.pending, Ok(())), Ok(()));
    assert_eq!(holds(&a, HERE, BOB), units(28));
}
