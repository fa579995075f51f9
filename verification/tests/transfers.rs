use candid::{Nat, Principal};
use enoki_wrapped_token::shard::balances::{
    add_spender, assert_is_spender, balance_of, complete_transfer, create_account,
    increase_balance, pre_transfer_check, receive_transfer, remove_spender, shard_get_supply,
    spend, transfer, transfer_from_manager, transfer_internal, ShardBalancesState, TransferStep,
};
use enoki_wrapped_token::shard::fees::{get_accrued_fees, FeeBalance};
use enoki_wrapped_token::shard::management::{
    add_sibling_shard, finish_init, init, set_fee, ManagerContractData,
};
use enoki_wrapped_token::types::{RejectionCode, TxError};

fn id(n: u8) -> Principal {
    Principal::from_slice(&[n, 1, 1])
}

fn amount(n: u64) -> Nat {
    Nat::from(n)
}

const OWNER: u8 = 1;
const MANAGER: u8 = 2;
const TOKEN: u8 = 3;
const SHARD_A: u8 = 10;
const SHARD_B: u8 = 11;
const U1: u8 = 21;
const U2: u8 = 22;

/// A shard with the given siblings and fee, and the accounts with what they hold.
fn shard(
    siblings: &[u8],
    fee: u64,
    accounts: &[(u8, u64)],
) -> (ShardBalancesState, FeeBalance, ManagerContractData) {
    let mut data = init(id(OWNER), 0);
    finish_init(&mut data, &id(OWNER), id(MANAGER), id(TOKEN)).unwrap();
    for s in siblings {
        add_sibling_shard(&mut data, &id(MANAGER), id(*s)).unwrap();
    }
    set_fee(&mut data, &id(MANAGER), amount(fee)).unwrap();
    let mut state = ShardBalancesState::new();
    for (who, held) in accounts {
        create_account(&mut state, &data, &id(MANAGER), id(*who)).unwrap();
        increase_balance(&mut state, id(*who), amount(*held));
    }
    (state, FeeBalance::default(), data)
}

#[test]
fn cross_shard_transfer_that_fails_costs_the_fee() {
    let (mut a, mut fees, data) = shard(&[SHARD_B], 1, &[(U1, 100)]);
    let step = transfer(&mut a, &mut fees, &data, &id(SHARD_A), id(U1), id(SHARD_B), id(U2), amount(50))
        .unwrap();
    let pending = match step {
        TransferStep::AwaitingRemote(p) => p,
        TransferStep::Settled => panic!("the recipient is on another shard"),
    };
    assert_eq!(pending.amount(), amount(49));
    assert_eq!(pending.to(), id(U2));
    assert_eq!(pending.to_shard(), id(SHARD_B));
    assert_eq!(balance_of(&a, &id(SHARD_A), &id(U1)).unwrap(), amount(50));
    let failure = TxError::from((RejectionCode::CanisterError, "trapped".to_string()));
    let r = complete_transfer(&mut a, pending, Err::<(), TxError>(failure.clone()));
    assert_eq!(r, Err(failure));
    assert_eq!(balance_of(&a, &id(SHARD_A), &id(U1)).unwrap(), amount(99));
    assert_eq!(get_accrued_fees(&fees), amount(1));
    assert_eq!(shard_get_supply(&a, &fees), amount(100));
}

#[test]
fn cross_shard_transfer_that_arrives() {
    let (mut a, mut fees_a, data_a) = shard(&[SHARD_B], 1, &[(U1, 100)]);
    let (mut b, fees_b, data_b) = shard(&[SHARD_A], 1, &[(U2, 0)]);
    let step = transfer(
        &mut a,
        &mut fees_a,
        &data_a,
        &id(SHARD_A),
        id(U1),
        id(SHARD_B),
        id(U2),
        amount(50),
    )
    .unwrap();
    let pending = match step {
        TransferStep::AwaitingRemote(p) => p,
        TransferStep::Settled => panic!("the recipient is on another shard"),
    };
    let answer = receive_transfer(
        &mut b,
        &data_b,
        &id(SHARD_B),
        &id(SHARD_A),
        pending.to(),
        pending.amount(),
    );
    assert_eq!(answer, Ok(()));
    assert_eq!(complete_transfer(&mut a, pending, answer), Ok(()));
    assert_eq!(balance_of(&a, &id(SHARD_A), &id(U1)).unwrap(), amount(50));
    assert_eq!(balance_of(&b, &id(SHARD_B), &id(U2)).unwrap(), amount(49));
    assert_eq!(get_accrued_fees(&fees_a), amount(1));
    assert_eq!(shard_get_supply(&a, &fees_a) + shard_get_supply(&b, &fees_b), amount(100));
}

fn held(state: &ShardBalancesState, who: u8) -> Nat {
    balance_of(state, &id(SHARD_A), &id(who)).unwrap()
}

fn missing(shard: u8, user: u8) -> TxError {
    TxError::AccountDoesNotExist { shard: id(shard).to_text(), user: id(user).to_text() }
}

#[test]
fn local_transfer_moves_the_value_less_the_fee() {
    let (mut a, mut fees, data) = shard(&[SHARD_B], 3, &[(U1, 100), (U2, 7)]);
    let step =
        transfer(&mut a, &mut fees, &data, &id(SHARD_A), id(U1), id(SHARD_A), id(U2), amount(50));
    assert!(matches!(step, Ok(TransferStep::Settled)));
    assert_eq!(held(&a, U1), amount(50));
    assert_eq!(held(&a, U2), amount(54));
    assert_eq!(get_accrued_fees(&fees), amount(3));
    assert_eq!(shard_get_supply(&a, &fees), amount(107));
}

#[test]
fn local_transfer_to_oneself_costs_the_fee() {
    let (mut a, mut fees, data) = shard(&[], 2, &[(U1, 10)]);
    let step =
        transfer(&mut a, &mut fees, &data, &id(SHARD_A), id(U1), id(SHARD_A), id(U1), amount(10));
    assert!(matches!(step, Ok(TransferStep::Settled)));
    assert_eq!(held(&a, U1), amount(8));
    assert_eq!(shard_get_supply(&a, &fees), amount(10));
}

#[test]
fn transfer_from_an_unknown_sender_is_refused() {
    let (mut a, mut fees, data) = shard(&[SHARD_B], 1, &[(U1, 100)]);
    let r = transfer(&mut a, &mut fees, &data, &id(SHARD_A), id(U2), id(SHARD_B), id(U1), amount(5));
    assert_eq!(r.err(), Some(missing(SHARD_A, U2)));
    assert_eq!(held(&a, U1), amount(100));
    assert_eq!(get_accrued_fees(&fees), amount(0));
}

#[test]
fn local_transfer_to_an_unknown_recipient_is_refused() {
    let (mut a, mut fees, data) = shard(&[SHARD_B], 1, &[(U1, 100)]);
    let r = transfer(&mut a, &mut fees, &data, &id(SHARD_A), id(U1), id(SHARD_A), id(U2), amount(5));
    assert_eq!(r.err(), Some(missing(SHARD_A, U2)));
    assert_eq!(held(&a, U1), amount(100));
    assert_eq!(get_accrued_fees(&fees), amount(0));
}

#[test]
fn the_recipient_of_a_cross_shard_transfer_is_not_looked_up() {
    let (a, _, _) = shard(&[SHARD_B], 1, &[(U1, 100)]);
    let check = pre_transfer_check(
        &a,
        &id(SHARD_A),
        &id(U1),
        &id(SHARD_B),
        &id(U2),
        &amount(5),
        &amount(1),
    );
    assert_eq!(check, Ok(()));
}

#[test]
fn transfer_of_no_more_than_the_fee_is_refused() {
    let (mut a, mut fees, data) = shard(&[SHARD_B], 5, &[(U1, 100), (U2, 0)]);
    let r = transfer(&mut a, &mut fees, &data, &id(SHARD_A), id(U1), id(SHARD_A), id(U2), amount(5));
    assert_eq!(r.err(), Some(TxError::TransferValueTooSmall));
    let r = transfer(&mut a, &mut fees, &data, &id(SHARD_A), id(U1), id(SHARD_A), id(U2), amount(4));
    assert_eq!(r.err(), Some(TxError::TransferValueTooSmall));
    assert_eq!(held(&a, U1), amount(100));
    assert_eq!(get_accrued_fees(&fees), amount(0));
    let r = transfer(&mut a, &mut fees, &data, &id(SHARD_A), id(U1), id(SHARD_A), id(U2), amount(6));
    assert!(r.is_ok());
    assert_eq!(held(&a, U2), amount(1));
}

#[test]
fn transfer_of_more_than_the_sender_holds_is_refused() {
    let (mut a, mut fees, data) = shard(&[SHARD_B], 1, &[(U1, 100), (U2, 0)]);
    let r =
        transfer(&mut a, &mut fees, &data, &id(SHARD_A), id(U1), id(SHARD_A), id(U2), amount(101));
    assert_eq!(r.err(), Some(TxError::InsufficientBalance));
    assert_eq!(held(&a, U1), amount(100));
    assert_eq!(held(&a, U2), amount(0));
    assert_eq!(get_accrued_fees(&fees), amount(0));
    let r =
        transfer(&mut a, &mut fees, &data, &id(SHARD_A), id(U1), id(SHARD_A), id(U2), amount(100));
    assert!(r.is_ok());
    assert_eq!(held(&a, U1), amount(0));
    assert_eq!(held(&a, U2), amount(99));
}

#[test]
fn the_checks_come_in_order() {
    let (a, _, _) = shard(&[], 5, &[(U1, 1)]);
    let unknown_both =
        pre_transfer_check(&a, &id(SHARD_A), &id(U2), &id(SHARD_A), &id(30), &amount(1), &amount(5));
    assert_eq!(unknown_both, Err(missing(SHARD_A, U2)));
    let unknown_recipient =
        pre_transfer_check(&a, &id(SHARD_A), &id(U1), &id(SHARD_A), &id(30), &amount(1), &amount(5));
    assert_eq!(unknown_recipient, Err(missing(SHARD_A, 30)));
    let small_and_poor =
        pre_transfer_check(&a, &id(SHARD_A), &id(U1), &id(SHARD_A), &id(U1), &amount(5), &amount(5));
    assert_eq!(small_and_poor, Err(TxError::TransferValueTooSmall));
    let poor =
        pre_transfer_check(&a, &id(SHARD_A), &id(U1), &id(SHARD_A), &id(U1), &amount(6), &amount(5));
    assert_eq!(poor, Err(TxError::InsufficientBalance));
}

#[test]
fn transfer_to_a_shard_that_is_no_sibling_costs_the_fee() {
    let (mut a, mut fees, data) = shard(&[SHARD_B], 1, &[(U1, 100)]);
    let r = transfer(&mut a, &mut fees, &data, &id(SHARD_A), id(U1), id(12), id(U2), amount(50));
    assert_eq!(r.err(), Some(TxError::Unauthorized));
    assert_eq!(held(&a, U1), amount(99));
    assert_eq!(get_accrued_fees(&fees), amount(1));
    assert_eq!(shard_get_supply(&a, &fees), amount(100));
}

#[test]
fn only_the_manager_transfers_for_others() {
    let (mut a, mut fees, data) = shard(&[SHARD_B], 1, &[(U1, 100), (U2, 0)]);
    let r = transfer_from_manager(
        &mut a,
        &mut fees,
        &data,
        &id(SHARD_A),
        &id(U1),
        id(U1),
        id(SHARD_A),
        id(U2),
        amount(10),
    );
    assert_eq!(r.err(), Some(TxError::Unauthorized));
    assert_eq!(held(&a, U1), amount(100));
    let r = transfer_from_manager(
        &mut a,
        &mut fees,
        &data,
        &id(SHARD_A),
        &id(MANAGER),
        id(U1),
        id(SHARD_A),
        id(U2),
        amount(10),
    );
    assert!(matches!(r, Ok(TransferStep::Settled)));
    assert_eq!(held(&a, U1), amount(90));
    assert_eq!(held(&a, U2), amount(9));
}

#[test]
fn only_a_spender_spends() {
    let (mut a, mut fees, data) = shard(&[SHARD_B], 1, &[(U1, 100), (U2, 0)]);
    let spender = id(40);
    assert_eq!(assert_is_spender(&a, &spender, &id(U1)), Err(TxError::Unauthorized));
    let r = spend(
        &mut a,
        &mut fees,
        &data,
        &id(SHARD_A),
        &spender,
        id(U1),
        id(SHARD_A),
        id(U2),
        amount(10),
    );
    assert_eq!(r.err(), Some(TxError::Unauthorized));
    assert_eq!(held(&a, U1), amount(100));

    add_spender(&mut a, id(U1), spender);
    assert_eq!(assert_is_spender(&a, &spender, &id(U1)), Ok(()));
    assert_eq!(assert_is_spender(&a, &spender, &id(U2)), Err(TxError::Unauthorized));
    assert_eq!(assert_is_spender(&a, &id(U1), &spender), Err(TxError::Unauthorized));
    let r = spend(
        &mut a,
        &mut fees,
        &data,
        &id(SHARD_A),
        &spender,
        id(U1),
        id(SHARD_A),
        id(U2),
        amount(10),
    );
    assert!(matches!(r, Ok(TransferStep::Settled)));
    assert_eq!(held(&a, U1), amount(90));
    assert_eq!(held(&a, U2), amount(9));

    remove_spender(&mut a, id(U1), spender);
    assert_eq!(assert_is_spender(&a, &spender, &id(U1)), Err(TxError::Unauthorized));
    assert_eq!(held(&a, U1), amount(90));
}

#[test]
fn spenders_are_kept_per_account() {
    let (mut a, _, _) = shard(&[], 1, &[(U1, 1), (U2, 1)]);
    add_spender(&mut a, id(U1), id(40));
    add_spender(&mut a, id(U1), id(41));
    add_spender(&mut a, id(U2), id(40));
    add_spender(&mut a, id(U1), id(40));
    remove_spender(&mut a, id(U1), id(40));
    assert_eq!(assert_is_spender(&a, &id(40), &id(U1)), Err(TxError::Unauthorized));
    assert_eq!(assert_is_spender(&a, &id(41), &id(U1)), Ok(()));
    assert_eq!(assert_is_spender(&a, &id(40), &id(U2)), Ok(()));
    remove_spender(&mut a, id(30), id(40));
    assert_eq!(assert_is_spender(&a, &id(40), &id(30)), Err(TxError::Unauthorized));
}

#[test]
fn received_transfer_needs_a_sibling_and_an_account() {
    let (mut b, fees, data) = shard(&[SHARD_A], 1, &[(U2, 5)]);
    let r = receive_transfer(&mut b, &data, &id(SHARD_B), &id(12), id(U2), amount(49));
    assert_eq!(r, Err(TxError::Unauthorized));
    let r = receive_transfer(&mut b, &data, &id(SHARD_B), &id(SHARD_A), id(U1), amount(49));
    assert_eq!(r, Err(missing(SHARD_B, U1)));
    assert_eq!(shard_get_supply(&b, &fees), amount(5));
    let r = receive_transfer(&mut b, &data, &id(SHARD_B), &id(SHARD_A), id(U2), amount(49));
    assert_eq!(r, Ok(()));
    assert_eq!(balance_of(&b, &id(SHARD_B), &id(U2)).unwrap(), amount(54));
}

#[test]
fn transfer_internal_is_what_transfer_runs() {
    let (mut a, mut fees, data) = shard(&[SHARD_B], 1, &[(U1, 100)]);
    let step = transfer_internal(
        &mut a,
        &mut fees,
        &data,
        &id(SHARD_A),
        id(U1),
        id(SHARD_B),
        id(U2),
        amount(2),
    )
    .unwrap();
    match step {
        TransferStep::AwaitingRemote(p) => {
            assert_eq!(p.from(), id(U1));
            assert_eq!(p.amount(), amount(1));
            assert!(!p.is_local());
            assert_eq!(complete_transfer(&mut a, p, Ok(7u8)), Ok(7u8));
        }
        TransferStep::Settled => panic!("the recipient is on another shard"),
    }
    assert_eq!(held(&a, U1), amount(98));
    assert_eq!(shard_get_supply(&a, &fees), amount(99));
}
