use candid::{Nat, Principal};
use enoki_wrapped_token::shard::balances::{
    balance_of, increase_balance, shard_get_supply, ShardBalancesState,
};
use enoki_wrapped_token::shard::fees::{get_accrued_fees, FeeBalance};
use enoki_wrapped_token::shard::management::{finish_init, init, set_fee, ManagerContractData};
use enoki_wrapped_token::shard::mint::{complete_unwrap, deposit_token, unwrap, withdraw_token, wrap};
use enoki_wrapped_token::types::TxError;

fn user(n: u8) -> Principal {
    Principal::from_slice(&[n, 5])
}

fn wrapped(n: u64) -> Nat {
    Nat::from(n)
}

fn with_fee(fee: u64) -> ManagerContractData {
    let mut data = init(user(1), 0);
    finish_init(&mut data, &user(1), user(2), user(3)).unwrap();
    set_fee(&mut data, &user(2), wrapped(fee)).unwrap();
    data
}

fn holding(state: &ShardBalancesState, who: u8) -> Nat {
    balance_of(state, &user(10), &user(who)).unwrap()
}

#[test]
fn a_deposit_needs_the_allowance() {
    assert_eq!(
        deposit_token(&wrapped(99), &wrapped(100), &wrapped(3)),
        Err(TxError::InsufficientBalance)
    );
    assert_eq!(deposit_token(&wrapped(100), &wrapped(100), &wrapped(3)), Ok(wrapped(97)));
    assert_eq!(deposit_token(&wrapped(500), &wrapped(100), &wrapped(100)), Ok(wrapped(0)));
    assert_eq!(
        deposit_token(&wrapped(0), &wrapped(1), &wrapped(7)),
        Err(TxError::InsufficientBalance)
    );
    assert_eq!(
        deposit_token(&wrapped(500), &wrapped(100), &wrapped(101)),
        Err(TxError::InsufficientBalance)
    );
}

#[test]
fn a_deposit_that_arrived_is_credited() {
    let mut state = ShardBalancesState::new();
    assert_eq!(wrap(&mut state, user(20), wrapped(97), false), Err(TxError::UnderlyingTransferFailure));
    assert!(balance_of(&state, &user(10), &user(20)).is_err());
    assert_eq!(wrap(&mut state, user(20), wrapped(97), true), Ok(()));
    assert_eq!(holding(&state, 20), wrapped(97));
}

#[test]
fn a_withdrawal_takes_amount_and_fee() {
    let data = with_fee(2);
    let mut state = ShardBalancesState::new();
    let mut fees = FeeBalance::default();
    increase_balance(&mut state, user(20), wrapped(50));
    let pending = unwrap(&mut state, &mut fees, &data, user(20), wrapped(30)).ok().unwrap();
    assert_eq!(holding(&state, 20), wrapped(20));
    assert_eq!(get_accrued_fees(&fees), wrapped(2));
    assert_eq!(withdraw_token(&pending, &wrapped(3)), Some(wrapped(25)));
    assert_eq!(withdraw_token(&pending, &wrapped(28)), Some(wrapped(0)));
    assert_eq!(withdraw_token(&pending, &wrapped(29)), None);
    assert_eq!(complete_unwrap(&mut state, pending, true), Ok(()));
    assert_eq!(holding(&state, 20), wrapped(20));
    assert_eq!(shard_get_supply(&state, &fees), wrapped(22));
}

#[test]
fn a_withdrawal_that_fails_gives_the_value_back_without_the_fee() {
    let data = with_fee(2);
    let mut state = ShardBalancesState::new();
    let mut fees = FeeBalance::default();
    increase_balance(&mut state, user(20), wrapped(50));
    let pending = unwrap(&mut state, &mut fees, &data, user(20), wrapped(30)).ok().unwrap();
    assert_eq!(
        complete_unwrap(&mut state, pending, false),
        Err(TxError::UnderlyingTransferFailure)
    );
    assert_eq!(holding(&state, 20), wrapped(48));
    assert_eq!(get_accrued_fees(&fees), wrapped(2));
    assert_eq!(shard_get_supply(&state, &fees), wrapped(50));
}

#[test]
fn a_withdrawal_has_to_exceed_the_fee_and_be_covered() {
    let data = with_fee(2);
    let mut state = ShardBalancesState::new();
    let mut fees = FeeBalance::default();
    increase_balance(&mut state, user(20), wrapped(50));
    for amount in [0, 1, 2, 51] {
        let r = unwrap(&mut state, &mut fees, &data, user(20), wrapped(amount));
        assert_eq!(r.err(), Some(TxError::InsufficientBalance));
        assert_eq!(holding(&state, 20), wrapped(50));
        assert_eq!(get_accrued_fees(&fees), wrapped(0));
    }
    let r = unwrap(&mut state, &mut fees, &data, user(21), wrapped(3));
    assert_eq!(r.err(), Some(TxError::InsufficientBalance));
    assert!(unwrap(&mut state, &mut fees, &data, user(20), wrapped(50)).is_ok());
    assert_eq!(holding(&state, 20), wrapped(0));
}
