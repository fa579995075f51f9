use candid::{Nat, Principal};
use enoki_wrapped_token::manager::accounts::{
    confirm_registration, get_assigned_shard_id, get_user_account, register, Registration,
    UserAccounts,
};
use enoki_wrapped_token::manager::management::{
    assert_is_owner, get_fee, init, init_fee, owner, set_fee, set_owner, stats, Stats,
};
use enoki_wrapped_token::manager::metadata::{
    decimals, get_logo, get_underlying_token, init_metadata, name, set_logo, symbol, Metadata,
};
use enoki_wrapped_token::manager::shards::{
    add_shard, add_shard_init, add_shard_told, balance_of, foreach_shard, get_accrued_fees,
    get_lowest_utilization_shard, get_shard_ids, get_shards_info, import_stable_storage,
    total_supply, update_fee, update_shard_accounts, Shard, Shards,
};
use enoki_wrapped_token::manager::types::ManagementStats;
use enoki_wrapped_token::types::{CallResult, RejectionCode, TxError};

fn who(n: u8) -> Principal {
    Principal::from_slice(&[n, 4, 4, 4])
}

fn coins(n: u64) -> Nat {
    Nat::from(n)
}

fn down(message: &str) -> (RejectionCode, String) {
    (RejectionCode::SysTransient, message.to_string())
}

/// The owner adds the shard, and the shard and all its siblings answer.
fn join(shards: &mut Shards, id: Principal) {
    let management = init(who(1), 0);
    let pending =
        add_shard_init(&management, &Metadata::default(), shards, &who(1), id).ok().unwrap();
    let broadcast = add_shard_told(pending, Ok(())).ok().unwrap();
    let answers = vec![Ok(()); broadcast.siblings().len()];
    add_shard(shards, broadcast, answers).unwrap();
}

fn with_shards(ids: &[u8]) -> Shards {
    let mut shards = Shards::new();
    for s in ids {
        join(&mut shards, who(*s));
    }
    shards
}

fn created(r: Result<Registration, TxError>) -> Principal {
    match r {
        Ok(Registration::Created(shard)) => shard,
        other => panic!("expected a new registration, got {:?}", other.map(|r| r.assigned_shard())),
    }
}

fn loads(shards: &Shards) -> Vec<(Principal, u64)> {
    get_shards_info(shards).iter().map(|s| (s.id, s.num_accounts)).collect()
}

#[test]
fn registration_is_idempotent() {
    let mut accounts = UserAccounts::new();
    let mut shards = with_shards(&[10, 11]);
    let first = created(register(&mut accounts, &mut shards, who(30)));
    let before = loads(&shards);
    let second = register(&mut accounts, &mut shards, who(30));
    assert!(matches!(second, Ok(Registration::Existing(s)) if s == first));
    let third = register(&mut accounts, &mut shards, who(30)).unwrap();
    assert_eq!(third.assigned_shard(), first);
    assert_eq!(loads(&shards), before);
    assert_eq!(before.iter().map(|s| s.1).sum::<u64>(), 1);
    assert_eq!(get_user_account(&accounts, &who(30)).unwrap().assigned_shard, first);
    assert_eq!(get_assigned_shard_id(&accounts, &who(1), &who(30)), Ok(first));
}

#[test]
fn registration_needs_a_shard() {
    let mut accounts = UserAccounts::new();
    let mut shards = Shards::new();
    let r = register(&mut accounts, &mut shards, who(30));
    assert!(matches!(r, Err(TxError::ShardDoesNotExist)));
    assert!(get_user_account(&accounts, &who(30)).is_none());
    assert_eq!(
        get_lowest_utilization_shard(&shards),
        Err(TxError::ShardDoesNotExist)
    );
}

#[test]
fn new_users_go_to_the_least_loaded_shard() {
    let mut accounts = UserAccounts::new();
    let mut shards = with_shards(&[10, 11, 12]);
    let mut seen = vec![];
    for user in 30..36 {
        seen.push(created(register(&mut accounts, &mut shards, who(user))));
    }
    for shard in [10, 11, 12] {
        assert_eq!(seen.iter().filter(|s| **s == who(shard)).count(), 2);
    }
    let mut first_round = seen[..3].to_vec();
    first_round.sort_by_key(|s| s.to_text());
    assert_eq!(seen[..3].to_vec(), first_round);
}

#[test]
fn of_shards_that_tie_the_smallest_text_is_picked() {
    let mut accounts = UserAccounts::new();
    let mut shards = with_shards(&[10]);
    for user in 30..33 {
        assert_eq!(created(register(&mut accounts, &mut shards, who(user))), who(10));
    }
    join(&mut shards, who(11));
    assert_eq!(created(register(&mut accounts, &mut shards, who(33))), who(11));
    join(&mut shards, who(12));
    assert_eq!(created(register(&mut accounts, &mut shards, who(34))), who(12));
    assert_eq!(loads(&shards), vec![(who(10), 3), (who(11), 1), (who(12), 1)]);

    let smallest = if who(11).to_text() < who(12).to_text() { who(11) } else { who(12) };
    assert_eq!(get_lowest_utilization_shard(&shards), Ok(smallest));
    assert_eq!(get_lowest_utilization_shard(&shards), Ok(smallest));
    assert_eq!(get_lowest_utilization_shard(&shards), Ok(smallest));
}

#[test]
fn the_tie_is_broken_by_text_and_not_by_order_or_bytes() {
    let mut by_bytes: Vec<Principal> = (1u8..=255).map(|n| Principal::from_slice(&[n])).collect();
    by_bytes.sort();
    while by_bytes.iter().min_by_key(|p| p.to_text()) == by_bytes.first() {
        by_bytes.remove(0);
    }
    assert!(by_bytes.len() > 1);
    let least = *by_bytes.iter().min_by_key(|p| p.to_text()).unwrap();
    assert_ne!(by_bytes[0], least);

    let mut shards = Shards::new();
    for p in by_bytes.iter() {
        join(&mut shards, *p);
    }
    assert_eq!(get_lowest_utilization_shard(&shards), Ok(least));

    let mut reversed = Shards::new();
    for p in by_bytes.iter().rev() {
        join(&mut reversed, *p);
    }
    assert_eq!(get_lowest_utilization_shard(&reversed), Ok(least));
}

#[test]
fn fewer_accounts_beat_a_smaller_text() {
    let (small, large) = if who(10).to_text() < who(11).to_text() {
        (who(10), who(11))
    } else {
        (who(11), who(10))
    };
    let mut shards = Shards::new();
    join(&mut shards, small);
    join(&mut shards, large);
    assert_eq!(get_lowest_utilization_shard(&shards), Ok(small));
    update_shard_accounts(&mut shards, small);
    assert_eq!(get_lowest_utilization_shard(&shards), Ok(large));
    update_shard_accounts(&mut shards, large);
    assert_eq!(get_lowest_utilization_shard(&shards), Ok(small));
    assert_eq!(loads(&shards), vec![(small, 1), (large, 1)]);
}

#[test]
fn registration_is_confirmed_by_the_shard() {
    assert_eq!(confirm_registration(who(10), Ok(())), Ok(who(10)));
    assert_eq!(confirm_registration(who(10), Err(TxError::AccountAlreadyExists)), Ok(who(10)));
    assert_eq!(
        confirm_registration(who(10), Err(TxError::Unauthorized)),
        Err(TxError::Unauthorized)
    );
    let failure = TxError::from(down("busy"));
    assert_eq!(confirm_registration(who(10), Err(failure.clone())), Err(failure));
}

#[test]
fn an_unknown_user_is_told_with_the_manager() {
    let accounts = UserAccounts::default();
    let r = get_assigned_shard_id(&accounts, &who(1), &who(30));
    assert_eq!(
        r,
        Err(TxError::AccountDoesNotExist {
            shard: format!("main contract {}", who(1)),
            user: who(30).to_text(),
        })
    );
}

#[test]
fn only_the_owner_adds_a_shard() {
    let management = init(who(1), 77);
    let mut metadata = Metadata::default();
    init_metadata(
        &mut metadata,
        Metadata {
            logo: String::new(),
            name: "Wrapped".to_string(),
            symbol: "W".to_string(),
            decimals: 8,
            underlying_token: who(3),
        },
    );
    let shards = with_shards(&[10, 11]);
    assert_eq!(
        add_shard_init(&management, &metadata, &shards, &who(2), who(12)).err(),
        Some(TxError::Unauthorized)
    );
    let pending = add_shard_init(&management, &metadata, &shards, &who(1), who(12)).ok().unwrap();
    assert_eq!(pending.id(), who(12));
    assert_eq!(pending.init().underlying_token, who(3));
    assert_eq!(pending.init().sibling_shards, vec![who(10), who(11)]);
    assert_eq!(pending.init().fee, coins(0));
}

#[test]
fn a_new_shard_that_does_not_answer_is_not_announced() {
    let management = init(who(1), 77);
    let mut shards = with_shards(&[10, 11]);
    let pending =
        add_shard_init(&management, &Metadata::default(), &shards, &who(1), who(12)).ok().unwrap();
    let r = add_shard_told(pending, Err(down("asleep")));
    assert_eq!(r.err(), Some(TxError::from(down("asleep"))));
    assert_eq!(get_shard_ids(&shards), vec![who(10), who(11)]);

    let pending =
        add_shard_init(&management, &Metadata::default(), &shards, &who(1), who(12)).ok().unwrap();
    let broadcast = add_shard_told(pending, Ok(())).ok().unwrap();
    assert_eq!(broadcast.id(), who(12));
    assert_eq!(broadcast.siblings(), &vec![who(10), who(11)]);
    assert_eq!(add_shard(&mut shards, broadcast, vec![Ok(()), Ok(())]), Ok(()));
    assert_eq!(get_shard_ids(&shards), vec![who(10), who(11), who(12)]);
}

#[test]
fn a_shard_is_added_when_every_sibling_has_answered() {
    let management = init(who(1), 77);
    let mut shards = with_shards(&[10, 11]);
    let pending =
        add_shard_init(&management, &Metadata::default(), &shards, &who(1), who(12)).ok().unwrap();
    let broadcast = add_shard_told(pending, Ok(())).ok().unwrap();
    let r = add_shard(&mut shards, broadcast, vec![Ok(()), Err(down("busy")), Err(down("late"))]);
    assert_eq!(r, Err(TxError::from(down("busy"))));
    assert_eq!(get_shard_ids(&shards), vec![who(10), who(11)]);
    join(&mut shards, who(12));
    assert_eq!(get_shard_ids(&shards), vec![who(10), who(11), who(12)]);
    assert_eq!(loads(&shards), vec![(who(10), 0), (who(11), 0), (who(12), 0)]);
}

#[test]
fn a_shard_that_is_added_again_keeps_its_accounts() {
    let mut accounts = UserAccounts::new();
    let mut shards = with_shards(&[10]);
    for user in 30..33 {
        assert_eq!(created(register(&mut accounts, &mut shards, who(user))), who(10));
    }
    join(&mut shards, who(11));
    assert_eq!(loads(&shards), vec![(who(10), 3), (who(11), 0)]);
    join(&mut shards, who(10));
    assert_eq!(loads(&shards), vec![(who(10), 3), (who(11), 0)]);
    assert_eq!(created(register(&mut accounts, &mut shards, who(33))), who(11));
}

#[test]
fn a_user_keeps_its_shard_whatever_comes_after() {
    let mut accounts = UserAccounts::new();
    let mut shards = with_shards(&[10]);
    let first = created(register(&mut accounts, &mut shards, who(30)));
    assert_eq!(first, who(10));
    join(&mut shards, who(11));
    join(&mut shards, who(12));
    for user in 31..40 {
        created(register(&mut accounts, &mut shards, who(user)));
    }
    assert_eq!(loads(&shards).iter().map(|s| s.1).sum::<u64>(), 10);
    update_shard_accounts(&mut shards, first);
    update_shard_accounts(&mut shards, first);
    assert_ne!(get_lowest_utilization_shard(&shards), Ok(first));
    let before = loads(&shards);
    let again = register(&mut accounts, &mut shards, who(30));
    assert!(matches!(again, Ok(Registration::Existing(s)) if s == first));
    assert_eq!(loads(&shards), before);
    assert_eq!(get_assigned_shard_id(&accounts, &who(1), &who(30)), Ok(first));
}

#[test]
fn no_user_goes_to_a_shard_that_is_full() {
    let mut accounts = UserAccounts::new();
    let mut shards = import_stable_storage(vec![
        Shard { id: who(10), num_accounts: u64::MAX },
        Shard { id: who(11), num_accounts: u64::MAX },
    ]);
    let r = register(&mut accounts, &mut shards, who(30));
    assert!(matches!(
        r,
        Err(TxError::Other(ref s)) if s == "No shard can count another account"
    ));
    assert!(get_user_account(&accounts, &who(30)).is_none());
    assert_eq!(loads(&shards), vec![(who(10), u64::MAX), (who(11), u64::MAX)]);

    let mut shards = import_stable_storage(vec![
        Shard { id: who(10), num_accounts: u64::MAX },
        Shard { id: who(11), num_accounts: u64::MAX - 1 },
    ]);
    assert_eq!(created(register(&mut accounts, &mut shards, who(30))), who(11));
    assert_eq!(loads(&shards), vec![(who(10), u64::MAX), (who(11), u64::MAX)]);
    let again = register(&mut accounts, &mut shards, who(30));
    assert!(matches!(again, Ok(Registration::Existing(s)) if s == who(11)));
}

#[test]
fn the_supply_is_the_sum_over_all_shards() {
    assert_eq!(total_supply(vec![]), Ok(coins(0)));
    assert_eq!(total_supply(vec![Ok(coins(5)), Ok(coins(0)), Ok(coins(37))]), Ok(coins(42)));
    assert_eq!(
        total_supply(vec![Ok(Nat::from(u64::MAX)), Ok(coins(1))]),
        Ok("18446744073709551616".parse().unwrap())
    );
    assert_eq!(get_accrued_fees(vec![Ok(coins(1)), Ok(coins(2))]), Ok(coins(3)));
}

#[test]
fn one_silent_shard_fails_the_supply() {
    let r = total_supply(vec![Ok(coins(5)), Err(down("first")), Ok(coins(7)), Err(down("second"))]);
    assert_eq!(r, Err(TxError::from(down("first"))));
    let r = get_accrued_fees(vec![Err(down("only"))]);
    assert_eq!(r, Err(TxError::from(down("only"))));
}

#[test]
fn answers_come_in_the_order_of_the_shards() {
    let answers: Vec<CallResult<u8>> = vec![Ok(3), Ok(1), Ok(2)];
    assert_eq!(foreach_shard(answers), Ok(vec![3, 1, 2]));
    let answers: Vec<CallResult<u8>> = vec![Ok(3), Err(down("a")), Err(down("b"))];
    assert_eq!(foreach_shard(answers), Err(TxError::from(down("a"))));
    let none: Vec<CallResult<u8>> = vec![];
    assert_eq!(foreach_shard(none), Ok(vec![]));
}

#[test]
fn a_new_fee_reaches_every_shard_or_fails() {
    assert_eq!(update_fee(vec![Ok(()), Ok(())]), Ok(()));
    assert_eq!(update_fee(vec![]), Ok(()));
    assert_eq!(
        update_fee(vec![Ok(()), Err(down("x"))]),
        Err(TxError::from(down("x")))
    );
}

#[test]
fn a_balance_that_cannot_be_had_is_zero() {
    assert_eq!(balance_of(None), coins(0));
    assert_eq!(balance_of(Some(Err(down("x")))), coins(0));
    assert_eq!(balance_of(Some(Ok(coins(12)))), coins(12));
}

#[test]
fn only_the_owner_administers() {
    let mut management = init(who(1), 77);
    assert_eq!(owner(&management), who(1));
    assert_eq!(assert_is_owner(&management, &who(1)), Ok(()));
    assert_eq!(assert_is_owner(&management, &who(2)), Err(TxError::Unauthorized));
    assert_eq!(set_fee(&mut management, &who(2), coins(5)), Err(TxError::Unauthorized));
    assert_eq!(get_fee(&management), coins(0));
    assert_eq!(set_fee(&mut management, &who(1), coins(5)), Ok(()));
    assert_eq!(get_fee(&management), coins(5));
    assert_eq!(set_owner(&mut management, &who(2), who(2)), Err(TxError::Unauthorized));
    assert_eq!(set_owner(&mut management, &who(1), who(2)), Ok(()));
    assert_eq!(owner(&management), who(2));
    assert_eq!(set_fee(&mut management, &who(1), coins(6)), Err(TxError::Unauthorized));
    assert_eq!(get_fee(&management), coins(5));
    init_fee(&mut management, coins(9));
    assert_eq!(get_fee(&management), coins(9));
}

#[test]
fn the_report_holds_what_it_is_given() {
    let mut management = init(who(1), 77);
    init_fee(&mut management, coins(2));
    let report = stats(&management, coins(1000), 55);
    assert_eq!(report.total_supply, coins(1000));
    assert_eq!(report.owner, who(1));
    assert_eq!(report.fee, coins(2));
    assert_eq!(report.deploy_time, 77);
    assert_eq!(report.cycles, 55);
    let bare = Stats::from(management);
    assert_eq!(bare.total_supply, coins(0));
    assert_eq!(bare.owner, who(1));
    assert_eq!(bare.fee, coins(2));
    assert_eq!(bare.deploy_time, 77);
    assert_eq!(bare.cycles, 0);
    let nobody = ManagementStats::default();
    assert_eq!(nobody.owner, Principal::anonymous());
    assert_eq!(nobody.fee, coins(0));
    assert_eq!(nobody.deploy_time, 0);
}

#[test]
fn only_the_owner_sets_the_logo() {
    let management = init(who(1), 77);
    let mut metadata = Metadata::default();
    assert_eq!(get_underlying_token(&metadata), Principal::anonymous());
    init_metadata(
        &mut metadata,
        Metadata {
            logo: "old".to_string(),
            name: "Wrapped".to_string(),
            symbol: "W".to_string(),
            decimals: 8,
            underlying_token: who(3),
        },
    );
    assert_eq!(set_logo(&mut metadata, &management, &who(2), "new".to_string()), Err(TxError::Unauthorized));
    assert_eq!(get_logo(&metadata), "old");
    assert_eq!(set_logo(&mut metadata, &management, &who(1), "new".to_string()), Ok(()));
    assert_eq!(get_logo(&metadata), "new");
    assert_eq!(name(&metadata), "Wrapped");
    assert_eq!(symbol(&metadata), "W");
    assert_eq!(decimals(&metadata), 8);
    assert_eq!(get_underlying_token(&metadata), who(3));
}
