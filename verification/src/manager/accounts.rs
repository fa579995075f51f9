//! Which shard each user lives on.

use crate::manager::shards::{
    get_lowest_utilization_shard, is_lowest, shard_is_full, update_shard_accounts, Shards,
};
use crate::principal::{principal_bytes, principal_text, to_text};
use crate::table::{lemma_prefix_map_all, lemma_prefix_map_step, prefix_map, Table};
use crate::types::{Result, TxError};
use candid::Principal;
use vstd::prelude::*;
use vstd::string::StringExecFns;

verus! {

/// Where a user lives.
pub struct UserAccount {
    pub assigned_shard: Principal,
}

/// The users of the ledger, each with its shard. A user has one shard,
/// and keeps it.
pub struct UserAccounts {
    table: Table<UserAccount>,
}

impl UserAccounts {
    /// No user stands twice.
    pub closed spec fn wf(&self) -> bool {
        self.table.wf()
    }

    /// The shard of each user, both as bytes.
    pub closed spec fn view(&self) -> Map<Seq<u8>, Seq<u8>> {
        Map::new(
            |k: Seq<u8>| self.table@.contains_key(k),
            |k: Seq<u8>| principal_bytes(self.table@[k].assigned_shard),
        )
    }

    /// The users, as bytes, in the order in which they were registered.
    pub closed spec fn user_ids(&self) -> Seq<Seq<u8>> {
        self.table.keys()
    }

    /// The users listed are the users registered, each once.
    pub proof fn lemma_ids(&self)
        requires
            self.wf(),
        ensures
            self.user_ids().no_duplicates(),
            self.user_ids().to_set() == self@.dom(),
    {
        self.table.lemma_finite();
        assert(self@.dom() =~= self.table@.dom());
    }

    /// A ledger without users.
    pub fn new() -> (accounts: Self)
        ensures
            accounts.wf(),
            accounts@ == Map::<Seq<u8>, Seq<u8>>::empty(),
            accounts.user_ids() == Seq::<Seq<u8>>::empty(),
    {
        let accounts = UserAccounts { table: Table::new() };
        assert(accounts@ =~= Map::<Seq<u8>, Seq<u8>>::empty());
        accounts
    }
}

impl Default for UserAccounts {
    fn default() -> (accounts: Self)
        ensures
            accounts.wf(),
            accounts@ == Map::<Seq<u8>, Seq<u8>>::empty(),
    {
        UserAccounts::new()
    }
}

/// Where the user lives, if it is registered.
pub fn get_user_account(accounts: &UserAccounts, user: &Principal) -> (account: Option<UserAccount>)
    requires
        accounts.wf(),
    ensures
        match account {
            Some(a) => accounts@.contains_key(principal_bytes(*user)) && principal_bytes(
                a.assigned_shard,
            ) == accounts@[principal_bytes(*user)],
            None => !accounts@.contains_key(principal_bytes(*user)),
        },
{
    match accounts.table.get(user) {
        Some(a) => Some(UserAccount { assigned_shard: a.assigned_shard }),
        None => None,
    }
}

/// What a registration has come to.
pub enum Registration {
    /// The user was registered before and lives on this shard. Nothing is
    /// to be done.
    Existing(Principal),
    /// The user has been assigned to this shard, which is now to be asked
    /// to open the account.
    Created(Principal),
}

impl Registration {
    /// The shard of the user.
    pub open spec fn shard(self) -> Principal {
        match self {
            Registration::Existing(s) => s,
            Registration::Created(s) => s,
        }
    }

    /// The shard of the user.
    pub fn assigned_shard(&self) -> (s: Principal)
        ensures
            s == self.shard(),
    {
        match self {
            Registration::Existing(s) => *s,
            Registration::Created(s) => *s,
        }
    }
}

/// What a registration of a new user does once the shard `chosen` was
/// picked for it: the shard counts one account more and the user lives
/// there, or, where the shard cannot count another account, the
/// registration fails and nothing changes.
pub open spec fn registered_at(
    before: Map<Seq<u8>, Seq<u8>>,
    loads_before: Map<Seq<u8>, u64>,
    address: Seq<u8>,
    chosen: Seq<u8>,
    r: Result<Registration>,
    after: Map<Seq<u8>, Seq<u8>>,
    loads_after: Map<Seq<u8>, u64>,
) -> bool {
    if loads_before[chosen] == u64::MAX {
        &&& r matches Err(TxError::Other(s)) && s@ == "No shard can count another account"@
        &&& after == before
        &&& loads_after == loads_before
    } else {
        &&& r matches Ok(Registration::Created(s)) && principal_bytes(s) == chosen
        &&& after == before.insert(address, chosen)
        &&& loads_after == loads_before.insert(chosen, (loads_before[chosen] + 1) as u64)
    }
}

/// What a registration of `address` does to the users and to the numbers
/// of accounts of the shards, and what it answers.
///
/// A user that is registered keeps its shard, and nothing changes. A new
/// user goes to the shard to choose (see [`is_lowest`]), which then counts
/// one account more. Without a shard there is no registration, nor where
/// the shard to choose, and so every shard, is full.
pub open spec fn registered(
    before: Map<Seq<u8>, Seq<u8>>,
    ids: Seq<Seq<u8>>,
    loads_before: Map<Seq<u8>, u64>,
    address: Seq<u8>,
    r: Result<Registration>,
    after: Map<Seq<u8>, Seq<u8>>,
    loads_after: Map<Seq<u8>, u64>,
) -> bool {
    if before.contains_key(address) {
        &&& r matches Ok(Registration::Existing(s))
        &&& principal_bytes(s) == before[address]
        &&& after == before
        &&& loads_after == loads_before
    } else if ids.len() == 0 {
        &&& r == Err::<Registration, TxError>(TxError::ShardDoesNotExist)
        &&& after == before
        &&& loads_after == loads_before
    } else {
        exists|i: int|
            is_lowest(ids, loads_before, i) && registered_at(
                before,
                loads_before,
                address,
                ids[i],
                r,
                after,
                loads_after,
            )
    }
}

/// Registers the user `address`. See [`registered`].
pub fn register(accounts: &mut UserAccounts, shards: &mut Shards, address: Principal) -> (r: Result<
    Registration,
>)
    requires
        old(accounts).wf(),
        old(shards).wf(),
    ensures
        final(accounts).wf(),
        final(shards).wf(),
        final(shards).ids() == old(shards).ids(),
        registered(
            old(accounts)@,
            old(shards).ids(),
            old(shards)@,
            principal_bytes(address),
            r,
            final(accounts)@,
            final(shards)@,
        ),
{
    match accounts.table.get(&address) {
        Some(existing) => {
            return Ok(Registration::Existing(existing.assigned_shard));
        },
        None => {},
    }
    let assigned_shard = match get_lowest_utilization_shard(shards) {
        Ok(shard) => shard,
        Err(e) => {
            return Err(e);
        },
    };
    if shard_is_full(shards, &assigned_shard) {
        return Err(TxError::Other(String::from_str("No shard can count another account")));
    }
    accounts.table.insert(address, UserAccount { assigned_shard });
    update_shard_accounts(shards, assigned_shard);
    assert(accounts@ =~= old(accounts)@.insert(
        principal_bytes(address),
        principal_bytes(assigned_shard),
    ));
    Ok(Registration::Created(assigned_shard))
}

/// What the registration answers once the shard was asked to open the
/// account: the shard, where it has opened the account or had it
/// already; any other failure of the shard as it is.
pub fn confirm_registration(assigned_shard: Principal, response: Result<()>) -> (r: Result<
    Principal,
>)
    ensures
        match response {
            Ok(_) => r == Ok::<Principal, TxError>(assigned_shard),
            Err(TxError::AccountAlreadyExists) => r == Ok::<Principal, TxError>(assigned_shard),
            Err(e) => r == Err::<Principal, TxError>(e),
        },
{
    match response {
        Ok(_) => Ok(assigned_shard),
        Err(TxError::AccountAlreadyExists) => Ok(assigned_shard),
        Err(e) => Err(e),
    }
}

/// Registering a user twice gives the same shard both times, and the
/// second time changes nothing and asks no shard to open an account.
pub proof fn lemma_register_twice(
    before: Map<Seq<u8>, Seq<u8>>,
    ids: Seq<Seq<u8>>,
    loads_before: Map<Seq<u8>, u64>,
    address: Seq<u8>,
    first: Result<Registration>,
    between: Map<Seq<u8>, Seq<u8>>,
    loads_between: Map<Seq<u8>, u64>,
    second: Result<Registration>,
    after: Map<Seq<u8>, Seq<u8>>,
    loads_after: Map<Seq<u8>, u64>,
)
    requires
        registered(before, ids, loads_before, address, first, between, loads_between),
        registered(between, ids, loads_between, address, second, after, loads_after),
        first is Ok,
    ensures
        second matches Ok(Registration::Existing(s)) && principal_bytes(s) == principal_bytes(
            first->Ok_0.shard(),
        ),
        after == between,
        loads_after == loads_between,
{
}

/// Whether every user of `a` is a user of `b`, on the same shard.
pub open spec fn keeps_assignments(a: Map<Seq<u8>, Seq<u8>>, b: Map<Seq<u8>, Seq<u8>>) -> bool {
    forall|user: Seq<u8>| #[trigger] a.contains_key(user) ==> b.contains_key(user) && b[user] == a[user]
}

/// A registration, of whatever user and with whatever result, moves no
/// user that was registered before. A registration that succeeds leaves
/// its user on the shard it answers, and only one that answers a new
/// assignment counts an account: exactly one, for that shard.
pub proof fn lemma_registration_keeps_assignments(
    before: Map<Seq<u8>, Seq<u8>>,
    ids: Seq<Seq<u8>>,
    loads_before: Map<Seq<u8>, u64>,
    address: Seq<u8>,
    r: Result<Registration>,
    after: Map<Seq<u8>, Seq<u8>>,
    loads_after: Map<Seq<u8>, u64>,
)
    requires
        registered(before, ids, loads_before, address, r, after, loads_after),
    ensures
        keeps_assignments(before, after),
        r is Ok ==> after.contains_key(address) && after[address] == principal_bytes(
            r->Ok_0.shard(),
        ),
        r matches Ok(Registration::Created(s)) ==> !before.contains_key(address) && loads_after
            == loads_before.insert(
            principal_bytes(s),
            (loads_before[principal_bytes(s)] + 1) as u64,
        ),
        !(r matches Ok(Registration::Created(_))) ==> after == before && loads_after
            == loads_before,
{
}

/// Through any run of states of which each keeps the assignments of the
/// one before, a user stays on its shard.
pub proof fn lemma_run_keeps_assignments(run: Seq<Map<Seq<u8>, Seq<u8>>>, k: int)
    requires
        forall|j: int| 0 <= j < run.len() - 1 ==> keeps_assignments(#[trigger] run[j], run[j + 1]),
        0 <= k < run.len(),
    ensures
        keeps_assignments(run[0], run[k]),
    decreases k,
{
    if k > 0 {
        lemma_run_keeps_assignments(run, k - 1);
        assert(keeps_assignments(run[k - 1], run[k - 1 + 1]));
    }
}

/// Registration is idempotent whatever happens between: once a user is
/// registered, and after any run of operations that keep the assignments
/// (registrations of others, shards that are added), registering the user
/// again answers the shard of the first time, even where that shard is no
/// longer the one to choose, changes nothing, and asks no shard to open
/// an account.
pub proof fn lemma_registration_is_idempotent(
    before: Map<Seq<u8>, Seq<u8>>,
    ids: Seq<Seq<u8>>,
    loads_before: Map<Seq<u8>, u64>,
    address: Seq<u8>,
    first: Result<Registration>,
    loads_then: Map<Seq<u8>, u64>,
    run: Seq<Map<Seq<u8>, Seq<u8>>>,
    later_ids: Seq<Seq<u8>>,
    later_loads: Map<Seq<u8>, u64>,
    second: Result<Registration>,
    after: Map<Seq<u8>, Seq<u8>>,
    loads_after: Map<Seq<u8>, u64>,
)
    requires
        run.len() > 0,
        registered(before, ids, loads_before, address, first, run[0], loads_then),
        first is Ok,
        forall|j: int| 0 <= j < run.len() - 1 ==> keeps_assignments(#[trigger] run[j], run[j + 1]),
        registered(run.last(), later_ids, later_loads, address, second, after, loads_after),
    ensures
        second matches Ok(Registration::Existing(s)) && principal_bytes(s) == principal_bytes(
            first->Ok_0.shard(),
        ),
        after == run.last(),
        loads_after == later_loads,
{
    lemma_registration_keeps_assignments(before, ids, loads_before, address, first, run[0], loads_then);
    lemma_run_keeps_assignments(run, run.len() - 1);
    assert(run[0].contains_key(address));
}

/// The text that tells the manager, whose address has the given bytes,
/// apart from a shard.
pub open spec fn manager_label(self_id: Seq<u8>) -> Seq<char> {
    "main contract "@ + principal_text(self_id)
}

/// The shard of the user, if the manager, whose address is `self_id`, has
/// registered it.
pub fn get_assigned_shard_id(accounts: &UserAccounts, self_id: &Principal, address: &Principal)
    -> (r: Result<Principal>)
    requires
        accounts.wf(),
    ensures
        accounts@.contains_key(principal_bytes(*address)) ==> (r matches Ok(s) && principal_bytes(s)
            == accounts@[principal_bytes(*address)]),
        !accounts@.contains_key(principal_bytes(*address)) ==> (r matches Err(
            TxError::AccountDoesNotExist { shard, user },
        ) && shard@ == manager_label(principal_bytes(*self_id)) && user@ == principal_text(
            principal_bytes(*address),
        )),
{
    match accounts.table.get(address) {
        Some(a) => Ok(a.assigned_shard),
        None => {
            let text = to_text(self_id);
            let shard = String::from_str("main contract ").concat(text.as_str());
            Err(TxError::AccountDoesNotExist { shard, user: to_text(address) })
        },
    }
}

/// The assignments that the entries of a snapshot stand for, a later
/// entry for a user in place of an earlier one.
pub open spec fn restored_accounts(entries: Seq<(Principal, UserAccount)>) -> Map<Seq<u8>, Seq<u8>>
    decreases entries.len(),
{
    if entries.len() == 0 {
        Map::empty()
    } else {
        restored_accounts(entries.drop_last()).insert(
            principal_bytes(entries.last().0),
            principal_bytes(entries.last().1.assigned_shard),
        )
    }
}

/// Entries that list the users with their shards stand for those
/// assignments.
proof fn lemma_restored_accounts(
    entries: Seq<(Principal, UserAccount)>,
    ids: Seq<Seq<u8>>,
    assigned: Map<Seq<u8>, Seq<u8>>,
    k: int,
)
    requires
        entries.len() == ids.len(),
        forall|i: int|
            0 <= i < entries.len() ==> principal_bytes((#[trigger] entries[i]).0) == ids[i]
                && principal_bytes(entries[i].1.assigned_shard) == assigned[ids[i]],
        0 <= k <= entries.len(),
    ensures
        restored_accounts(entries.take(k)) == prefix_map(ids, assigned, k),
    decreases k,
{
    if k == 0 {
        assert(restored_accounts(entries.take(k)) =~= prefix_map(ids, assigned, k));
    } else {
        lemma_restored_accounts(entries, ids, assigned, k - 1);
        lemma_prefix_map_step(ids, assigned, k);
        assert(entries.take(k).drop_last() =~= entries.take(k - 1));
        assert(entries.take(k).last() == entries[k - 1]);
    }
}

/// The users as they are written to a snapshot: each with its shard, in
/// the order in which they were registered. What is written stands for
/// the assignments as they are.
pub fn export_stable_storage(accounts: UserAccounts) -> (stable: Vec<(Principal, UserAccount)>)
    requires
        accounts.wf(),
    ensures
        stable@.len() == accounts.user_ids().len(),
        forall|i: int|
            0 <= i < stable@.len() ==> principal_bytes((#[trigger] stable@[i]).0)
                == accounts.user_ids()[i] && principal_bytes(stable@[i].1.assigned_shard)
                == accounts@[accounts.user_ids()[i]],
        restored_accounts(stable@) == accounts@,
{
    let n = accounts.table.len();
    let mut stable: Vec<(Principal, UserAccount)> = Vec::new();
    let mut i: usize = 0;
    while i < n
        invariant
            i <= n,
            accounts.wf(),
            n == accounts.table.keys().len(),
            stable@.len() == i,
            forall|j: int|
                0 <= j < i ==> principal_bytes((#[trigger] stable@[j]).0) == accounts.user_ids()[j]
                    && principal_bytes(stable@[j].1.assigned_shard)
                    == accounts@[accounts.user_ids()[j]],
        decreases n - i,
    {
        let user = accounts.table.key_at(i);
        let account = accounts.table.value_at(i);
        stable.push((user, UserAccount { assigned_shard: account.assigned_shard }));
        i += 1;
    }
    proof {
        lemma_restored_accounts(stable@, accounts.user_ids(), accounts@, stable@.len() as int);
        accounts.lemma_ids();
        lemma_prefix_map_all(accounts.user_ids(), accounts@);
        assert(stable@.take(stable@.len() as int) =~= stable@);
    }
    stable
}

/// The users that a snapshot holds.
pub fn import_stable_storage(user_accounts: Vec<(Principal, UserAccount)>) -> (accounts:
    UserAccounts)
    ensures
        accounts.wf(),
        accounts@ == restored_accounts(user_accounts@),
{
    let mut accounts = UserAccounts::new();
    let mut i: usize = 0;
    assert(user_accounts@.take(0) =~= Seq::<(Principal, UserAccount)>::empty());
    while i < user_accounts.len()
        invariant
            i <= user_accounts@.len(),
            accounts.wf(),
            accounts@ == restored_accounts(user_accounts@.take(i as int)),
        decreases user_accounts@.len() - i,
    {
        proof {
            assert(user_accounts@.take(i + 1).drop_last() =~= user_accounts@.take(i as int));
            assert(user_accounts@.take(i + 1).last() == user_accounts@[i as int]);
        }
        let ghost before = accounts@;
        let assigned_shard = user_accounts[i].1.assigned_shard;
        accounts.table.insert(user_accounts[i].0, UserAccount { assigned_shard });
        assert(accounts@ =~= before.insert(
            principal_bytes(user_accounts@[i as int].0),
            principal_bytes(assigned_shard),
        ));
        i += 1;
    }
    proof {
        assert(user_accounts@.take(i as int) =~= user_accounts@);
    }
    accounts
}

} // verus!
