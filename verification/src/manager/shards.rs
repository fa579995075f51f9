//! The shards that the manager knows, how many accounts each one has, and
//! what the manager asks of all of them.

use crate::amount::{nat_value, plus, zero};
use crate::manager::management::{assert_is_owner, get_fee};
use crate::manager::metadata::{get_underlying_token, Metadata};
use crate::manager::types::ManagementStats;
use crate::principal::{principal_bytes, principal_text, to_text};
use crate::table::{lemma_prefix_map_all, lemma_prefix_map_step, prefix_map, Table};
use crate::text_order::{lemma_lex_total, lemma_lex_transitive, lex_le, text_at_most};
use crate::types::{call_outcome, is_callback_error, CallResult, Result, TxError};
use candid::{Nat, Principal};
use vstd::prelude::*;
use vstd::utf8::encode_utf8;

verus! {

/// A shard and the number of accounts that the manager has assigned to it.
pub struct Shard {
    pub id: Principal,
    pub num_accounts: u64,
}

/// The shards of the ledger, in the order in which they were added.
pub struct Shards {
    table: Table<u64>,
}

impl Shards {
    /// No shard stands twice.
    pub closed spec fn wf(&self) -> bool {
        self.table.wf()
    }

    /// The addresses of the shards, as bytes, in the order in which they
    /// were added.
    pub closed spec fn ids(&self) -> Seq<Seq<u8>> {
        self.table.keys()
    }

    /// The number of accounts of each shard.
    pub closed spec fn view(&self) -> Map<Seq<u8>, u64> {
        self.table@
    }

    /// The shards listed are the shards counted, each once.
    pub proof fn lemma_ids(&self)
        requires
            self.wf(),
        ensures
            self.ids().no_duplicates(),
            self.ids().to_set() == self@.dom(),
            forall|i: int| 0 <= i < self.ids().len() ==> self@.contains_key(#[trigger] self.ids()[i]),
    {
        self.table.lemma_finite();
        assert forall|i: int| 0 <= i < self.ids().len() implies self@.contains_key(
            #[trigger] self.ids()[i],
        ) by {
            self.table.lemma_entry(i);
        }
    }

    /// A ledger without shards.
    pub fn new() -> (shards: Self)
        ensures
            shards.wf(),
            shards@ == Map::<Seq<u8>, u64>::empty(),
            shards.ids() == Seq::<Seq<u8>>::empty(),
    {
        Shards { table: Table::new() }
    }
}

impl Default for Shards {
    fn default() -> (shards: Self)
        ensures
            shards.wf(),
            shards@ == Map::<Seq<u8>, u64>::empty(),
            shards.ids() == Seq::<Seq<u8>>::empty(),
    {
        Shards::new()
    }
}

/// The addresses of the shards, in the order in which they were added.
pub fn get_shard_ids(shards: &Shards) -> (ids: Vec<Principal>)
    ensures
        ids@.len() == shards.ids().len(),
        forall|i: int| 0 <= i < ids@.len() ==> principal_bytes(#[trigger] ids@[i]) == shards.ids()[i],
{
    let n = shards.table.len();
    let mut ids: Vec<Principal> = Vec::new();
    let mut i: usize = 0;
    while i < n
        invariant
            i <= n,
            n == shards.table.keys().len(),
            ids@.len() == i,
            forall|j: int| 0 <= j < i ==> principal_bytes(#[trigger] ids@[j]) == shards.ids()[j],
        decreases n - i,
    {
        ids.push(shards.table.key_at(i));
        i += 1;
    }
    ids
}

/// The shards with their numbers of accounts, in the order in which they
/// were added.
pub fn get_shards_info(shards: &Shards) -> (info: Vec<Shard>)
    requires
        shards.wf(),
    ensures
        info@.len() == shards.ids().len(),
        forall|i: int|
            0 <= i < info@.len() ==> principal_bytes((#[trigger] info@[i]).id) == shards.ids()[i]
                && info@[i].num_accounts == shards@[shards.ids()[i]],
{
    let n = shards.table.len();
    let mut info: Vec<Shard> = Vec::new();
    let mut i: usize = 0;
    while i < n
        invariant
            i <= n,
            shards.wf(),
            n == shards.table.keys().len(),
            info@.len() == i,
            forall|j: int|
                0 <= j < i ==> principal_bytes((#[trigger] info@[j]).id) == shards.ids()[j]
                    && info@[j].num_accounts == shards@[shards.ids()[j]],
        decreases n - i,
    {
        let id = shards.table.key_at(i);
        let num_accounts = *shards.table.value_at(i);
        info.push(Shard { id, num_accounts });
        i += 1;
    }
    info
}

/// Counts one more account for the shard, which the manager knows.
pub fn update_shard_accounts(shards: &mut Shards, id: Principal)
    requires
        old(shards).wf(),
        old(shards)@.contains_key(principal_bytes(id)),
        old(shards)@[principal_bytes(id)] < u64::MAX,
    ensures
        final(shards).wf(),
        final(shards)@ == old(shards)@.insert(
            principal_bytes(id),
            (old(shards)@[principal_bytes(id)] + 1) as u64,
        ),
        final(shards).ids() == old(shards).ids(),
{
    let count = *shards.table.get(&id).unwrap();
    shards.table.insert(id, count + 1);
}

/// Whether the shard, which the manager knows, cannot count another
/// account.
pub fn shard_is_full(shards: &Shards, id: &Principal) -> (full: bool)
    requires
        shards.wf(),
        shards@.contains_key(principal_bytes(*id)),
    ensures
        full == (shards@[principal_bytes(*id)] == u64::MAX),
{
    *shards.table.get(id).unwrap() == u64::MAX
}

/// The text by which shards of equal load are told apart.
pub open spec fn text_key(id: Seq<u8>) -> Seq<u8> {
    encode_utf8(principal_text(id))
}

/// Whether the shard `a` is to be chosen rather than `b`, or as well: it
/// has fewer accounts, or as many and its text stands at or before that
/// of `b`.
pub open spec fn ranks_at_most(loads: Map<Seq<u8>, u64>, a: Seq<u8>, b: Seq<u8>) -> bool {
    loads[a] < loads[b] || (loads[a] == loads[b] && lex_le(text_key(a), text_key(b)))
}

/// Whether the shard at `i` is the one to choose: none ranks before it,
/// and of several that rank alike it is the first that was added.
pub open spec fn is_lowest(ids: Seq<Seq<u8>>, loads: Map<Seq<u8>, u64>, i: int) -> bool {
    &&& 0 <= i < ids.len()
    &&& forall|j: int| 0 <= j < ids.len() ==> ranks_at_most(loads, ids[i], #[trigger] ids[j])
    &&& forall|j: int| 0 <= j < i ==> !ranks_at_most(loads, #[trigger] ids[j], ids[i])
}

/// Under the same loads the same shard is chosen: no two places are both
/// the one to choose.
pub proof fn lemma_lowest_is_unique(ids: Seq<Seq<u8>>, loads: Map<Seq<u8>, u64>, i: int, j: int)
    requires
        is_lowest(ids, loads, i),
        is_lowest(ids, loads, j),
    ensures
        i == j,
{
    if i < j {
        assert(ranks_at_most(loads, ids[i], ids[j]));
    } else if j < i {
        assert(ranks_at_most(loads, ids[j], ids[i]));
    }
}

/// The shard to which the next account goes: the one with the fewest
/// accounts, and of several with as few the one whose text comes first.
/// Fails where there is no shard.
pub fn get_lowest_utilization_shard(shards: &Shards) -> (r: Result<Principal>)
    requires
        shards.wf(),
    ensures
        shards.ids().len() == 0 ==> r == Err::<Principal, TxError>(TxError::ShardDoesNotExist),
        shards.ids().len() > 0 ==> (r matches Ok(id) && shards@.contains_key(principal_bytes(id))
            && exists|i: int|
            is_lowest(shards.ids(), shards@, i) && shards.ids()[i] == principal_bytes(id)),
{
    let n = shards.table.len();
    if n == 0 {
        return Err(TxError::ShardDoesNotExist);
    }
    let ghost ids = shards.ids();
    let ghost loads = shards@;
    let mut best: usize = 0;
    let mut best_id = shards.table.key_at(0);
    let mut best_load = *shards.table.value_at(0);
    let mut best_text = to_text(&best_id);
    proof {
        lemma_lex_total(text_key(ids[0]), text_key(ids[0]));
    }
    let mut i: usize = 1;
    while i < n
        invariant
            1 <= i <= n,
            shards.wf(),
            n == shards.table.keys().len(),
            ids == shards.ids(),
            loads == shards@,
            best < i,
            principal_bytes(best_id) == ids[best as int],
            best_load == loads[ids[best as int]],
            best_text@ == principal_text(ids[best as int]),
            forall|j: int| 0 <= j < i ==> ranks_at_most(loads, ids[best as int], #[trigger] ids[j]),
            forall|j: int|
                0 <= j < best ==> !ranks_at_most(loads, #[trigger] ids[j], ids[best as int]),
        decreases n - i,
    {
        let id = shards.table.key_at(i);
        let load = *shards.table.value_at(i);
        let text = to_text(&id);
        let before = text_at_most(best_text.as_str(), text.as_str());
        if load < best_load || (load == best_load && !before) {
            proof {
                let b = ids[best as int];
                let c = ids[i as int];
                lemma_lex_total(text_key(b), text_key(c));
                lemma_lex_total(text_key(c), text_key(c));
                assert(ranks_at_most(loads, c, b));
                assert(!ranks_at_most(loads, b, c));
                assert forall|j: int| 0 <= j < i + 1 implies ranks_at_most(
                    loads,
                    c,
                    #[trigger] ids[j],
                ) by {
                    if j < i {
                        assert(ranks_at_most(loads, b, ids[j]));
                        if loads[c] == loads[b] && loads[b] == loads[ids[j]] {
                            lemma_lex_transitive(text_key(c), text_key(b), text_key(ids[j]));
                        }
                    }
                }
                assert forall|j: int| 0 <= j < i implies !ranks_at_most(
                    loads,
                    #[trigger] ids[j],
                    c,
                ) by {
                    assert(ranks_at_most(loads, b, ids[j]));
                    if ranks_at_most(loads, ids[j], c) {
                        if loads[b] == loads[ids[j]] && loads[ids[j]] == loads[c] {
                            lemma_lex_transitive(text_key(b), text_key(ids[j]), text_key(c));
                        }
                    }
                }
            }
            best = i;
            best_id = id;
            best_load = load;
            best_text = text;
        }
        i += 1;
    }
    proof {
        assert(is_lowest(ids, loads, best as int));
        shards.table.lemma_entry(best as int);
    }
    Ok(best_id)
}

/// Whether every call was answered.
pub open spec fn all_answered<R>(responses: Seq<CallResult<R>>) -> bool {
    forall|i: int| 0 <= i < responses.len() ==> (#[trigger] responses[i]) is Ok
}

/// Whether the call at `i` is the first that was turned down.
pub open spec fn is_first_failure<R>(responses: Seq<CallResult<R>>, i: int) -> bool {
    &&& 0 <= i < responses.len()
    &&& responses[i] is Err
    &&& forall|j: int| 0 <= j < i ==> (#[trigger] responses[j]) is Ok
}

/// What the shards have answered to one call that went to each of them:
/// all the answers, in the order of the shards, or the failure of the
/// first call that was turned down. One failure fails the whole.
pub fn foreach_shard<R>(responses: Vec<CallResult<R>>) -> (r: Result<Vec<R>>)
    ensures
        all_answered(responses@) ==> (r matches Ok(answers) && answers@.len() == responses@.len()
            && forall|i: int|
            0 <= i < answers@.len() ==> responses@[i] == Ok::<R, (crate::types::RejectionCode, String)>(
                #[trigger] answers@[i],
            )),
        !all_answered(responses@) ==> (r matches Err(e) && exists|i: int|
            is_first_failure(responses@, i) && is_callback_error(e, responses@[i]->Err_0)),
{
    let ghost all = responses@;
    let mut rest = responses;
    let mut answers: Vec<R> = Vec::new();
    while rest.len() > 0
        invariant
            all == responses@,
            answers@.len() + rest@.len() == all.len(),
            rest@ == all.skip(answers@.len() as int),
            forall|j: int|
                0 <= j < answers@.len() ==> all[j] == Ok::<R, (crate::types::RejectionCode, String)>(
                    #[trigger] answers@[j],
                ),
        decreases rest@.len(),
    {
        let ghost k = answers@.len() as int;
        let response = rest.remove(0);
        proof {
            assert(response == all[k]);
            assert(rest@ =~= all.skip(k + 1));
        }
        match call_outcome(response) {
            Ok(answer) => {
                answers.push(answer);
            },
            Err(e) => {
                proof {
                    assert forall|j: int| 0 <= j < k implies (#[trigger] all[j]) is Ok by {
                        assert(all[j] == Ok::<R, (crate::types::RejectionCode, String)>(
                            answers@[j],
                        ));
                    }
                    assert(is_first_failure(all, k));
                }
                return Err(e);
            },
        }
    }
    proof {
        assert forall|j: int| 0 <= j < all.len() implies (#[trigger] all[j]) is Ok by {
            assert(all[j] == Ok::<R, (crate::types::RejectionCode, String)>(answers@[j]));
        }
    }
    Ok(answers)
}

/// The sum of the amounts.
pub open spec fn sum_of(amounts: Seq<Nat>) -> nat
    decreases amounts.len(),
{
    if amounts.len() == 0 {
        0
    } else {
        sum_of(amounts.drop_last()) + nat_value(amounts.last())
    }
}

/// Adds the amounts up.
fn sum_amounts(amounts: &Vec<Nat>) -> (sum: Nat)
    ensures
        nat_value(sum) == sum_of(amounts@),
{
    let mut sum = zero();
    let mut i: usize = 0;
    while i < amounts.len()
        invariant
            i <= amounts.len(),
            nat_value(sum) == sum_of(amounts@.take(i as int)),
        decreases amounts.len() - i,
    {
        proof {
            assert(amounts@.take(i + 1).drop_last() =~= amounts@.take(i as int));
        }
        sum = plus(&sum, &amounts[i]);
        i += 1;
    }
    proof {
        assert(amounts@.take(i as int) =~= amounts@);
    }
    sum
}

/// The supply of the ledger from what each shard has told of its own:
/// the sum, or the failure of the first shard that did not answer. There
/// is no sum of a part of the shards.
pub fn total_supply(responses: Vec<CallResult<Nat>>) -> (r: Result<Nat>)
    ensures
        all_answered(responses@) ==> (r matches Ok(supply) && exists|answers: Seq<Nat>|
            answers.len() == responses@.len() && (forall|i: int|
                0 <= i < answers.len() ==> responses@[i] == Ok::<
                    Nat,
                    (crate::types::RejectionCode, String),
                >(#[trigger] answers[i])) && nat_value(supply) == sum_of(answers)),
        !all_answered(responses@) ==> (r matches Err(e) && exists|i: int|
            is_first_failure(responses@, i) && is_callback_error(e, responses@[i]->Err_0)),
{
    match foreach_shard(responses) {
        Ok(answers) => {
            let supply = sum_amounts(&answers);
            Ok(supply)
        },
        Err(e) => Err(e),
    }
}

/// The fees that the shards have collected, from what each shard has told
/// of its own: the sum, or the failure of the first shard that did not
/// answer.
pub fn get_accrued_fees(responses: Vec<CallResult<Nat>>) -> (r: Result<Nat>)
    ensures
        all_answered(responses@) ==> (r matches Ok(supply) && exists|answers: Seq<Nat>|
            answers.len() == responses@.len() && (forall|i: int|
                0 <= i < answers.len() ==> responses@[i] == Ok::<
                    Nat,
                    (crate::types::RejectionCode, String),
                >(#[trigger] answers[i])) && nat_value(supply) == sum_of(answers)),
        !all_answered(responses@) ==> (r matches Err(e) && exists|i: int|
            is_first_failure(responses@, i) && is_callback_error(e, responses@[i]->Err_0)),
{
    total_supply(responses)
}

/// What a user holds, from what its shard has answered: nothing where
/// the user has no shard, and nothing where the shard has not answered.
pub fn balance_of(response: Option<CallResult<Nat>>) -> (held: Nat)
    ensures
        nat_value(held) == match response {
            Some(Ok(n)) => nat_value(n),
            _ => 0,
        },
{
    match response {
        Some(Ok(n)) => n,
        _ => zero(),
    }
}

/// What a new shard is told when it joins: the token, its siblings and
/// the fee.
pub struct ShardInit {
    pub underlying_token: Principal,
    pub sibling_shards: Vec<Principal>,
    pub fee: Nat,
}

/// The addresses of a list, as bytes.
pub open spec fn bytes_of(list: Seq<Principal>) -> Seq<Seq<u8>> {
    Seq::new(list.len(), |i: int| principal_bytes(list[i]))
}

/// A shard that the owner has asked to add and that is now to be told
/// the token, its siblings and the fee. Only the owner's call makes one.
pub struct PendingShard {
    id: Principal,
    init: ShardInit,
}

/// A shard that is being added, as plain values.
pub ghost struct PendingShardView {
    pub id: Seq<u8>,
    pub underlying_token: Seq<u8>,
    pub sibling_shards: Seq<Seq<u8>>,
    pub fee: nat,
}

impl PendingShard {
    pub closed spec fn view(&self) -> PendingShardView {
        PendingShardView {
            id: principal_bytes(self.id),
            underlying_token: principal_bytes(self.init.underlying_token),
            sibling_shards: bytes_of(self.init.sibling_shards@),
            fee: nat_value(self.init.fee),
        }
    }

    /// The shard that is being added.
    pub fn id(&self) -> (id: Principal)
        ensures
            principal_bytes(id) == self@.id,
    {
        self.id
    }

    /// What the shard is to be told.
    pub fn init(&self) -> (init: &ShardInit)
        ensures
            principal_bytes(init.underlying_token) == self@.underlying_token,
            bytes_of(init.sibling_shards@) == self@.sibling_shards,
            nat_value(init.fee) == self@.fee,
    {
        &self.init
    }
}

/// A shard that has been told what it needs and of which every other
/// shard is now to be told. Only a shard that has answered makes one.
pub struct ShardBroadcast {
    id: Principal,
    siblings: Vec<Principal>,
}

impl ShardBroadcast {
    /// The new shard, and the shards that are to take it as a sibling.
    pub closed spec fn view(&self) -> (Seq<u8>, Seq<Seq<u8>>) {
        (principal_bytes(self.id), bytes_of(self.siblings@))
    }

    /// The new shard.
    pub fn id(&self) -> (id: Principal)
        ensures
            principal_bytes(id) == self@.0,
    {
        self.id
    }

    /// The shards that are to take the new shard as a sibling.
    pub fn siblings(&self) -> (siblings: &Vec<Principal>)
        ensures
            bytes_of(siblings@) == self@.1,
    {
        &self.siblings
    }
}

/// The owner adds the shard `id`, first step: what the shard is to be
/// told. Anyone else is turned away, and no shard is told anything.
pub fn add_shard_init(
    stats: &ManagementStats,
    metadata: &Metadata,
    shards: &Shards,
    caller: &Principal,
    id: Principal,
) -> (r: Result<PendingShard>)
    ensures
        stats@.owner != principal_bytes(*caller) ==> r == Err::<PendingShard, TxError>(
            TxError::Unauthorized,
        ),
        stats@.owner == principal_bytes(*caller) ==> (r matches Ok(pending) && pending@ == (
        PendingShardView {
            id: principal_bytes(id),
            underlying_token: metadata@.underlying_token,
            sibling_shards: shards.ids(),
            fee: stats@.fee,
        })),
{
    match assert_is_owner(stats, caller) {
        Ok(()) => {},
        Err(e) => {
            return Err(e);
        },
    }
    let init = ShardInit {
        underlying_token: get_underlying_token(metadata),
        sibling_shards: get_shard_ids(shards),
        fee: get_fee(stats),
    };
    assert(bytes_of(init.sibling_shards@) =~= shards.ids());
    Ok(PendingShard { id, init })
}

/// The owner adds a shard, second step, once the new shard was told.
/// Where it has answered, every other shard is to be told of it. Where
/// it has not, its failure is the answer and no other shard is told.
pub fn add_shard_told(pending: PendingShard, answer: CallResult<()>) -> (r: Result<ShardBroadcast>)
    ensures
        match answer {
            Ok(_) => r matches Ok(broadcast) && broadcast@ == (pending@.id, pending@.sibling_shards),
            Err(err) => r matches Err(e) && is_callback_error(e, err),
        },
{
    match call_outcome(answer) {
        Ok(_) => Ok(ShardBroadcast { id: pending.id, siblings: pending.init.sibling_shards }),
        Err(e) => Err(e),
    }
}

/// The owner adds a shard, last step, once every other shard was asked to
/// take it as a sibling. Where every shard has answered, the manager
/// knows the shard: a new one with no accounts, one that it knew before
/// with the accounts it had. Where one has not answered, its failure is
/// the answer and the manager's list is as it was.
pub fn add_shard(shards: &mut Shards, broadcast: ShardBroadcast, responses: Vec<CallResult<()>>)
    -> (r: Result<()>)
    requires
        old(shards).wf(),
    ensures
        final(shards).wf(),
        all_answered(responses@) ==> r.is_ok(),
        all_answered(responses@) && old(shards)@.contains_key(broadcast@.0) ==> *final(shards)
            == *old(shards),
        all_answered(responses@) && !old(shards)@.contains_key(broadcast@.0) ==> final(shards)@
            == old(shards)@.insert(broadcast@.0, 0) && final(shards).ids() == old(shards).ids().push(
            broadcast@.0,
        ),
        !all_answered(responses@) ==> (r matches Err(e) && exists|i: int|
            is_first_failure(responses@, i) && is_callback_error(e, responses@[i]->Err_0))
            && *final(shards) == *old(shards),
{
    match foreach_shard(responses) {
        Ok(_) => {
            if !shards.table.contains_key(&broadcast.id) {
                shards.table.insert(broadcast.id, 0);
            }
            Ok(())
        },
        Err(e) => Err(e),
    }
}

/// What came of telling every shard a new fee: success where every shard
/// has answered, else the failure of the first that has not.
pub fn update_fee(responses: Vec<CallResult<()>>) -> (r: Result<()>)
    ensures
        all_answered(responses@) ==> r.is_ok(),
        !all_answered(responses@) ==> (r matches Err(e) && exists|i: int|
            is_first_failure(responses@, i) && is_callback_error(e, responses@[i]->Err_0)),
{
    match foreach_shard(responses) {
        Ok(_) => Ok(()),
        Err(e) => Err(e),
    }
}

/// The numbers of accounts that the entries of a snapshot stand for, a
/// later entry for a shard in place of an earlier one.
pub open spec fn restored_shards(entries: Seq<Shard>) -> Map<Seq<u8>, u64>
    decreases entries.len(),
{
    if entries.len() == 0 {
        Map::empty()
    } else {
        restored_shards(entries.drop_last()).insert(
            principal_bytes(entries.last().id),
            entries.last().num_accounts,
        )
    }
}

/// Entries that list the shards with their numbers of accounts stand for
/// those numbers.
proof fn lemma_restored_shards(
    entries: Seq<Shard>,
    ids: Seq<Seq<u8>>,
    loads: Map<Seq<u8>, u64>,
    k: int,
)
    requires
        entries.len() == ids.len(),
        forall|i: int|
            0 <= i < entries.len() ==> principal_bytes((#[trigger] entries[i]).id) == ids[i]
                && entries[i].num_accounts == loads[ids[i]],
        0 <= k <= entries.len(),
    ensures
        restored_shards(entries.take(k)) == prefix_map(ids, loads, k),
    decreases k,
{
    if k == 0 {
        assert(restored_shards(entries.take(k)) =~= prefix_map(ids, loads, k));
    } else {
        lemma_restored_shards(entries, ids, loads, k - 1);
        lemma_prefix_map_step(ids, loads, k);
        assert(entries.take(k).drop_last() =~= entries.take(k - 1));
        assert(entries.take(k).last() == entries[k - 1]);
    }
}

/// The shards as they are written to a snapshot: each with its number of
/// accounts, in the order in which they were added. What is written
/// stands for the numbers of accounts as they are.
pub fn export_stable_storage(shards: Shards) -> (stable: Vec<Shard>)
    requires
        shards.wf(),
    ensures
        stable@.len() == shards.ids().len(),
        forall|i: int|
            0 <= i < stable@.len() ==> principal_bytes((#[trigger] stable@[i]).id)
                == shards.ids()[i] && stable@[i].num_accounts == shards@[shards.ids()[i]],
        restored_shards(stable@) == shards@,
{
    let stable = get_shards_info(&shards);
    proof {
        lemma_restored_shards(stable@, shards.ids(), shards@, stable@.len() as int);
        shards.lemma_ids();
        lemma_prefix_map_all(shards.ids(), shards@);
        assert(stable@.take(stable@.len() as int) =~= stable@);
    }
    stable
}

/// The shards that a snapshot holds.
pub fn import_stable_storage(entries: Vec<Shard>) -> (shards: Shards)
    ensures
        shards.wf(),
        shards@ == restored_shards(entries@),
{
    let mut shards = Shards::new();
    let mut i: usize = 0;
    assert(entries@.take(0) =~= Seq::<Shard>::empty());
    while i < entries.len()
        invariant
            i <= entries@.len(),
            shards.wf(),
            shards@ == restored_shards(entries@.take(i as int)),
        decreases entries@.len() - i,
    {
        proof {
            assert(entries@.take(i + 1).drop_last() =~= entries@.take(i as int));
            assert(entries@.take(i + 1).last() == entries@[i as int]);
        }
        shards.table.insert(entries[i].id, entries[i].num_accounts);
        i += 1;
    }
    proof {
        assert(entries@.take(i as int) =~= entries@);
    }
    shards
}

} // verus!
