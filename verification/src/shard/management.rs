//! Who administers a shard, which shards it trusts, and the fee.

use crate::address_set::{set_of, AddressSet};
use crate::amount::{copy_of, nat_decimal, nat_parsed, nat_value, parse_decimal, to_decimal, zero};
use crate::shard::stable::StableManagerContractData;
use crate::principal::{anonymous, principal_bytes, same_principal};
use crate::types::{Result, TxError};
use candid::{Nat, Principal};
use vstd::prelude::*;
use vstd::string::StringExecFns;

verus! {

/// The administrative data of a shard.
pub struct ManagerContractData {
    pub owner: Principal,
    pub manager_contract: Principal,
    pub fee: Nat,
    pub underlying_token: Principal,
    pub sibling_shards: AddressSet,
    pub deploy_time: u64,
}

/// The administrative data of a shard as plain values.
pub ghost struct ManagerContractView {
    pub owner: Seq<u8>,
    pub manager_contract: Seq<u8>,
    pub fee: nat,
    pub underlying_token: Seq<u8>,
    pub sibling_shards: Set<Seq<u8>>,
    pub deploy_time: u64,
}

impl ManagerContractData {
    /// The set of siblings holds no address twice.
    pub open spec fn wf(&self) -> bool {
        self.sibling_shards.wf()
    }

    pub open spec fn view(&self) -> ManagerContractView {
        ManagerContractView {
            owner: principal_bytes(self.owner),
            manager_contract: principal_bytes(self.manager_contract),
            fee: nat_value(self.fee),
            underlying_token: principal_bytes(self.underlying_token),
            sibling_shards: self.sibling_shards@,
            deploy_time: self.deploy_time,
        }
    }
}

/// The bytes of the anonymous address, which stands where no address has
/// been set yet.
pub open spec fn anonymous_bytes() -> Seq<u8> {
    seq![4u8]
}

impl Default for ManagerContractData {
    fn default() -> (data: Self)
        ensures
            data.wf(),
            data@ == (ManagerContractView {
                owner: anonymous_bytes(),
                manager_contract: anonymous_bytes(),
                fee: 0,
                underlying_token: anonymous_bytes(),
                sibling_shards: Set::empty(),
                deploy_time: 0,
            }),
    {
        ManagerContractData {
            owner: anonymous(),
            manager_contract: anonymous(),
            fee: zero(),
            underlying_token: anonymous(),
            sibling_shards: AddressSet::new(),
            deploy_time: 0,
        }
    }
}

/// Passes if the caller is the manager of this shard.
pub fn assert_is_manager_contract(data: &ManagerContractData, caller: &Principal) -> (r: Result<()>)
    ensures
        r == if data@.manager_contract == principal_bytes(*caller) {
            Ok::<(), TxError>(())
        } else {
            Err(TxError::Unauthorized)
        },
{
    if same_principal(&data.manager_contract, caller) {
        Ok(())
    } else {
        Err(TxError::Unauthorized)
    }
}

/// Passes if the caller is the owner of this shard.
pub fn assert_is_owner(data: &ManagerContractData, caller: &Principal) -> (r: Result<()>)
    ensures
        r == if data@.owner == principal_bytes(*caller) {
            Ok::<(), TxError>(())
        } else {
            Err(TxError::Unauthorized)
        },
{
    if same_principal(&data.owner, caller) {
        Ok(())
    } else {
        Err(TxError::Unauthorized)
    }
}

/// Passes if the address is one of the sibling shards.
pub fn assert_is_sibling(data: &ManagerContractData, id: &Principal) -> (r: Result<()>)
    requires
        data.wf(),
    ensures
        r == if data@.sibling_shards.contains(principal_bytes(*id)) {
            Ok::<(), TxError>(())
        } else {
            Err(TxError::Unauthorized)
        },
{
    if data.sibling_shards.contains(id) {
        Ok(())
    } else {
        Err(TxError::Unauthorized)
    }
}

/// The fee that a transfer costs.
pub fn get_fee(data: &ManagerContractData) -> (fee: Nat)
    ensures
        nat_value(fee) == data@.fee,
{
    copy_of(&data.fee)
}

/// Replaces the administrative data.
pub fn init_manager_data(data: &mut ManagerContractData, new_data: ManagerContractData)
    ensures
        *final(data) == new_data,
{
    *data = new_data;
}

/// The data of a shard that `owner` has just deployed at `deploy_time`.
pub fn init(owner: Principal, deploy_time: u64) -> (data: ManagerContractData)
    ensures
        data.wf(),
        data@ == (ManagerContractView {
            owner: principal_bytes(owner),
            manager_contract: anonymous_bytes(),
            fee: 0,
            underlying_token: anonymous_bytes(),
            sibling_shards: Set::empty(),
            deploy_time,
        }),
{
    ManagerContractData {
        owner,
        manager_contract: anonymous(),
        fee: zero(),
        underlying_token: anonymous(),
        sibling_shards: AddressSet::new(),
        deploy_time,
    }
}

/// The owner names the manager and the underlying token. Anyone else is
/// turned away and nothing changes.
pub fn finish_init(
    data: &mut ManagerContractData,
    caller: &Principal,
    manager_contract: Principal,
    underlying_token: Principal,
) -> (r: Result<()>)
    ensures
        old(data)@.owner == principal_bytes(*caller) ==> r.is_ok() && final(data)@ == (
        ManagerContractView {
            manager_contract: principal_bytes(manager_contract),
            underlying_token: principal_bytes(underlying_token),
            ..old(data)@
        }) && final(data).sibling_shards == old(data).sibling_shards,
        old(data)@.owner != principal_bytes(*caller) ==> r == Err::<(), TxError>(
            TxError::Unauthorized,
        ) && *final(data) == *old(data),
{
    if same_principal(&data.owner, caller) {
        data.manager_contract = manager_contract;
        data.underlying_token = underlying_token;
        Ok(())
    } else {
        Err(TxError::Unauthorized)
    }
}

/// The token that this shard wraps.
pub fn get_underlying(data: &ManagerContractData) -> (token: Principal)
    ensures
        principal_bytes(token) == data@.underlying_token,
{
    data.underlying_token
}

/// The administrative data.
pub fn get_management_details(data: &ManagerContractData) -> (details: &ManagerContractData)
    ensures
        *details == *data,
{
    data
}

/// The owner of this shard.
pub fn get_owner(data: &ManagerContractData) -> (owner: Principal)
    ensures
        principal_bytes(owner) == data@.owner,
{
    data.owner
}

/// The owner hands the shard to a new owner. Anyone else is turned away
/// and nothing changes.
pub fn set_owner(data: &mut ManagerContractData, caller: &Principal, new_owner: Principal) -> (r:
    Result<()>)
    ensures
        old(data)@.owner == principal_bytes(*caller) ==> r.is_ok() && final(data)@ == (
        ManagerContractView { owner: principal_bytes(new_owner), ..old(data)@ }) && final(data).sibling_shards == old(data).sibling_shards,
        old(data)@.owner != principal_bytes(*caller) ==> r == Err::<(), TxError>(
            TxError::Unauthorized,
        ) && *final(data) == *old(data),
{
    if same_principal(caller, &data.owner) {
        data.owner = new_owner;
        Ok(())
    } else {
        Err(TxError::Unauthorized)
    }
}

/// The manager sets a new fee. Anyone else is turned away and nothing
/// changes.
pub fn set_fee(data: &mut ManagerContractData, caller: &Principal, new_fee: Nat) -> (r: Result<()>)
    ensures
        old(data)@.manager_contract == principal_bytes(*caller) ==> r.is_ok() && final(data)@ == (
        ManagerContractView { fee: nat_value(new_fee), ..old(data)@ }) && final(data).sibling_shards == old(data).sibling_shards,
        old(data)@.manager_contract != principal_bytes(*caller) ==> r == Err::<(), TxError>(
            TxError::Unauthorized,
        ) && *final(data) == *old(data),
{
    if same_principal(caller, &data.manager_contract) {
        data.fee = new_fee;
        Ok(())
    } else {
        Err(TxError::Unauthorized)
    }
}

/// The set that holds the given set and every address of the sequence.
pub open spec fn with_all(set: Set<Seq<u8>>, more: Seq<Principal>) -> Set<Seq<u8>> {
    Set::new(
        |b: Seq<u8>|
            set.contains(b) || exists|i: int|
                0 <= i < more.len() && principal_bytes(#[trigger] more[i]) == b,
    )
}

/// The manager tells the shard its siblings and the fee. A caller that is
/// not the manager is turned away; a shard that wraps another token is
/// incompatible. In both cases nothing changes.
pub fn init_shard(
    data: &mut ManagerContractData,
    caller: &Principal,
    underlying_token: Principal,
    sibling_shards: Vec<Principal>,
    fee: Nat,
) -> (r: Result<()>)
    requires
        old(data).wf(),
    ensures
        final(data).wf(),
        old(data)@.manager_contract != principal_bytes(*caller) ==> r == Err::<(), TxError>(
            TxError::Unauthorized,
        ) && *final(data) == *old(data),
        old(data)@.manager_contract == principal_bytes(*caller) && old(data)@.underlying_token
            != principal_bytes(underlying_token) ==> (r matches Err(TxError::Other(s)) && s@
            == "Incompatible shard"@) && *final(data) == *old(data),
        old(data)@.manager_contract == principal_bytes(*caller) && old(data)@.underlying_token
            == principal_bytes(underlying_token) ==> r.is_ok() && final(data)@ == (
        ManagerContractView {
            fee: nat_value(fee),
            sibling_shards: with_all(old(data)@.sibling_shards, sibling_shards@),
            ..old(data)@
        }),
{
    if same_principal(caller, &data.manager_contract) {
        if !same_principal(&data.underlying_token, &underlying_token) {
            return Err(TxError::Other(String::from_str("Incompatible shard")));
        }
        let mut i: usize = 0;
        while i < sibling_shards.len()
            invariant
                i <= sibling_shards.len(),
                data.wf(),
                data.owner == old(data).owner,
                data.manager_contract == old(data).manager_contract,
                data.underlying_token == old(data).underlying_token,
                data.deploy_time == old(data).deploy_time,
                data.fee == old(data).fee,
                data.sibling_shards@ == with_all(
                    old(data)@.sibling_shards,
                    sibling_shards@.take(i as int),
                ),
            decreases sibling_shards.len() - i,
        {
            let ghost before = data.sibling_shards@;
            data.sibling_shards.insert(sibling_shards[i]);
            proof {
                let a = sibling_shards@.take(i as int);
                let b = sibling_shards@.take(i + 1);
                assert forall|x: Seq<u8>|
                    before.insert(principal_bytes(sibling_shards@[i as int])).contains(x)
                        <==> with_all(old(data)@.sibling_shards, b).contains(x) by {
                    if with_all(old(data)@.sibling_shards, a).contains(x) && !old(data)@.sibling_shards.contains(x) {
                        let j = choose|j: int|
                            0 <= j < a.len() && principal_bytes(#[trigger] a[j]) == x;
                        assert(b[j] == a[j]);
                    }
                    if x == principal_bytes(sibling_shards@[i as int]) {
                        assert(b[i as int] == sibling_shards@[i as int]);
                    }
                    if with_all(old(data)@.sibling_shards, b).contains(x) && !old(data)@.sibling_shards.contains(x) {
                        let j = choose|j: int|
                            0 <= j < b.len() && principal_bytes(#[trigger] b[j]) == x;
                        if j < i {
                            assert(a[j] == b[j]);
                        }
                    }
                }
                assert(data.sibling_shards@ =~= with_all(old(data)@.sibling_shards, b));
            }
            i += 1;
        }
        proof {
            assert(sibling_shards@.take(i as int) =~= sibling_shards@);
        }
        data.fee = fee;
        Ok(())
    } else {
        Err(TxError::Unauthorized)
    }
}

/// The manager makes another shard a sibling. Anyone else is turned away
/// and nothing changes.
pub fn add_sibling_shard(data: &mut ManagerContractData, caller: &Principal, new_shard: Principal)
    -> (r: Result<()>)
    requires
        old(data).wf(),
    ensures
        final(data).wf(),
        old(data)@.manager_contract == principal_bytes(*caller) ==> r.is_ok() && final(data)@ == (
        ManagerContractView {
            sibling_shards: old(data)@.sibling_shards.insert(principal_bytes(new_shard)),
            ..old(data)@
        }),
        old(data)@.manager_contract != principal_bytes(*caller) ==> r == Err::<(), TxError>(
            TxError::Unauthorized,
        ) && *final(data) == *old(data),
{
    if same_principal(caller, &data.manager_contract) {
        data.sibling_shards.insert(new_shard);
        Ok(())
    } else {
        Err(TxError::Unauthorized)
    }
}

/// The manager takes a shard out of the siblings. Anyone else is turned
/// away and nothing changes.
pub fn remove_sibling_shard(data: &mut ManagerContractData, caller: &Principal, shard: Principal)
    -> (r: Result<()>)
    requires
        old(data).wf(),
    ensures
        final(data).wf(),
        old(data)@.manager_contract == principal_bytes(*caller) ==> r.is_ok() && final(data)@ == (
        ManagerContractView {
            sibling_shards: old(data)@.sibling_shards.remove(principal_bytes(shard)),
            ..old(data)@
        }),
        old(data)@.manager_contract != principal_bytes(*caller) ==> r == Err::<(), TxError>(
            TxError::Unauthorized,
        ) && *final(data) == *old(data),
{
    if same_principal(caller, &data.manager_contract) {
        data.sibling_shards.remove(&shard);
        Ok(())
    } else {
        Err(TxError::Unauthorized)
    }
}

/// The administrative data as it is written to a snapshot: the fee as
/// decimal text, which is read back as the same number, the siblings in
/// the order in which they came.
pub fn export_stable_storage(data: ManagerContractData) -> (stable: StableManagerContractData)
    requires
        data.wf(),
    ensures
        principal_bytes(stable.owner) == data@.owner,
        principal_bytes(stable.manager_contract) == data@.manager_contract,
        stable.fee@ == nat_decimal(data@.fee),
        nat_parsed(stable.fee@) == Some(data@.fee),
        principal_bytes(stable.underlying_token) == data@.underlying_token,
        set_of(stable.sibling_shards@) == data@.sibling_shards,
        stable.deploy_time == data@.deploy_time,
{
    let sibling_shards = data.sibling_shards.to_vec();
    StableManagerContractData {
        owner: data.owner,
        manager_contract: data.manager_contract,
        fee: to_decimal(&data.fee),
        underlying_token: data.underlying_token,
        sibling_shards,
        deploy_time: data.deploy_time,
    }
}

/// The administrative data that a snapshot holds, if the text of its fee
/// is a number.
pub fn import_stable_storage(manager_data: StableManagerContractData) -> (data: Option<
    ManagerContractData,
>)
    ensures
        match data {
            Some(d) => d.wf() && nat_parsed(manager_data.fee@) == Some(d@.fee) && d@ == (
            ManagerContractView {
                owner: principal_bytes(manager_data.owner),
                manager_contract: principal_bytes(manager_data.manager_contract),
                fee: d@.fee,
                underlying_token: principal_bytes(manager_data.underlying_token),
                sibling_shards: set_of(manager_data.sibling_shards@),
                deploy_time: manager_data.deploy_time,
            }),
            None => nat_parsed(manager_data.fee@) is None,
        },
{
    match parse_decimal(manager_data.fee.as_str()) {
        Some(fee) => Some(
            ManagerContractData {
                owner: manager_data.owner,
                manager_contract: manager_data.manager_contract,
                fee,
                underlying_token: manager_data.underlying_token,
                sibling_shards: AddressSet::from_vec(&manager_data.sibling_shards),
                deploy_time: manager_data.deploy_time,
            },
        ),
        None => None,
    }
}

} // verus!
