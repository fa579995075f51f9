//! The owner and the fee of the ledger.

use crate::amount::{copy_of, nat_decimal, nat_parsed, nat_value, zero};
use crate::manager::stable::StableManagementStats;
use crate::manager::types::{ManagementStats, ManagementStatsView};
use crate::principal::{principal_bytes, same_principal};
use crate::types::{Result, TxError};
use candid::{Nat, Principal};
use vstd::prelude::*;

verus! {

/// What the manager reports of the ledger.
pub struct Stats {
    pub total_supply: Nat,
    pub owner: Principal,
    pub fee: Nat,
    pub deploy_time: u64,
    pub cycles: u64,
}

/// A report as plain values.
pub ghost struct StatsView {
    pub total_supply: nat,
    pub owner: Seq<u8>,
    pub fee: nat,
    pub deploy_time: u64,
    pub cycles: u64,
}

impl Stats {
    pub open spec fn view(&self) -> StatsView {
        StatsView {
            total_supply: nat_value(self.total_supply),
            owner: principal_bytes(self.owner),
            fee: nat_value(self.fee),
            deploy_time: self.deploy_time,
            cycles: self.cycles,
        }
    }

    /// The report that holds the administrative data and, for the supply
    /// and the cycles, zero.
    pub fn from(m: ManagementStats) -> (stats: Stats)
        ensures
            stats@ == (StatsView {
                total_supply: 0,
                owner: m@.owner,
                fee: m@.fee,
                deploy_time: m@.deploy_time,
                cycles: 0,
            }),
    {
        Stats {
            total_supply: zero(),
            owner: m.owner,
            fee: m.fee,
            deploy_time: m.deploy_time,
            cycles: 0,
        }
    }
}

/// Passes if the caller owns the ledger.
pub fn assert_is_owner(stats: &ManagementStats, caller: &Principal) -> (r: Result<()>)
    ensures
        r == if stats@.owner == principal_bytes(*caller) {
            Ok::<(), TxError>(())
        } else {
            Err(TxError::Unauthorized)
        },
{
    if same_principal(&stats.owner, caller) {
        Ok(())
    } else {
        Err(TxError::Unauthorized)
    }
}

/// Replaces the administrative data.
pub fn init_management_data(stats: &mut ManagementStats, new_stats: ManagementStats)
    ensures
        *final(stats) == new_stats,
{
    *stats = new_stats;
}

/// The administrative data of a manager that `owner` has just deployed at
/// `deploy_time`.
pub fn init(owner: Principal, deploy_time: u64) -> (stats: ManagementStats)
    ensures
        stats@ == (ManagementStatsView { owner: principal_bytes(owner), fee: 0, deploy_time }),
{
    ManagementStats { owner, fee: zero(), deploy_time }
}

/// Sets the fee when the ledger is set up.
pub fn init_fee(stats: &mut ManagementStats, fee: Nat)
    ensures
        final(stats)@ == (ManagementStatsView { fee: nat_value(fee), ..old(stats)@ }),
{
    stats.fee = fee;
}

/// The report of the ledger, with the supply that the shards have told
/// and the cycles that the node holds.
pub fn stats(management: &ManagementStats, total_supply: Nat, cycles: u64) -> (report: Stats)
    ensures
        report@ == (StatsView {
            total_supply: nat_value(total_supply),
            owner: management@.owner,
            fee: management@.fee,
            deploy_time: management@.deploy_time,
            cycles,
        }),
{
    Stats {
        total_supply,
        owner: management.owner,
        fee: copy_of(&management.fee),
        deploy_time: management.deploy_time,
        cycles,
    }
}

/// The owner of the ledger.
pub fn owner(stats: &ManagementStats) -> (owner: Principal)
    ensures
        principal_bytes(owner) == stats@.owner,
{
    stats.owner
}

/// The owner sets a new fee, which is then to be told to every shard.
/// Anyone else is turned away and nothing changes.
pub fn set_fee(stats: &mut ManagementStats, caller: &Principal, fee: Nat) -> (r: Result<()>)
    ensures
        r == if old(stats)@.owner == principal_bytes(*caller) {
            Ok::<(), TxError>(())
        } else {
            Err(TxError::Unauthorized)
        },
        r.is_ok() ==> final(stats)@ == (ManagementStatsView { fee: nat_value(fee), ..old(stats)@ }),
        r.is_err() ==> *final(stats) == *old(stats),
{
    if same_principal(&stats.owner, caller) {
        stats.fee = fee;
        Ok(())
    } else {
        Err(TxError::Unauthorized)
    }
}

/// The fee that a transfer costs.
pub fn get_fee(stats: &ManagementStats) -> (fee: Nat)
    ensures
        nat_value(fee) == stats@.fee,
{
    copy_of(&stats.fee)
}

/// The owner hands the ledger to a new owner. Anyone else is turned away
/// and nothing changes.
pub fn set_owner(stats: &mut ManagementStats, caller: &Principal, owner: Principal) -> (r: Result<
    (),
>)
    ensures
        r == if old(stats)@.owner == principal_bytes(*caller) {
            Ok::<(), TxError>(())
        } else {
            Err(TxError::Unauthorized)
        },
        r.is_ok() ==> final(stats)@ == (ManagementStatsView {
            owner: principal_bytes(owner),
            ..old(stats)@
        }),
        r.is_err() ==> *final(stats) == *old(stats),
{
    if same_principal(&stats.owner, caller) {
        stats.owner = owner;
        Ok(())
    } else {
        Err(TxError::Unauthorized)
    }
}

/// The administrative data as it is written to a snapshot.
pub fn export_stable_storage(stats: ManagementStats) -> (stable: StableManagementStats)
    ensures
        principal_bytes(stable.owner) == stats@.owner,
        stable.fee@ == nat_decimal(stats@.fee),
        nat_parsed(stable.fee@) == Some(stats@.fee),
        stable.deploy_time == stats@.deploy_time,
{
    StableManagementStats::from(stats)
}

/// The administrative data that a snapshot holds, if the text of its fee
/// is a number.
pub fn import_stable_storage(management_stats: StableManagementStats) -> (stats: Option<
    ManagementStats,
>)
    ensures
        match stats {
            Some(s) => nat_parsed(management_stats.fee@) == Some(s@.fee) && s@ == (
            ManagementStatsView {
                owner: principal_bytes(management_stats.owner),
                fee: s@.fee,
                deploy_time: management_stats.deploy_time,
            }),
            None => nat_parsed(management_stats.fee@) is None,
        },
{
    management_stats.into_stats()
}

} // verus!
