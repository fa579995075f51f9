//! The administrative data of the manager.

use crate::amount::{nat_value, zero};
use crate::principal::{anonymous, principal_bytes};
use crate::shard::management::anonymous_bytes;
use candid::{Nat, Principal};
use vstd::prelude::*;

verus! {

/// Who owns the ledger, what a transfer costs, and when the manager was
/// deployed.
pub struct ManagementStats {
    pub owner: Principal,
    pub fee: Nat,
    pub deploy_time: u64,
}

/// The administrative data as plain values.
pub ghost struct ManagementStatsView {
    pub owner: Seq<u8>,
    pub fee: nat,
    pub deploy_time: u64,
}

impl ManagementStats {
    pub open spec fn view(&self) -> ManagementStatsView {
        ManagementStatsView {
            owner: principal_bytes(self.owner),
            fee: nat_value(self.fee),
            deploy_time: self.deploy_time,
        }
    }
}

impl Default for ManagementStats {
    fn default() -> (stats: Self)
        ensures
            stats@ == (ManagementStatsView { owner: anonymous_bytes(), fee: 0, deploy_time: 0 }),
    {
        ManagementStats { owner: anonymous(), fee: zero(), deploy_time: 0 }
    }
}

} // verus!
