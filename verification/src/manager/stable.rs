//! The administrative data of the manager as it is written to a
//! snapshot: the fee as decimal text, so that no digit is lost.

use crate::amount::{nat_decimal, nat_parsed, parse_decimal, to_decimal};
use crate::manager::types::{ManagementStats, ManagementStatsView};
use crate::principal::principal_bytes;
use candid::Principal;
use vstd::prelude::*;

verus! {

/// The administrative data of the manager, the fee as decimal text.
pub struct StableManagementStats {
    pub owner: Principal,
    pub fee: String,
    pub deploy_time: u64,
}

impl StableManagementStats {
    /// The administrative data as it is written to a snapshot.
    pub fn from(s: ManagementStats) -> (stable: StableManagementStats)
        ensures
            principal_bytes(stable.owner) == s@.owner,
            stable.fee@ == nat_decimal(s@.fee),
            nat_parsed(stable.fee@) == Some(s@.fee),
            stable.deploy_time == s@.deploy_time,
    {
        StableManagementStats { owner: s.owner, fee: to_decimal(&s.fee), deploy_time: s.deploy_time }
    }

    /// The administrative data that a snapshot holds, if the text of its
    /// fee is a number.
    pub fn into_stats(self) -> (stats: Option<ManagementStats>)
        ensures
            match stats {
                Some(s) => nat_parsed(self.fee@) == Some(s@.fee) && s@ == (ManagementStatsView {
                    owner: principal_bytes(self.owner),
                    fee: s@.fee,
                    deploy_time: self.deploy_time,
                }),
                None => nat_parsed(self.fee@) is None,
            },
    {
        match parse_decimal(self.fee.as_str()) {
            Some(fee) => Some(
                ManagementStats { owner: self.owner, fee, deploy_time: self.deploy_time },
            ),
            None => None,
        }
    }
}

} // verus!
