//! The state of a shard as it is written to a snapshot: amounts as
//! decimal text, so that no digit is lost, and collections as lists.

use candid::Principal;
use vstd::prelude::*;

verus! {

/// The accounts with what each holds, as decimal text.
pub struct StableShardBalances(pub Vec<(Principal, String)>);

/// The collected fees, as decimal text.
pub struct StableFeeBalance(pub String);

/// The administrative data of a shard, the fee as decimal text.
pub struct StableManagerContractData {
    pub owner: Principal,
    pub manager_contract: Principal,
    pub fee: String,
    pub underlying_token: Principal,
    pub sibling_shards: Vec<Principal>,
    pub deploy_time: u64,
}

} // verus!
