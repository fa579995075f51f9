//! A shard: the node that holds a part of the balances.

pub mod balances;
pub mod conservation;
pub mod fees;
pub mod management;
pub mod mint;
pub mod stable;
