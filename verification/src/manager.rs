//! The manager: the node that assigns users to shards and administers the
//! shards and the fee.

pub mod accounts;
pub mod management;
pub mod metadata;
pub mod shards;
pub mod stable;
pub mod types;
