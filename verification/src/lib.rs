//! A sharded token ledger: one manager assigns users to shards, the shards
//! hold the balances and move value between each other.
//!
//! Every node's state is an explicit value that the operations take by
//! reference. An operation that needs an answer from another node is split
//! in two: the first half decides and says what has to be sent, the second
//! half takes the answer and settles.

pub mod address_set;
pub mod amount;
pub mod manager;
pub mod principal;
pub mod shard;
pub mod supply;
pub mod table;
pub mod text_order;
pub mod types;
