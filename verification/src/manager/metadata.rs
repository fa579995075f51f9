//! How the token presents itself.

use crate::manager::management::assert_is_owner;
use crate::manager::types::ManagementStats;
use crate::principal::{anonymous, principal_bytes};
use crate::shard::management::anonymous_bytes;
use crate::types::{Result, TxError};
use candid::Principal;
use vstd::prelude::*;

verus! {

/// Logo, name, symbol and decimals of the token, and the token it wraps.
pub struct Metadata {
    pub logo: String,
    pub name: String,
    pub symbol: String,
    pub decimals: u8,
    pub underlying_token: Principal,
}

/// The metadata as plain values.
pub ghost struct MetadataView {
    pub logo: Seq<char>,
    pub name: Seq<char>,
    pub symbol: Seq<char>,
    pub decimals: u8,
    pub underlying_token: Seq<u8>,
}

impl Metadata {
    pub open spec fn view(&self) -> MetadataView {
        MetadataView {
            logo: self.logo@,
            name: self.name@,
            symbol: self.symbol@,
            decimals: self.decimals,
            underlying_token: principal_bytes(self.underlying_token),
        }
    }
}

impl Default for Metadata {
    fn default() -> (metadata: Self)
        ensures
            metadata@ == (MetadataView {
                logo: Seq::empty(),
                name: Seq::empty(),
                symbol: Seq::empty(),
                decimals: 0,
                underlying_token: anonymous_bytes(),
            }),
    {
        Metadata {
            logo: String::new(),
            name: String::new(),
            symbol: String::new(),
            decimals: 0,
            underlying_token: anonymous(),
        }
    }
}

/// Replaces the metadata.
pub fn init_metadata(metadata: &mut Metadata, new_metadata: Metadata)
    ensures
        *final(metadata) == new_metadata,
{
    *metadata = new_metadata;
}

/// The token that the ledger wraps.
pub fn get_underlying_token(metadata: &Metadata) -> (token: Principal)
    ensures
        principal_bytes(token) == metadata@.underlying_token,
{
    metadata.underlying_token
}

/// The logo.
pub fn get_logo(metadata: &Metadata) -> (logo: String)
    ensures
        logo@ == metadata@.logo,
{
    metadata.logo.clone()
}

/// The name of the token.
pub fn name(metadata: &Metadata) -> (name: String)
    ensures
        name@ == metadata@.name,
{
    metadata.name.clone()
}

/// The symbol of the token.
pub fn symbol(metadata: &Metadata) -> (symbol: String)
    ensures
        symbol@ == metadata@.symbol,
{
    metadata.symbol.clone()
}

/// The number of decimals of the token.
pub fn decimals(metadata: &Metadata) -> (decimals: u8)
    ensures
        decimals == metadata@.decimals,
{
    metadata.decimals
}

/// The metadata.
pub fn get_metadata(metadata: &Metadata) -> (all: &Metadata)
    ensures
        *all == *metadata,
{
    metadata
}

/// The owner sets a new logo. Anyone else is turned away and nothing
/// changes.
pub fn set_logo(metadata: &mut Metadata, stats: &ManagementStats, caller: &Principal, logo: String)
    -> (r: Result<()>)
    ensures
        r == if stats@.owner == principal_bytes(*caller) {
            Ok::<(), TxError>(())
        } else {
            Err(TxError::Unauthorized)
        },
        r.is_ok() ==> final(metadata)@ == (MetadataView { logo: logo@, ..old(metadata)@ }),
        r.is_err() ==> *final(metadata) == *old(metadata),
{
    match assert_is_owner(stats, caller) {
        Ok(()) => {
            metadata.logo = logo;
            Ok(())
        },
        Err(e) => Err(e),
    }
}

/// The metadata as it is written to a snapshot.
pub fn export_stable_storage(metadata: Metadata) -> (stable: Metadata)
    ensures
        stable == metadata,
{
    metadata
}

/// The metadata that a snapshot holds.
pub fn import_stable_storage(metadata: Metadata) -> (restored: Metadata)
    ensures
        restored == metadata,
{
    metadata
}

} // verus!
