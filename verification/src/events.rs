//! The observable outcome of each successful operation.
//!
//! Each struct carries the fields a caller needs for observability and for
//! the external follow-up work the engine itself cannot perform: requesting
//! credit issuance after a close, or the payment and credit transfers of a
//! purchase.

use vstd::prelude::*;

use crate::state::AccountId;

verus! {

/// A station was registered.
#[derive(Clone, Debug)]
pub struct StationRegistered {
    /// The station code the record is stored under.
    pub station: Vec<u8>,
    pub operator: AccountId,
    /// The city bytes as supplied, before padding.
    pub city: Vec<u8>,
}

/// A charging session was opened.
#[derive(Clone, Debug)]
pub struct SessionStarted {
    /// The ordinal the session's address derives from.
    pub session: u64,
    /// The code of the station the session runs against.
    pub station: Vec<u8>,
    pub driver: AccountId,
    pub timestamp: i64,
}

/// A charging session was closed.  `points_minted` credit units are owed to
/// the vault's bound account; when it is zero no issuance is requested.
#[derive(Clone, Copy, Debug, PartialEq, Eq, Structural)]
pub struct SessionClosed {
    /// The ordinal the session's address derives from.
    pub session: u64,
    pub energy_wh: u64,
    pub seconds: u64,
    pub points_minted: u64,
}

/// Points were redeemed: the buyer owes `price_lamports` to the payment
/// treasury, and `amount` credit units move from the vault's bound account
/// to the buyer.
#[derive(Clone, Copy, Debug, PartialEq, Eq, Structural)]
pub struct PointsPurchased {
    pub buyer: AccountId,
    pub driver: AccountId,
    pub amount: u64,
    pub price_lamports: u64,
}

/// A world plot was claimed.
#[derive(Clone, Debug)]
pub struct PlotClaimed {
    pub owner: AccountId,
    /// The region key the plot's address derives from.
    pub region: Vec<u8>,
}

} // verus!
