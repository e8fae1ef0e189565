//! Durable ledgers for governance proposals, auction items, and payment-backed
//! bids, stored as size-bounded encoded records in partitioned stable maps.
use vstd::prelude::*;

pub mod auction;
pub mod bids;
pub mod codec;
pub mod identity;
pub mod items;
pub mod proposal;
pub mod types;
pub mod store;

verus! {

/// Maximum encoded size, in bytes, of one stored record.
pub const MAX_VALUE_SIZE: u32 = 5000;

} // verus!
