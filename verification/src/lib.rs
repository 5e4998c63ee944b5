//! Rolling daily blockchain-activity metrics, republished as certified JSON
//! assets: a capped date-sorted series with upsert and inter-day deltas, a
//! cursor-pagination engine with a page bound, a versioned state-migration
//! chain, an authenticated path-to-hash map with per-path witnesses, and a
//! small request router over a fixed asset allow-list.
use vstd::prelude::*;

pub mod cbor;
pub mod certified;
pub mod errors;
pub mod fetch;
pub mod json;
pub mod order;
pub mod payload;
pub mod platform;
pub mod router;
pub mod series;
pub mod state;
pub mod text;
pub mod wallets;

verus! {

/// Number of daily entries a series retains.
pub const DEFAULT_DAYS: usize = 30;

/// Upper bound on pages walked in one paginated fetch.
pub const MAX_PAGES: usize = 100;

} // verus!
