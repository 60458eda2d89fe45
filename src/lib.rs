//! A ledger and order engine for a platform of compliant assets: a registry of
//! verified assets, per-account balances, baskets of assets with fixed
//! percentage allocations, and recurring (dollar-cost-averaging) purchase orders.
//!
//! The host supplies the caller's identity, the current block number and time,
//! and the value attached to a deposit; every operation takes them as arguments.

mod types;
mod platform;
mod ledger;
mod registry;
mod baskets;
mod dca;

pub use types::{AccountId, Balance, Error, ShariaCoin};
pub use platform::{DCAOrder, ETF, EtfView, ShariaPlatform};
