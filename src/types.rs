use vstd::prelude::*;

verus! {

/// An amount of value held or moved by an account.
pub type Balance = u128;

/// A 160-bit account address, kept as its upper 128 bits and its lower 32 bits.
#[derive(Debug, Clone, Copy, PartialEq, Eq, Structural, Hash)]
pub struct AccountId {
    pub hi: u128,
    pub lo: u32,
}

impl AccountId {
    /// The address whose upper bits are zero and whose lower 32 bits are `lo`.
    pub fn from_low(lo: u32) -> (r: AccountId)
        ensures
            r.hi == 0,
            r.lo == lo,
    {
        AccountId { hi: 0, lo }
    }
}

/// A record of the compliant asset registry.
#[derive(Debug, Clone, PartialEq)]
pub struct ShariaCoin {
    /// Asset identifier (an address or a ticker), the registry's key.
    pub id: String,
    /// Display name.
    pub name: String,
    /// Symbol or ticker.
    pub symbol: String,
    /// Whether the compliance authority has verified the asset.
    pub verified: bool,
    /// Why the asset is considered compliant.
    pub compliance_reason: String,
}

impl ShariaCoin {
    /// A field-by-field copy.
    pub fn duplicate(&self) -> (r: ShariaCoin)
        ensures
            r == *self,
    {
        ShariaCoin {
            id: self.id.clone(),
            name: self.name.clone(),
            symbol: self.symbol.clone(),
            verified: self.verified,
            compliance_reason: self.compliance_reason.clone(),
        }
    }
}

/// Every way an operation of the platform can fail.
#[derive(Debug, Clone, Copy, PartialEq, Eq, Structural)]
pub enum Error {
    /// No registry record has the given asset identifier.
    CoinNotFound,
    /// The asset is not a verified member of the registry.
    NotShariaCompliant,
    /// No basket (or no template) has the given identifier.
    ETFNotFound,
    /// No recurring order has the given identifier.
    DCAOrderNotFound,
    /// The account's balance is below the amount to be spent.
    InsufficientBalance,
    /// The caller is not allowed to perform the operation.
    Unauthorized,
    /// The allocation percentages do not sum to 100.
    InvalidAllocation,
    /// An allocation names an asset that is not compliant.
    InvalidCoinInAllocation,
    /// The recurring order may not run yet.
    OrderNotReady,
    /// The recurring order has finished or was cancelled.
    OrderInactive,
    /// The recurring order would start before the current time.
    InvalidStartTime,
    /// The basket belongs to another account.
    ETFNotOwnedByUser,
}

} // verus!
