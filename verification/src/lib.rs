//! Deadline-gated ledger campaigns: a time-boxed fundraising campaign and a
//! time-boxed election. Both share one pattern: an immutable configuration
//! fixed at creation, a per-participant ledger, and a status derived purely
//! from the current time and the ledger aggregate. The host environment
//! (clock, caller addresses, custody of transferred value) stays outside;
//! every handler here takes the current time and the caller as plain values
//! and returns the requested effect.

pub mod crowdfunding_sc;
pub mod eleccions;
