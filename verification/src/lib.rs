//! A verified ownership ledger for uniquely identified tokens, with
//! per-account aggregates layered on top.
//!
//! - [`erc721`] holds the ledger: token existence, ownership, balances, the
//!   monotonic supply counter, and the emitted ownership-change
//!   notifications.
//! - [`barn_nft`] holds the arena: per-account reputation, cumulative
//!   rewards, asset records and annotations, and the deduplicated roster of
//!   every address ever minted to.
//! - [`simple_nft`] is the minimal contract that exposes the ledger alone.
//! - [`laws`] proves properties of whole call traces from the per-call
//!   contracts: identifiers count up from zero, the roster is the distinct
//!   recipients in first-seen order, and saving an annotation twice is
//!   idempotent.
//! - [`address`], [`assoc`] and [`dec`] are the supporting value types:
//!   account identifiers, address-keyed tables, and decimal rendering for
//!   metadata URIs.

pub mod address;
pub mod assoc;
pub mod barn_nft;
pub mod dec;
pub mod erc721;
pub mod laws;
pub mod simple_nft;

pub use address::Address;
