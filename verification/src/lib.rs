//! A single-node simulator of a proof-of-history-sequenced ledger.
//!
//! Signed transactions are admitted through rate limiting and blacklisting,
//! batched into blocks that are chained both by cryptographic hash and by a
//! proof-of-history sequence, mined under a leading-zero-bit difficulty
//! target, and applied atomically to a balance ledger.

pub mod crypto;
pub mod encoding;
pub mod accounts;
pub mod poh;
pub mod block;
pub mod ledger;
pub mod admission;
pub mod node;
