//! A single-node append-only ledger: blocks bound to their predecessors by
//! SHA-256 digests, gated by a proof-of-work search, and re-checkable by
//! recomputation.

pub mod block;
pub mod chain;
pub mod clock;
pub mod decimal;
pub mod hashing;
pub mod state;

pub use block::Block;
pub use chain::Blockchain;
pub use state::AppState;
