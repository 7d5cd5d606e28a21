//! A single-node, append-only ledger of hash-linked blocks, each of which may
//! carry one name-registration transaction, with first-write-wins ownership
//! queries over two-level names.

pub mod bytes;
pub mod hashing;
pub mod codec;
pub mod transaction;
pub mod block;
pub mod blockchain;
pub mod laws;

pub use bytes::Bytes;
pub use transaction::Transaction;
pub use block::Block;
pub use blockchain::{AppendOutcome, Blockchain};
