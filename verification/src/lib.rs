//! The core of a permissioned, single-authority blockchain node: the block
//! and transaction data model with its hashing and signing rules, the
//! account state machine with block-scoped staging and atomic commit, the
//! mempool's admission control, the block-range sync and gossip decisions,
//! and the authority's block production step.

pub mod authority;
pub mod blockchain;
pub mod bytes;
pub mod crypto;
pub mod mempool;
pub mod p2p;
pub mod state;
