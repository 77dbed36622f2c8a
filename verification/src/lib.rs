//! A verified token platform: fungible/non-fungible collections with a
//! range-compacted ownership ledger, a bonding-curve exchange, parent/child
//! token linking, sub-token derivation, and a Moloch-style DAO with NFT
//! tributes.
//!
//! Every state-mutating operation is specified by a contract over a
//! mathematical view of the stores it touches, and verified with Verus.

pub mod collection;
pub mod currency;
pub mod dao;
pub mod exchange;
pub mod fixmath;
pub mod graph;
pub mod ids;
pub mod laws;
pub mod nft;
pub mod store;
pub mod sub;
pub mod sums;
pub mod types;
