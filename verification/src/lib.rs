//! Signing and transaction-construction core of a single-user wallet for a
//! UTXO ledger whose outputs are taproot-style commitments: either a derived
//! key (key-path spend) or an opaque program root (leaf-path spend).

pub mod error;
pub mod keys;
pub mod network;
pub mod outputs;
pub mod registry;
pub mod rpc;
pub mod spend;
pub mod state;
pub mod util;
pub mod witness;
