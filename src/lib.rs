//! Reconciliation of a node wallet's unspent outputs with an ordinal index,
//! resolution of ordinal numbers to outputs, wallet descriptor derivation and
//! the gates that guard access to the node and to the index.

pub mod version;
pub mod outpoint;
pub mod error;
pub mod utxo;
pub mod reconcile;
pub mod sat;
pub mod shape;
pub mod sync;
pub mod keys;
pub mod index;
