//! Resolves what a contract validation engine needs to know of the chain (unspent
//! outputs of watched scripts, transactions, confirmation status) from the answers of a
//! remote chain-query service.

pub mod chain;
pub mod remote;
pub mod resolver;
pub mod tx;
pub mod utxo;
