//! A small proof-of-work cryptocurrency node core: a linear blockchain of
//! signed transactions, a memory-hard hash, block and transaction validation,
//! dynamic difficulty, a mempool, hashrate accounting, and the line-framed
//! command processor of the node daemon.

pub mod chain;
pub mod config;
pub mod decfmt;
pub mod hexfmt;
pub mod jsonenc;
pub mod laws;
pub mod jsonparse;
pub mod mining;
pub mod mempool;
pub mod model;
pub mod node;
pub mod pow;
pub mod sig;
pub mod stats;
pub mod strutil;
pub mod textfmt;
pub mod wallet;
