//! Parsers for a feed tracker's configuration file and per-feed event log, with each
//! result stated exactly over a grammar of spec functions.
pub mod backends;
pub mod cursor;
pub mod error;
pub mod feed;
pub mod laws;
pub mod parser;
pub mod policy;
