//! Two-line element (TLE) text handling: cleaning response bodies, pairing
//! element lines, reading epoch fields, and the disk-cache bookkeeping.
pub mod cache;
pub mod fetcher;
pub mod parser;
pub mod store;
