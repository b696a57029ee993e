//! Substring-search operations over strings seen as sequences of fixed-width
//! code units: prefix and suffix tests, forward and backward search, an
//! exhaustive bidirectional occurrence iterator, and index-range slicing.
//! A companion type owns a nul-terminated byte string.

pub mod bytes;
pub mod cstring;
pub mod engine;
pub mod iter;
pub mod matcher;
pub mod model;
pub mod unit;
