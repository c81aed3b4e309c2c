//! Program-wide keyboard tables.

pub mod keyboard;
