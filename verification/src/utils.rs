//! Small utilities.

pub mod closure;
