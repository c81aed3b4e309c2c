//! State shared by the whole program.

pub mod input;
