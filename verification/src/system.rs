//! Program-level services.

pub mod backend;
pub mod event;
