//! Input-state bookkeeping and event dispatch for a small game/graphics engine.

pub mod inputs;
pub mod input;
pub mod globals;
pub mod application;
pub mod utils;
pub mod system;
pub mod graphics;
pub mod math;
