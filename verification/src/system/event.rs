//! The event registry of the program (see [`crate::application::event`]).

pub use crate::application::event::EventRegistry;
pub use crate::application::event::Listener;
