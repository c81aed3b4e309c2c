//! Hooks for parts of an application that follow its life cycle.

use vstd::prelude::*;

verus! {

/// A part of an application, told when it starts, on each update and when
/// it exits.
pub trait Module {
    fn init(&mut self);

    fn update(&mut self);

    fn on_exit(&mut self);
}

/// The module holding the application core; it does nothing at any stage.
pub struct CoreModule;

impl Module for CoreModule {
    fn init(&mut self) {
    }

    fn update(&mut self) {
    }

    fn on_exit(&mut self) {
    }
}

} // verus!
