//! Application-level building blocks: event dispatch, module hooks and the
//! event loops' decisions.

pub mod event;
pub mod module;
pub mod lifecycle;
pub mod window_loop;
