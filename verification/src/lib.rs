//! Scheduling and resource-protection core of an interrupt-driven runtime:
//! interrupt sources are bound to tasks that run at static priorities, and
//! shared state is guarded by a priority-ceiling protocol instead of locks.
//!
//! - `token`: the priority and threshold of a context, and the proof that a
//!   task's handler runs, as tokens that borrow the dispatcher.
//! - `cell`: resource cells, which a context may touch only between its
//!   priority and its threshold, and the local cells of single tasks.
//! - `registry`: the table that binds each interrupt source to its task.
//! - `dispatch`: the dispatcher, which decides who runs, and its state.
//! - `protocol`: what holds in every state of the dispatcher.
//! - `convert`: integer conversions.
//! - `wheel`, `board`, `tasks`: an application, a ring of lights turned by a
//!   timer that two buttons start and stop.

pub mod token;
pub mod cell;
pub mod registry;
pub mod dispatch;
pub mod protocol;
pub mod convert;
pub mod wheel;
pub mod board;
pub mod tasks;
