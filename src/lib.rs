//! A personal reminder scheduler: tasks that fire once, periodically or once a
//! day, and a coordinating loop that registers them and cancels them by id.
pub mod clock;
pub mod comm;
pub mod registry;
pub mod scheduler;
pub mod task;
pub mod text;
pub mod timer;
