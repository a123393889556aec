//! Helpers for applications built on an entity-component-system scheduler:
//! access descriptors and their merge, systems chained on a `Result` or an
//! `Option`, tracking of background tasks with progress accounting, dispatch
//! of click behaviours, and the cursor's position in the world.
//!
//! Every function in this crate carries a contract that is proved. The few
//! places where the crate calls into `bevy` are marked as trusted: their
//! contracts say what the outside code does and are taken on trust.

pub mod access;
pub mod cursor;
pub mod system;
pub mod task;
pub mod ui;
