//! A label-indexed registry of stateful systems run against a shared world.
//!
//! Systems are registered under labels, or cached by their identity, and run
//! one at a time; each system's deferred commands are applied to the world as
//! soon as it returns.

pub mod label;
pub mod world;
pub mod systems;
pub mod registry;
pub mod commands;
pub mod laws;

pub use commands::{Command, RunSystemCommand, RunSystemsByLabelCommand};
pub use label::SystemLabel;
pub use registry::{RegistryError, SystemRegistry};
pub use systems::{StoredSystem, SystemFn};
pub use world::{Counter, Entities, Storage, World};
