//! A hot-reload watcher library for exercise directories laid out as
//! `<root>/exercises/<number>_<name>.zig` with a sibling `<root>/build.zig`.
//!
//! The library classifies batches of filesystem change notifications,
//! deduplicates them, and resolves each accepted file to a build target
//! (an exercise number plus a working directory). The surrounding binary
//! supplies the notifications and spawns the build tool.

pub mod batch;
pub mod events;
mod fs_probe;
pub mod path_model;
pub mod prepare;
pub mod report;
pub mod target;
