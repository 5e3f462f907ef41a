//! Transactional replacement of system binaries via atomic symlink swaps.
//!
//! The engine plans a batch of file-system mutations (replace a target with a
//! symlink, or restore a target from its backup), validates the batch against
//! policy without touching the filesystem, and applies it either for real
//! (`Commit`) or as a pure simulation (`DryRun`). Every path the engine
//! touches is a [`paths::SafePath`], lexically confined under a declared
//! root, and every mutation is expressed against an explicit filesystem
//! model, so the transactional guarantees are stated and proved here rather
//! than assumed.

pub mod apply;
pub mod batch;
pub mod compat;
pub mod errors;
pub mod experiments;
pub mod fsmodel;
pub mod hook;
pub mod laws;
pub mod paths;
pub mod pkgs;
pub mod plan;
pub mod policy;
pub mod preflight;
pub mod progress;
pub mod state;
pub mod strutil;
pub mod verify;
pub mod worker;

pub use errors::Error;
pub use experiments::Experiment;
pub use worker::Worker;
