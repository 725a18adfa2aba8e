//! Sampling engine for host metrics: turns raw, cumulative operating-system
//! counters into per-core and aggregate CPU percentages, keeps a registry of
//! live processes, and reports memory, uptime and boot time.
//!
//! The engine performs no system calls itself. Every refresh takes the values
//! that the platform reported as plain arguments, so each decision is a
//! function of the snapshot and of those values alone.

pub mod catalog;
pub mod platform;
pub mod process;
pub mod processor;
pub mod refresh_kind;
pub mod session;
pub mod snapshot;
pub mod system;
pub mod usage;

pub use crate::process::{Pid, Process};
pub use crate::processor::Processor;
pub use crate::refresh_kind::RefreshKind;
pub use crate::system::System;
