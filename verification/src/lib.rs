//! Telemetry snapshots for a chat-box overlay.
//!
//! The library turns sampled machine readings (wall-clock time, CPU, RAM and
//! GPU use) into one block of text, frames that text as an OSC message and
//! decides, tick by tick, what the polling loop does next. Reading the
//! machine, sleeping and sending stay with the caller.

pub mod config;
pub mod digits;
pub mod osc;
pub mod percent;
pub mod poll;
pub mod snapshot;
pub mod sources;
pub mod text;

pub use config::{ConfigError, Configuration, SourceKind, DEFAULT_INTERVAL};
pub use osc::{encode_snapshot, LOCAL_ENDPOINT, OVERLAY_ENDPOINT};
pub use poll::{step, Action, Event, LoopState};
pub use snapshot::get_info;
pub use sources::{gpu_line, ram_line, CpuInfo, GpuInfo, Info, Provider, RamInfo, TimeInfo};
