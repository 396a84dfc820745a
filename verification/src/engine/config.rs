//! The configuration sections of the engine: the same as the first
//! model's (the CRT shader settings, in floating point, live around the
//! library).

pub use crate::config::{Debugger, DisplayConfig, DriveConfig, FileConfig, MemoryConfig, RomConfig};
