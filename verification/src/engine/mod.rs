//! The emulation engine proper: video controller with scanline timing,
//! extended memory, mouse, auto-typing, trace recorder, video capture,
//! keyboard codes and configuration model.

pub mod autotype;
pub mod crtc;
pub mod gate_array;
pub mod memory;
pub mod mouse;
pub mod ppi;
pub mod trace;
pub mod video;
pub mod config;
pub mod keys;
