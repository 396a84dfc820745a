//! Verified core of an Amstrad CPC 6128 emulator: memory banking, video
//! controller, GA chip, floppy controller, tape decoding and the
//! small pieces of policy around them.

pub mod audio;
pub mod crtc;
pub mod fdc;
pub mod dsk_writer;
pub mod gate_array;
pub mod tape;
pub mod engine;
pub mod memory;
pub mod cli;
pub mod monitor;
pub mod console_panel;
pub mod machine;
pub mod snapshot;
pub mod bus;
pub mod ppi;
pub mod psg;
pub mod sound;
pub mod applog;
pub mod config;
pub mod config_file;
pub mod rom_installer;
pub mod display;
pub mod text;
pub mod hex;
pub mod status;
pub mod command;
