//! MyMusic DAW core library: MIDI parsing, device connection logic,
//! notifications, memory and performance bookkeeping, audio routing
//! topology and plugin metadata.

pub mod audio;
pub mod command;
pub mod connection;
pub mod control;
pub mod events;
pub mod messaging;
pub mod midi;
pub mod plugin;
pub mod synth;
pub mod text;
pub mod window_utils;
