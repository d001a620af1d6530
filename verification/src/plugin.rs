pub mod clap_ffi;
pub mod clap_instance;
pub mod clap_integration;
pub mod display;
pub mod gui;
pub mod host;
pub mod info;
pub mod midi_bridge;
pub mod parameters;
pub mod scanner;
pub mod error;
pub mod trait_def;

pub use error::PluginError;
