pub mod filter;
pub mod lfo;
pub mod modulation;
pub mod oscillator;
pub mod poly_mode;
pub mod voice_manager;
