pub mod commands;
pub mod manager;
pub mod state;
pub mod trait_def;

pub use manager::CommandManager;
pub use state::DawState;
pub use trait_def::UndoableCommand;
