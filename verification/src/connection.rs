pub mod reconnect;
pub mod status;
