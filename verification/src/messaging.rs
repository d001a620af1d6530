pub mod channels;
pub mod command;
pub mod notification;
