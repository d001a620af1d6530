pub mod device;
pub mod event;
pub mod manager;
