pub mod device;
pub mod export;
pub mod memory;
pub mod profiling;
pub mod routing;
pub mod transport;
pub mod cpu_monitor;
pub mod parameters;
