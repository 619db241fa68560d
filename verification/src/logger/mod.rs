//! Per-event-type logging. A message is only built when its flag is on and
//! there is room for it in the log queue.

pub mod log;
pub mod log_config;

pub use log::{ELog, Logger};
pub use log_config::LogConfig;
