//! A logging backend with a colour console sink and a size-rotated file sink.
//!
//! The library holds the decisions of the backend: the configuration, the
//! rendering of log lines, the naming of archived log files and the choice of
//! the archive that retention removes. The file system, the console, the
//! system clock and the process-wide logger installation are left to the
//! caller.
pub mod stamp;
pub mod retention;
pub mod level;
pub mod console_config;
pub mod file_config;
pub mod dispatch;

pub use console_config::{Color, ConsoleConfig};
pub use dispatch::{Termite, TermiteConfig, TermiteLogError};
pub use file_config::FileConfig;
pub use level::{Level, LevelFilter};
pub use stamp::Stamp;
