//! Configuration aggregation: declared sources are read in order, merged into
//! one flat key-value store and queried through typed accessors.

pub mod config_map;
pub mod error;
pub mod file_reader;
pub mod json;
pub mod manager;
pub mod source;
pub mod watch;

pub use config_map::ConfigMap;
pub use error::ConfigError;
pub use manager::{ConfigManager, ConfigManagerBuilder};
pub use source::{ConfigSource, FilePath, FileType};
