//! Server configuration, read once at start and handed to the core as plain
//! values: the listen address, the maximum accepted bulk-string and array
//! length, and the log verbosity.

use vstd::prelude::*;

verus! {

/// Log verbosity, coarsest to finest.
#[derive(Debug, PartialEq, Eq, Structural, Clone, Copy)]
pub enum LogLevel {
    Off,
    Error,
    Warn,
    Info,
    Debug,
    Trace,
}

/// The server's startup configuration.
#[derive(Debug)]
pub struct Config {
    pub listen_ip: String,
    pub port: u16,
    /// Default: info.
    pub log_level: LogLevel,
    /// The maximum accepted bulk-string and array length.  Default: 64 MiB.
    pub string_max_length: usize,
}

impl Default for Config {
    /// The defaults used when the environment names nothing else.
    fn default() -> (r: Config)
        ensures
            r.listen_ip@ == "127.0.0.1"@,
            r.port == 6379,
            r.log_level == LogLevel::Info,
            r.string_max_length == 0x400_0000,
    {
        Config {
            listen_ip: "127.0.0.1".to_string(),
            port: 6379,
            log_level: LogLevel::Info,
            string_max_length: 0x400_0000,
        }
    }
}

} // verus!
