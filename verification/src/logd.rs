//! The log daemon's message format and socket, and the logger that feeds it.

pub mod logger;

use vstd::prelude::*;

verus! {

/// The Unix datagram socket the log daemon reads.
pub const LOGD_SOCKET_PATH: &'static str = "/tmp/pullpiri_logd.sock";

/// One log record as sent to the log daemon.
#[derive(Clone, Debug, PartialEq)]
pub struct LogEnvelope {
    /// Wall-clock time of the record, in nanoseconds since the Unix epoch.
    pub ts_real_ns: u64,
    /// The tag of the process that logged.
    pub tag: String,
    /// Severity, 1 (verbose) to 6 (fatal).
    pub level: i32,
    /// The message text.
    pub message: String,
}

} // verus!
