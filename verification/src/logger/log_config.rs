//! The log flags.

use vstd::prelude::*;

verus! {

/// Which kinds of log lines are written.
#[derive(Clone, Copy, Debug, PartialEq, Eq, Structural)]
pub struct LogConfig {
    /// Server start, bind address, number of users.
    pub lifecycle: bool,
    /// Every cache lookup that finds an entry.
    pub cache_attempts: bool,
    /// Every successful cache hit.
    pub cache_hits: bool,
    /// Once per first-seen target.
    pub cache_writes: bool,
    /// Failures of single upstream attempts.
    pub proxy_failures: bool,
    /// Connections to banned addresses.
    pub banned_targets: bool,
    /// Failed logins, malformed clients, broken handshakes.
    pub connection_errors: bool,
    /// One line per upstream attempt.
    pub attempts: bool,
}

/// The kinds of log lines.
#[derive(Clone, Copy, Debug, PartialEq, Eq, Structural)]
pub enum LogKind {
    Lifecycle,
    CacheAttempt,
    CacheHit,
    CacheWrite,
    ProxyFailure,
    BannedTarget,
    ConnectionError,
    Attempt,
}

impl LogConfig {
    /// Whether a kind of log line is on.
    pub open spec fn is_on(self, kind: LogKind) -> bool {
        match kind {
            LogKind::Lifecycle => self.lifecycle,
            LogKind::CacheAttempt => self.cache_attempts,
            LogKind::CacheHit => self.cache_hits,
            LogKind::CacheWrite => self.cache_writes,
            LogKind::ProxyFailure => self.proxy_failures,
            LogKind::BannedTarget => self.banned_targets,
            LogKind::ConnectionError => self.connection_errors,
            LogKind::Attempt => self.attempts,
        }
    }

    /// Whether a kind of log line is on.
    pub fn enabled(&self, kind: LogKind) -> (r: bool)
        ensures
            r == self.is_on(kind),
    {
        match kind {
            LogKind::Lifecycle => self.lifecycle,
            LogKind::CacheAttempt => self.cache_attempts,
            LogKind::CacheHit => self.cache_hits,
            LogKind::CacheWrite => self.cache_writes,
            LogKind::ProxyFailure => self.proxy_failures,
            LogKind::BannedTarget => self.banned_targets,
            LogKind::ConnectionError => self.connection_errors,
            LogKind::Attempt => self.attempts,
        }
    }
}

/// The value of a flag that a configuration file leaves out, for the flags
/// that are on by default.
pub fn default_true() -> (r: bool)
    ensures
        r,
{
    true
}

impl Default for LogConfig {
    fn default() -> (r: Self)
        ensures
            r == (LogConfig {
                lifecycle: true,
                cache_attempts: false,
                cache_hits: false,
                cache_writes: false,
                proxy_failures: true,
                banned_targets: true,
                connection_errors: true,
                attempts: false,
            }),
    {
        LogConfig {
            lifecycle: true,
            cache_attempts: false,
            cache_hits: false,
            cache_writes: false,
            proxy_failures: true,
            banned_targets: true,
            connection_errors: true,
            attempts: false,
        }
    }
}

} // verus!
