//! Server settings and their defaults.

use vstd::prelude::*;

use crate::config::file_log_config::FileLogConfig;
use crate::config::network_config::NetworkConfig;
use crate::config::proxy_list_config::ProxyListConfig;
use crate::config::tls_fragment_config::TlsFragmentConfig;
use crate::config::users::UsersConfig;
use crate::logger::LogConfig;

verus! {

/// The file that holds the server settings.
pub const MAIN_PATH: &'static str = "resocks5.main.ktav";

/// The port of a fresh installation.
pub const DEFAULT_PORT: u16 = 20082;

/// The access policy.
#[derive(Clone, Copy, Debug, PartialEq, Eq, Structural)]
pub struct AuthConfig {
    /// Whether a client without credentials is accepted. With users
    /// configured it may still authenticate; without any, `false` rejects
    /// every client.
    pub allow_anonymous: bool,
}

/// The default of `allow_anonymous`: without users, no authentication.
pub fn default_allow_anonymous() -> (r: bool)
    ensures
        r == true,
{
    true
}

/// Connections to upstream proxies that are opened ahead of use.
#[derive(Clone, Copy, Debug, PartialEq, Eq, Structural)]
pub struct PoolConfig {
    pub enabled: bool,
    pub spare_per_proxy: usize,
    pub max_session_age_sec: u64,
}

impl Default for PoolConfig {
    fn default() -> (r: Self)
        ensures
            r == (PoolConfig { enabled: false, spare_per_proxy: 1, max_session_age_sec: 30 }),
    {
        PoolConfig { enabled: false, spare_per_proxy: 1, max_session_age_sec: 30 }
    }
}

/// The server settings.
#[derive(Debug)]
pub struct MainConfig {
    pub port: u16,
    /// The interface that the listener binds on.
    pub listen_host: String,
    /// Regular expressions of targets that no client may reach.
    pub banned_patterns: Vec<String>,
    pub auth: AuthConfig,
    pub log: LogConfig,
    pub pool: PoolConfig,
    pub tls_fragment: TlsFragmentConfig,
    pub network: NetworkConfig,
    pub file_log: FileLogConfig,
}

/// The default of `listen_host`: a fresh installation is not exposed to the
/// network.
pub fn default_listen_host() -> (r: String)
    ensures
        r@ == "127.0.0.1"@,
{
    "127.0.0.1".to_owned()
}

/// Whether `r` is what a fresh installation has, with this port and these
/// banned patterns.
pub open spec fn is_default_main(r: MainConfig, port: u16, banned_patterns: Vec<String>) -> bool {
    &&& r.port == port
    &&& r.listen_host@ == "127.0.0.1"@
    &&& r.banned_patterns == banned_patterns
    &&& r.auth == (AuthConfig { allow_anonymous: true })
    &&& r.log == (LogConfig {
        lifecycle: true,
        cache_attempts: false,
        cache_hits: false,
        cache_writes: false,
        proxy_failures: true,
        banned_targets: true,
        connection_errors: true,
        attempts: false,
    })
    &&& r.pool == (PoolConfig { enabled: false, spare_per_proxy: 1, max_session_age_sec: 30 })
    &&& r.tls_fragment == (TlsFragmentConfig { enabled: false, fragment_size: 40, delay_ms: 0 })
    &&& r.network == (NetworkConfig {
        connect_timeout_sec: 10,
        handshake_timeout_sec: 10,
        tunnel_max_lifetime_sec: 1800,
        tcp_keepalive_sec: 60,
        client_protocol_timeout_sec: 30,
        max_concurrent_clients: 1024,
        max_upstream_attempts: 10,
        max_per_upstream: 8,
        tunnel_idle_timeout_sec: 30,
        max_concurrent_direct: 256,
        recover_host_from_payload: true,
    })
    &&& r.file_log.enabled == false
    &&& r.file_log.path@ == "resocks5.log"@
    &&& r.file_log.also_console == true
}

/// The settings of a fresh installation, or of one that is migrated.
pub fn default_main(port: u16, banned_patterns: Vec<String>) -> (r: MainConfig)
    ensures
        is_default_main(r, port, banned_patterns),
{
    MainConfig {
        port,
        listen_host: default_listen_host(),
        banned_patterns,
        auth: AuthConfig { allow_anonymous: default_allow_anonymous() },
        log: LogConfig::default(),
        pool: PoolConfig::default(),
        tls_fragment: TlsFragmentConfig::default(),
        network: NetworkConfig::default(),
        file_log: FileLogConfig::default(),
    }
}

/// All three configurations as loaded at startup.
#[derive(Debug)]
pub struct Configs {
    pub main: MainConfig,
    pub proxy_list: ProxyListConfig,
    pub users: UsersConfig,
}

} // verus!
