//! Timeouts, limits and socket options.

use vstd::prelude::*;

verus! {

/// Network-level timeouts and limits. The weights of the upstream rotation are
/// floating-point numbers and kept with the rotation.
#[derive(Clone, Copy, Debug, PartialEq, Eq, Structural)]
pub struct NetworkConfig {
    /// Maximum time for a TCP connect to an upstream proxy.
    pub connect_timeout_sec: u64,
    /// Maximum time for one handshake with an upstream.
    pub handshake_timeout_sec: u64,
    /// Hard cap on the lifetime of a tunnel; 0 disables it.
    pub tunnel_max_lifetime_sec: u64,
    /// TCP keepalive idle interval on every socket; 0 disables it.
    pub tcp_keepalive_sec: u64,
    /// Budget of the whole client-side protocol phase, from the accept on.
    pub client_protocol_timeout_sec: u64,
    /// Maximum number of client tunnels.
    pub max_concurrent_clients: usize,
    /// Maximum number of upstream attempts per client request.
    pub max_upstream_attempts: usize,
    /// Maximum number of connections to one upstream proxy.
    pub max_per_upstream: usize,
    /// Idle timeout of a tunnel; 0 disables it.
    pub tunnel_idle_timeout_sec: u64,
    /// Maximum number of direct tunnels over all users.
    pub max_concurrent_direct: usize,
    /// Whether a host name behind a bare IP target is recovered from the
    /// client's first payload.
    pub recover_host_from_payload: bool,
}

/// The default of `connect_timeout_sec`.
pub fn default_connect_timeout() -> (r: u64)
    ensures
        r == 10,
{
    10
}

/// The default of `handshake_timeout_sec`.
pub fn default_handshake_timeout() -> (r: u64)
    ensures
        r == 10,
{
    10
}

/// The default of `tunnel_max_lifetime_sec`.
pub fn default_tunnel_max_lifetime() -> (r: u64)
    ensures
        r == 1800,
{
    1800
}

/// The default of `tcp_keepalive_sec`.
pub fn default_tcp_keepalive() -> (r: u64)
    ensures
        r == 60,
{
    60
}

/// The default of `client_protocol_timeout_sec`.
pub fn default_client_protocol_timeout() -> (r: u64)
    ensures
        r == 30,
{
    30
}

/// The default of `max_concurrent_clients`.
pub fn default_max_concurrent_clients() -> (r: usize)
    ensures
        r == 1024,
{
    1024
}

/// The default of `max_upstream_attempts`.
pub fn default_max_upstream_attempts() -> (r: usize)
    ensures
        r == 10,
{
    10
}

/// The default of `max_per_upstream`.
pub fn default_max_per_upstream() -> (r: usize)
    ensures
        r == 8,
{
    8
}

/// The default of `tunnel_idle_timeout_sec`.
pub fn default_tunnel_idle_timeout() -> (r: u64)
    ensures
        r == 30,
{
    30
}

/// The default of `max_concurrent_direct`.
pub fn default_max_concurrent_direct() -> (r: usize)
    ensures
        r == 256,
{
    256
}

/// The default of `recover_host_from_payload`.
pub fn default_recover_host_from_payload() -> (r: bool)
    ensures
        r == true,
{
    true
}

impl Default for NetworkConfig {
    fn default() -> (r: Self)
        ensures
            r == (NetworkConfig {
                connect_timeout_sec: 10,
                handshake_timeout_sec: 10,
                tunnel_max_lifetime_sec: 1800,
                tcp_keepalive_sec: 60,
                client_protocol_timeout_sec: 30,
                max_concurrent_clients: 1024,
                max_upstream_attempts: 10,
                max_per_upstream: 8,
                tunnel_idle_timeout_sec: 30,
                max_concurrent_direct: 256,
                recover_host_from_payload: true,
            }),
    {
        NetworkConfig {
            connect_timeout_sec: default_connect_timeout(),
            handshake_timeout_sec: default_handshake_timeout(),
            tunnel_max_lifetime_sec: default_tunnel_max_lifetime(),
            tcp_keepalive_sec: default_tcp_keepalive(),
            client_protocol_timeout_sec: default_client_protocol_timeout(),
            max_concurrent_clients: default_max_concurrent_clients(),
            max_upstream_attempts: default_max_upstream_attempts(),
            max_per_upstream: default_max_per_upstream(),
            tunnel_idle_timeout_sec: default_tunnel_idle_timeout(),
            max_concurrent_direct: default_max_concurrent_direct(),
            recover_host_from_payload: default_recover_host_from_payload(),
        }
    }
}

} // verus!
