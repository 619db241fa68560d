//! Fragmentation of outgoing TLS ClientHello records.

use vstd::prelude::*;

verus! {

/// Whether and how a TLS ClientHello is split into small TCP segments, so that
/// a stateless inspector cannot read the server name from a single one.
#[derive(Clone, Copy, Debug, PartialEq, Eq, Structural)]
pub struct TlsFragmentConfig {
    /// When false all traffic is forwarded as it is.
    pub enabled: bool,
    /// Bytes per fragment.
    pub fragment_size: usize,
    /// Milliseconds between two fragments; zero sends them back to back.
    pub delay_ms: u64,
}

/// What a sender of fragments has to know.
#[derive(Clone, Copy, Debug, PartialEq, Eq, Structural)]
pub struct FragmentSpec {
    pub enabled: bool,
    pub fragment_size: usize,
    pub delay_ms: u64,
}

impl Default for TlsFragmentConfig {
    fn default() -> (r: Self)
        ensures
            r == (TlsFragmentConfig { enabled: false, fragment_size: 40, delay_ms: 0 }),
    {
        TlsFragmentConfig { enabled: false, fragment_size: 40, delay_ms: 0 }
    }
}

impl TlsFragmentConfig {
    /// The sender's view of this configuration.
    pub fn to_spec(&self) -> (r: FragmentSpec)
        ensures
            r.enabled == self.enabled,
            r.fragment_size == self.fragment_size,
            r.delay_ms == self.delay_ms,
    {
        FragmentSpec {
            enabled: self.enabled,
            fragment_size: self.fragment_size,
            delay_ms: self.delay_ms,
        }
    }
}

} // verus!
