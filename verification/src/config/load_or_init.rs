//! What to load, and what to put into files that do not exist yet.

use vstd::prelude::*;

use crate::config::main_config::{default_main, is_default_main, MainConfig, DEFAULT_PORT};
use crate::config::proxy_list_config::{parse_proxy_lines, proxy_entries, texts, ProxyListConfig};
use crate::config::users::{UserView, UsersConfig};
use crate::text::{decimal, join, number_text};

verus! {

/// The server settings of the older layout.
pub const OLD_MAIN_PATH: &'static str = "resocks5.conf";

/// The IPv4 proxies of the older layout.
pub const OLD_SOCKS5_V4_PATH: &'static str = "socks5_ipv4_list.txt";

/// The IPv6 proxies of the older layout.
pub const OLD_SOCKS5_V6_PATH: &'static str = "socks5_ipv6_list.txt";

/// What to do about one configuration file.
#[derive(Clone, Copy, Debug, PartialEq, Eq, Structural)]
pub enum LoadStep {
    /// Read the file.
    Read,
    /// Take the lock of the file, then look again.
    Lock,
    /// Write the file for the first time.
    Initialize,
}

/// What to do about a file that exists or not, with its lock held or not.
pub open spec fn load_step(exists: bool, locked: bool) -> LoadStep {
    if exists {
        LoadStep::Read
    } else if !locked {
        LoadStep::Lock
    } else {
        LoadStep::Initialize
    }
}

/// Decides what to do about a file. An existing file is read without waiting
/// for a writer; a missing one is looked for once more under the lock.
pub fn next_load_step(exists: bool, locked: bool) -> (r: LoadStep)
    ensures
        r == load_step(exists, locked),
{
    if exists {
        LoadStep::Read
    } else if !locked {
        LoadStep::Lock
    } else {
        LoadStep::Initialize
    }
}

/// A file is only written at startup under its lock, and never when it is
/// there already.
pub proof fn initialization_needs_lock_and_absence(exists: bool, locked: bool)
    requires
        load_step(exists, locked) == LoadStep::Initialize,
    ensures
        locked,
        !exists,
{
}

/// What is kept of the server settings of the older layout.
#[derive(Debug)]
pub struct OldMain {
    pub port: u16,
    pub banned_patterns: Vec<String>,
}

/// The first server settings and the notice about them.
pub fn init_main(former: Option<OldMain>) -> (r: (MainConfig, String))
    ensures
        match former {
            Some(m) => is_default_main(r.0, m.port, m.banned_patterns) && r.1@
                == "Migrating resocks5.conf → resocks5.main.ktav"@,
            None => {
                &&& r.1@ == "Creating default resocks5.main.ktav"@
                &&& is_default_main(r.0, DEFAULT_PORT, r.0.banned_patterns)
                &&& r.0.banned_patterns@.len() == 0
            },
        },
{
    match former {
        Some(m) => {
            let notice = "Migrating resocks5.conf → resocks5.main.ktav".to_owned();
            (default_main(m.port, m.banned_patterns), notice)
        },
        None => {
            let no_patterns: Vec<String> = Vec::new();
            let notice = "Creating default resocks5.main.ktav".to_owned();
            (default_main(DEFAULT_PORT, no_patterns), notice)
        },
    }
}

/// The entries of an optional plain proxy list.
pub open spec fn optional_entries(list: Option<&str>) -> Seq<Seq<char>> {
    match list {
        Some(text) => proxy_entries(text@),
        None => seq![],
    }
}

/// The first proxy list, taken from the plain lists of the older layout where
/// they exist, and the notice about it.
pub fn init_proxy_list(v4: Option<&str>, v6: Option<&str>) -> (r: (ProxyListConfig, String))
    ensures
        texts(r.0.socks5_v4@) == optional_entries(v4),
        texts(r.0.socks5_v6@) == optional_entries(v6),
        r.0.http_v4@.len() == 0,
        r.0.http_v6@.len() == 0,
        r.0.https_v4@.len() == 0,
        r.0.https_v6@.len() == 0,
        v4 is None && v6 is None ==> r.1@ == "Creating empty resocks5.proxy_list.ktav"@,
        v4 is Some || v6 is Some ==> r.1@ == "Migrated "@ + number_text(
            optional_entries(v4).len(),
            10,
        ) + " entries (v4) + "@ + number_text(optional_entries(v6).len(), 10)
            + " entries (v6) from .txt → resocks5.proxy_list.ktav"@,
{
    let mut cfg = ProxyListConfig::default();
    assert(texts(cfg.socks5_v4@) =~= seq![]);
    assert(texts(cfg.socks5_v6@) =~= seq![]);
    let mut migrated = false;
    if let Some(text) = v4 {
        cfg.socks5_v4 = parse_proxy_lines(text);
        migrated = true;
    }
    if let Some(text) = v6 {
        cfg.socks5_v6 = parse_proxy_lines(text);
        migrated = true;
    }
    if !migrated {
        return (cfg, "Creating empty resocks5.proxy_list.ktav".to_owned());
    }
    assert(texts(cfg.socks5_v4@).len() == cfg.socks5_v4@.len());
    assert(texts(cfg.socks5_v6@).len() == cfg.socks5_v6@.len());
    let n4 = decimal(cfg.socks5_v4.len() as u64);
    let n6 = decimal(cfg.socks5_v6.len() as u64);
    let start = join(&join("Migrated ", &n4), " entries (v4) + ");
    let notice = join(
        &join(&start, &n6),
        " entries (v6) from .txt → resocks5.proxy_list.ktav",
    );
    (cfg, notice)
}

/// The first users file and the notice about it.
pub fn init_users(path: &str) -> (r: (UsersConfig, String))
    ensures
        r.0@ == Seq::<UserView>::empty(),
        r.1@ == "Creating empty "@ + path@,
{
    (UsersConfig::default(), join("Creating empty ", path))
}

/// A list of the older layout is taken over whole, and a missing one gives
/// nothing.
pub proof fn older_list_is_taken_over_whole(text: &str)
    ensures
        optional_entries(Some(text)) == proxy_entries(text@),
        optional_entries(None) == Seq::<Seq<char>>::empty(),
{
}

/// The first server settings listen on the own machine alone, let clients in
/// without credentials, and keep the port and the banned patterns.
pub proof fn fresh_settings_are_not_exposed(
    cfg: MainConfig,
    port: u16,
    banned_patterns: Vec<String>,
)
    requires
        is_default_main(cfg, port, banned_patterns),
    ensures
        cfg.port == port,
        cfg.banned_patterns@ == banned_patterns@,
        cfg.listen_host@ == "127.0.0.1"@,
        cfg.auth.allow_anonymous,
        !cfg.pool.enabled,
        !cfg.tls_fragment.enabled,
        !cfg.file_log.enabled,
{
}

} // verus!
