//! Three-file configuration: server settings, proxy lists, users.
//!
//! ```text
//! resocks5.main.ktav        port, banned_patterns, auth, log, pool, tls_fragment
//! resocks5.proxy_list.ktav  upstream proxies grouped by transport
//! resocks5.users.ktav       users (managed by the command line)
//! ```
//!
//! Files that do not exist are created on the first launch, from the older
//! layout `resocks5.conf` and `socks5_ipv4_list.txt` / `socks5_ipv6_list.txt`
//! where that is found.

pub mod file_log_config;
pub mod load_or_init;
pub mod main_config;
pub mod network_config;
pub mod proxy_list_config;
pub mod tls_fragment_config;
pub mod users;
pub mod users_file;
pub mod wide_path;
