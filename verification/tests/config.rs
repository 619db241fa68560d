use resocks5::config::file_log_config::{
    default_also_console, default_enabled, default_path, FileLogConfig,
};
use resocks5::config::load_or_init::{
    init_main, init_proxy_list, init_users, next_load_step, LoadStep, OldMain,
};
use resocks5::config::main_config::{
    default_allow_anonymous, default_listen_host, default_main, PoolConfig, MAIN_PATH,
};
use resocks5::config::network_config::{
    default_client_protocol_timeout, default_connect_timeout, default_handshake_timeout,
    default_max_concurrent_clients, default_max_concurrent_direct, default_max_per_upstream,
    default_max_upstream_attempts, default_recover_host_from_payload, default_tcp_keepalive,
    default_tunnel_idle_timeout, default_tunnel_max_lifetime, NetworkConfig,
};
use resocks5::config::proxy_list_config::{parse_proxy_lines, ProxyListConfig, PROXY_LIST_PATH};
use resocks5::config::tls_fragment_config::TlsFragmentConfig;
use resocks5::config::users::{UsersConfig, USERS_PATH};
use resocks5::logger::LogConfig;

#[test]
fn file_log_config_defaults_are_pinned() {
    let d = FileLogConfig::default();
    assert!(!d.enabled);
    assert_eq!(d.path, "resocks5.log");
    assert!(d.also_console);
}

#[test]
fn file_log_config_serde_field_defaults_match_struct_default() {
    let d = FileLogConfig::default();
    assert_eq!(default_enabled(), d.enabled);
    assert_eq!(default_path(), d.path);
    assert_eq!(default_also_console(), d.also_console);
}

#[test]
fn network_limits_have_pinned_defaults() {
    let d = NetworkConfig::default();
    assert_eq!(d.connect_timeout_sec, 10);
    assert_eq!(d.handshake_timeout_sec, 10);
    assert_eq!(d.tunnel_max_lifetime_sec, 1800);
    assert_eq!(d.tcp_keepalive_sec, 60);
    assert_eq!(d.client_protocol_timeout_sec, 30);
    assert_eq!(d.max_concurrent_clients, 1024);
    assert_eq!(d.max_upstream_attempts, 10);
    assert_eq!(d.max_per_upstream, 8);
    assert_eq!(d.tunnel_idle_timeout_sec, 30);
    assert_eq!(d.max_concurrent_direct, 256);
    assert!(d.recover_host_from_payload);
}

#[test]
fn network_field_defaults_match_the_struct_default() {
    let d = NetworkConfig::default();
    assert_eq!(default_connect_timeout(), d.connect_timeout_sec);
    assert_eq!(default_handshake_timeout(), d.handshake_timeout_sec);
    assert_eq!(default_tunnel_max_lifetime(), d.tunnel_max_lifetime_sec);
    assert_eq!(default_tcp_keepalive(), d.tcp_keepalive_sec);
    assert_eq!(default_client_protocol_timeout(), d.client_protocol_timeout_sec);
    assert_eq!(default_max_concurrent_clients(), d.max_concurrent_clients);
    assert_eq!(default_max_upstream_attempts(), d.max_upstream_attempts);
    assert_eq!(default_max_per_upstream(), d.max_per_upstream);
    assert_eq!(default_tunnel_idle_timeout(), d.tunnel_idle_timeout_sec);
    assert_eq!(default_max_concurrent_direct(), d.max_concurrent_direct);
    assert_eq!(default_recover_host_from_payload(), d.recover_host_from_payload);
}

#[test]
fn other_defaults() {
    assert_eq!(
        LogConfig::default(),
        LogConfig {
            lifecycle: true,
            cache_attempts: false,
            cache_hits: false,
            cache_writes: false,
            proxy_failures: true,
            banned_targets: true,
            connection_errors: true,
            attempts: false,
        }
    );
    let frag = TlsFragmentConfig::default();
    assert_eq!(frag, TlsFragmentConfig { enabled: false, fragment_size: 40, delay_ms: 0 });
    let spec = TlsFragmentConfig { enabled: true, fragment_size: 7, delay_ms: 9 }.to_spec();
    assert!(spec.enabled);
    assert_eq!(spec.fragment_size, 7);
    assert_eq!(spec.delay_ms, 9);
    assert_eq!(
        PoolConfig::default(),
        PoolConfig { enabled: false, spare_per_proxy: 1, max_session_age_sec: 30 }
    );
    assert!(default_allow_anonymous());
    assert_eq!(default_listen_host(), "127.0.0.1");
    assert!(UsersConfig::default().users.is_empty());
    let list = ProxyListConfig::default();
    assert!(list.socks5_v4.is_empty() && list.https_v6.is_empty());
    assert_eq!(MAIN_PATH, "resocks5.main.ktav");
    assert_eq!(PROXY_LIST_PATH, "resocks5.proxy_list.ktav");
    assert_eq!(USERS_PATH, "resocks5.users.ktav");
}

#[test]
fn default_main_keeps_port_and_patterns() {
    let cfg = default_main(12345, vec!["^blocked\\.example$".to_string()]);
    assert_eq!(cfg.port, 12345);
    assert_eq!(cfg.banned_patterns, vec!["^blocked\\.example$".to_string()]);
    assert_eq!(cfg.listen_host, "127.0.0.1");
    assert!(cfg.auth.allow_anonymous);
    assert_eq!(cfg.network, NetworkConfig::default());
    assert_eq!(cfg.file_log.clone().path, "resocks5.log");
}

#[test]
fn files_are_initialized_only_under_the_lock_and_when_absent() {
    assert_eq!(next_load_step(true, false), LoadStep::Read);
    assert_eq!(next_load_step(true, true), LoadStep::Read);
    assert_eq!(next_load_step(false, false), LoadStep::Lock);
    assert_eq!(next_load_step(false, true), LoadStep::Initialize);
}

#[test]
fn first_main_config_is_default_or_migrated() {
    let (cfg, notice) = init_main(None);
    assert_eq!(cfg.port, 20082);
    assert!(cfg.banned_patterns.is_empty());
    assert_eq!(notice, "Creating default resocks5.main.ktav");

    let (cfg, notice) = init_main(Some(OldMain {
        port: 1080,
        banned_patterns: vec!["x".to_string()],
    }));
    assert_eq!(cfg.port, 1080);
    assert_eq!(cfg.banned_patterns, vec!["x".to_string()]);
    assert_eq!(notice, "Migrating resocks5.conf → resocks5.main.ktav");
}

#[test]
fn proxy_lines_skip_blanks_and_comments() {
    let text = "# list\r\nu1:p1@10.0.0.1:1080\r\n\n  u2:p2@10.0.0.2:1080\t\n#x\n \u{a0}\nlast";
    assert_eq!(
        parse_proxy_lines(text),
        vec!["u1:p1@10.0.0.1:1080", "u2:p2@10.0.0.2:1080", "last"]
    );
    assert!(parse_proxy_lines("").is_empty());
    assert!(parse_proxy_lines("\n\n  \n").is_empty());
}

#[test]
fn first_proxy_list_takes_over_plain_lists() {
    let (cfg, notice) = init_proxy_list(None, None);
    assert!(cfg.socks5_v4.is_empty());
    assert_eq!(notice, "Creating empty resocks5.proxy_list.ktav");

    let (cfg, notice) = init_proxy_list(Some("u1:p1@10.0.0.1:1080\nu2:p2@10.0.0.2:1080\n"), None);
    assert_eq!(cfg.socks5_v4.len(), 2);
    assert!(cfg.socks5_v6.is_empty());
    assert!(cfg.http_v4.is_empty());
    assert_eq!(
        notice,
        "Migrated 2 entries (v4) + 0 entries (v6) from .txt → resocks5.proxy_list.ktav"
    );

    let (cfg, _) = init_proxy_list(None, Some("bob:hunter2@[2001:db8::1]:1080\n"));
    assert_eq!(cfg.socks5_v6, vec!["bob:hunter2@[2001:db8::1]:1080".to_string()]);
}

#[test]
fn first_users_file_is_empty() {
    let (cfg, notice) = init_users("resocks5.users.ktav");
    assert!(cfg.users.is_empty());
    assert_eq!(notice, "Creating empty resocks5.users.ktav");
}
