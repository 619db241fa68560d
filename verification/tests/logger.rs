use std::cell::Cell;

use resocks5::logger::log::{control, escape_controls};
use resocks5::logger::log_config::LogKind;
use resocks5::logger::{ELog, LogConfig, Logger};

fn all_off() -> LogConfig {
    LogConfig {
        lifecycle: false,
        cache_attempts: false,
        cache_hits: false,
        cache_writes: false,
        proxy_failures: false,
        banned_targets: false,
        connection_errors: false,
        attempts: false,
    }
}

fn all_on() -> LogConfig {
    LogConfig {
        lifecycle: true,
        cache_attempts: true,
        cache_hits: true,
        cache_writes: true,
        proxy_failures: true,
        banned_targets: true,
        connection_errors: true,
        attempts: true,
    }
}

#[test]
fn full_queue_does_not_format_dropped_entries() {
    let log = Logger::new(all_on());
    // A queue with one slot: the first line takes it.
    assert!(log.lifecycle(true, || "first".to_owned()).is_some());
    let formatted = Cell::new(false);
    let dropped = log.connection_error(false, || {
        formatted.set(true);
        "discarded".to_owned()
    });
    assert!(dropped.is_none());
    assert!(!formatted.get());
}

#[test]
fn closure_never_called_when_flag_is_off() {
    let log = Logger::new(all_off());

    let called = Cell::new(false);
    log.lifecycle(true, || {
        called.set(true);
        "x".to_string()
    });
    assert!(!called.get(), "lifecycle off → closure must not run");

    let called = Cell::new(false);
    log.cache_hit(true, || {
        called.set(true);
        "x".to_string()
    });
    assert!(!called.get(), "cache_hits off → closure must not run");

    let called = Cell::new(false);
    log.connection_error(true, || {
        called.set(true);
        "x".to_string()
    });
    assert!(!called.get(), "connection_errors off → closure must not run");
}

#[test]
fn control_characters_cannot_forge_log_records() {
    let log = Logger::new(all_on());
    let Some(ELog::Error(message)) =
        log.connection_error(true, || "данные\nforged\r\u{1b}[2J".to_owned())
    else {
        panic!("expected an error record");
    };
    assert!(!message.chars().any(char::is_control));
    assert!(message.starts_with("данные\\nforged\\r"));
}

#[test]
fn enabled_flags_route_to_correct_variant() {
    let log = Logger::new(all_on());
    let info = [
        log.lifecycle(true, || "info-1".to_string()),
        log.cache_hit(true, || "info-2".to_string()),
        log.cache_attempt(true, || "info-3".to_string()),
        log.cache_write(true, || "info-4".to_string()),
        log.attempt(true, || "info-5".to_string()),
    ];
    for (i, e) in info.into_iter().enumerate() {
        let Some(ELog::Log(text)) = e else {
            panic!("expected a plain record");
        };
        assert_eq!(text, format!("info-{}", i + 1));
    }
    let errors = [
        log.connection_error(true, || "err-1".to_string()),
        log.banned_target(true, || "err-2".to_string()),
        log.proxy_failure(true, || "err-3".to_string()),
    ];
    for (i, e) in errors.into_iter().enumerate() {
        let Some(ELog::Error(text)) = e else {
            panic!("expected an error record");
        };
        assert_eq!(text, format!("err-{}", i + 1));
    }
}

#[test]
fn each_flag_switches_its_own_kind() {
    let kinds = [
        LogKind::Lifecycle,
        LogKind::CacheAttempt,
        LogKind::CacheHit,
        LogKind::CacheWrite,
        LogKind::ProxyFailure,
        LogKind::BannedTarget,
        LogKind::ConnectionError,
        LogKind::Attempt,
    ];
    for on in 0..kinds.len() {
        let mut cfg = all_off();
        match on {
            0 => cfg.lifecycle = true,
            1 => cfg.cache_attempts = true,
            2 => cfg.cache_hits = true,
            3 => cfg.cache_writes = true,
            4 => cfg.proxy_failures = true,
            5 => cfg.banned_targets = true,
            6 => cfg.connection_errors = true,
            _ => cfg.attempts = true,
        }
        let log = Logger::new(cfg);
        for (i, kind) in kinds.iter().enumerate() {
            assert_eq!(log.wants(*kind), i == on);
            assert_eq!(log.send(*kind, true, || String::new()).is_some(), i == on);
        }
    }
}

#[test]
fn escapes_are_those_of_escape_default() {
    for n in 0..=0x10ffffu32 {
        let Some(c) = char::from_u32(n) else { continue };
        assert_eq!(control(c), c.is_control());
    }
    for n in 0..0x200u32 {
        let c = char::from_u32(n).unwrap();
        let expected: String = if c.is_control() {
            c.escape_default().collect()
        } else {
            c.to_string()
        };
        assert_eq!(escape_controls(&c.to_string()), expected);
    }
    assert_eq!(escape_controls("plain \\ 'text' é"), "plain \\ 'text' é");
    assert_eq!(escape_controls("a\tb\u{85}c"), "a\\tb\\u{85}c");
    assert_eq!(escape_controls(""), "");
}
