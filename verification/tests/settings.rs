use clipshare::api::entries_url;
use clipshare::config::{
    load_daemon_config, resolve_hostname, ConfigOverrides, DaemonConfig, DEFAULT_POLL_INTERVAL_MS,
};
use clipshare::text::{bytes_eq, decimal, digit_str, starts_with, str_eq};

fn some(text: &str) -> Option<String> {
    Some(text.to_string())
}

#[test]
fn defaults_name_the_local_server() {
    let config = DaemonConfig::defaults();
    assert_eq!(config.server_url, "https://localhost:8443");
    assert_eq!(config.poll_interval_ms, 1000);
    assert_eq!(DEFAULT_POLL_INTERVAL_MS, 1000);
    assert_eq!(config.hostname, "");
    assert!(!config.verify_ssl);
}

#[test]
fn overrides_replace_what_they_name() {
    let overrides = ConfigOverrides {
        server_url: some("https://clips.example:9443"),
        poll_interval_ms: None,
        hostname: None,
        verify_ssl: Some(true),
    };
    let config = DaemonConfig::defaults().apply(overrides);
    assert_eq!(config.server_url, "https://clips.example:9443");
    assert_eq!(config.poll_interval_ms, 1000);
    assert_eq!(config.hostname, "");
    assert!(config.verify_ssl);
    let all = ConfigOverrides {
        server_url: some("http://a"),
        poll_interval_ms: Some(250),
        hostname: some("desk"),
        verify_ssl: Some(false),
    };
    let config = config.apply(all);
    assert_eq!(config.server_url, "http://a");
    assert_eq!(config.poll_interval_ms, 250);
    assert_eq!(config.hostname, "desk");
    assert!(!config.verify_ssl);
}

#[test]
fn hostname_comes_from_the_first_source_that_has_one() {
    assert_eq!(resolve_hostname("desk".to_string(), some("env"), some("os")), "desk");
    assert_eq!(resolve_hostname(String::new(), some("env"), some("os")), "env");
    assert_eq!(resolve_hostname(String::new(), None, some("os")), "os");
    assert_eq!(resolve_hostname(String::new(), None, None), "unknown");
    // Only an empty configured name falls through; an empty name from the
    // environment is taken as it is.
    assert_eq!(resolve_hostname(String::new(), some(""), some("os")), "");
    assert_eq!(resolve_hostname(" ".to_string(), some("env"), None), " ");
}

#[test]
fn load_without_a_file_gives_the_defaults_with_a_hostname() {
    let config = load_daemon_config(None, None, some("laptop"));
    assert_eq!(config.server_url, "https://localhost:8443");
    assert_eq!(config.poll_interval_ms, 1000);
    assert_eq!(config.hostname, "laptop");
    assert!(!config.verify_ssl);
    assert_eq!(load_daemon_config(None, None, None).hostname, "unknown");
}

#[test]
fn load_with_a_file_overrides_the_defaults() {
    let file = ConfigOverrides {
        server_url: None,
        poll_interval_ms: Some(2500),
        hostname: some("desk"),
        verify_ssl: None,
    };
    let config = load_daemon_config(Some(file), some("env"), some("os"));
    assert_eq!(config.server_url, "https://localhost:8443");
    assert_eq!(config.poll_interval_ms, 2500);
    assert_eq!(config.hostname, "desk");
    let file = ConfigOverrides {
        server_url: some("https://x"),
        poll_interval_ms: None,
        hostname: some(""),
        verify_ssl: Some(true),
    };
    let config = load_daemon_config(Some(file), some("env"), some("os"));
    assert_eq!(config.server_url, "https://x");
    assert_eq!(config.hostname, "env");
    assert!(config.verify_ssl);
}

#[test]
fn entries_url_appends_the_path_once() {
    assert_eq!(entries_url("https://localhost:8443"), "https://localhost:8443/api/entries");
    assert_eq!(entries_url("https://localhost:8443/"), "https://localhost:8443/api/entries");
    assert_eq!(entries_url("https://localhost:8443///"), "https://localhost:8443/api/entries");
    assert_eq!(entries_url("http://h/base/"), "http://h/base/api/entries");
    assert_eq!(entries_url(""), "/api/entries");
    assert_eq!(entries_url("///"), "/api/entries");
    assert_eq!(entries_url("https://h\u{e9}/"), "https://h\u{e9}/api/entries");
}

#[test]
fn decimal_writes_numbers_without_leading_zeros() {
    assert_eq!(decimal(0), "0");
    assert_eq!(decimal(7), "7");
    assert_eq!(decimal(10), "10");
    assert_eq!(decimal(8443), "8443");
    assert_eq!(decimal(9000), "9000");
    assert_eq!(decimal(1_000_000), "1000000");
    assert_eq!(decimal(u64::MAX), "18446744073709551615");
}

#[test]
fn digits_run_from_zero_to_f() {
    let digits: Vec<&str> = (0u8..16).map(digit_str).collect();
    assert_eq!(digits.concat(), "0123456789abcdef");
}

#[test]
fn string_comparisons_are_exact() {
    assert!(str_eq("clipshare", "clipshare"));
    assert!(!str_eq("clipshare", "Clipshare"));
    assert!(!str_eq("clipshare", "clipshar"));
    assert!(str_eq("", ""));
    assert!(str_eq("h\u{e9}", "h\u{e9}"));
    assert!(!str_eq("h\u{e9}", "he"));
    assert!(bytes_eq(b"abc", b"abc"));
    assert!(!bytes_eq(b"abc", b"abd"));
    assert!(!bytes_eq(b"abc", b"ab"));
    assert!(bytes_eq(b"", b""));
}

#[test]
fn starts_with_looks_at_characters() {
    assert!(starts_with("text/plain", "text/"));
    assert!(starts_with("text/", "text/"));
    assert!(starts_with("anything", ""));
    assert!(!starts_with("text", "text/"));
    assert!(!starts_with("image/png", "text/"));
    assert!(!starts_with("", "t"));
    assert!(starts_with("\u{e9}t\u{e9}", "\u{e9}t"));
    assert!(!starts_with("\u{e9}t\u{e9}", "et"));
}
