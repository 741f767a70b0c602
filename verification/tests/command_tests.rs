use russh_core::command::{get_parent_path, shell_escape, CommandResult};
use russh_core::conn_manager::ConnectionManagerBuilder;

#[test]
fn command_result_success() {
    let ok = CommandResult { stdout: b"out".to_vec(), stderr: Vec::new(), exit_code: 0 };
    assert!(ok.success());
    assert_eq!(ok.stdout_string(), "out");
    assert_eq!(ok.stderr_string(), "");

    let failed = CommandResult { stdout: Vec::new(), stderr: b"err".to_vec(), exit_code: 1 };
    assert!(!failed.success());
    assert_eq!(failed.stderr_string(), "err");
}

#[test]
fn shell_escape_quotes() {
    assert_eq!(shell_escape("plain"), "'plain'");
    assert_eq!(shell_escape(""), "''");
    assert_eq!(shell_escape("it's"), "'it'\\''s'");
    assert_eq!(shell_escape("two 'quoted' words"), "'two '\\''quoted'\\'' words'");
}

#[test]
fn parent_path_cases() {
    assert_eq!(get_parent_path("/a/b/c"), "/a/b");
    assert_eq!(get_parent_path("/a/b/"), "/a");
    assert_eq!(get_parent_path("/a"), "/");
    assert_eq!(get_parent_path("/"), "/");
    assert_eq!(get_parent_path(""), "/");
    assert_eq!(get_parent_path("name"), "/");
}

#[test]
fn connection_manager_builder() {
    let config = ConnectionManagerBuilder::new("example.com".to_string(), 2222)
        .timeout(45_000)
        .keepalive_interval(30_000)
        .max_reconnect_attempts(7)
        .reconnect_base_delay(2_000)
        .build();

    assert_eq!(config.host, "example.com");
    assert_eq!(config.port, 2222);
    assert_eq!(config.timeout_ms, 45_000);
    assert_eq!(config.keepalive_interval_ms, 30_000);
    assert_eq!(config.max_reconnect_attempts, 7);
    assert_eq!(config.reconnect_base_delay_ms, 2_000);
}
