use sidecar_launcher::log::{decimal_string, LogEntry, Stream};

#[test]
fn decimal_of_edge_values() {
    assert_eq!(decimal_string(0), "0");
    assert_eq!(decimal_string(9), "9");
    assert_eq!(decimal_string(10), "10");
    assert_eq!(decimal_string(12345), "12345");
    assert_eq!(decimal_string(u32::MAX), "4294967295");
}

#[test]
fn entries_render_with_their_tags() {
    let out = LogEntry::Output { stream: Stream::Stdout, text: "ready".to_string() };
    let err = LogEntry::Output { stream: Stream::Stderr, text: "oops".to_string() };
    assert_eq!(out.render(), "[PY STDOUT] ready");
    assert_eq!(err.render(), "[PY STDERR] oops");
    assert_eq!(LogEntry::RelayClosed.render(), "Sidecar channel closed.");
    let spawned = LogEntry::Spawned { command: "w".to_string(), pid: 0 };
    assert_eq!(spawned.render(), "w spawned with PID: 0");
    let failed = LogEntry::SpawnFailed { command: "w".to_string(), reason: String::new() };
    assert_eq!(failed.render(), "w failed to start: ");
}
