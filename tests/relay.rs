use sidecar_launcher::log::{LogEntry, Stream};
use sidecar_launcher::relay::{OutputRelay, RelayEvent};

fn line(stream: Stream, text: &str) -> RelayEvent {
    RelayEvent::Line { stream, text: text.to_string() }
}

fn run(relay: &mut OutputRelay, events: Vec<RelayEvent>) -> Vec<String> {
    let mut sink = Vec::new();
    for e in events {
        if let Some(entry) = relay.on_event(e) {
            sink.push(entry.render());
        }
    }
    sink
}

#[test]
fn stdout_lines_keep_their_order() {
    let mut r = OutputRelay::new();
    let sink = run(
        &mut r,
        vec![line(Stream::Stdout, "A"), line(Stream::Stdout, "B"), RelayEvent::Closed { stream: Stream::Stdout }],
    );
    assert_eq!(sink, vec!["[PY STDOUT] A", "[PY STDOUT] B"]);
    assert!(!r.is_finished());
}

#[test]
fn interleaved_streams_keep_each_order() {
    let mut r = OutputRelay::new();
    let sink = run(
        &mut r,
        vec![
            line(Stream::Stdout, "o1"),
            line(Stream::Stderr, "e1"),
            line(Stream::Stderr, "e2"),
            line(Stream::Stdout, "o2"),
            line(Stream::Stdout, "o3"),
            line(Stream::Stderr, "e3"),
        ],
    );
    let out: Vec<&String> = sink.iter().filter(|l| l.starts_with("[PY STDOUT] ")).collect();
    let err: Vec<&String> = sink.iter().filter(|l| l.starts_with("[PY STDERR] ")).collect();
    assert_eq!(out, vec!["[PY STDOUT] o1", "[PY STDOUT] o2", "[PY STDOUT] o3"]);
    assert_eq!(err, vec!["[PY STDERR] e1", "[PY STDERR] e2", "[PY STDERR] e3"]);
}

#[test]
fn closing_both_streams_logs_one_marker_last() {
    let mut r = OutputRelay::new();
    let sink = run(
        &mut r,
        vec![
            line(Stream::Stderr, "warn"),
            RelayEvent::Closed { stream: Stream::Stderr },
            line(Stream::Stdout, "done"),
            RelayEvent::Closed { stream: Stream::Stdout },
        ],
    );
    assert_eq!(sink, vec!["[PY STDERR] warn", "[PY STDOUT] done", "Sidecar channel closed."]);
    assert!(r.is_finished());
    let after = run(
        &mut r,
        vec![line(Stream::Stdout, "late"), RelayEvent::Closed { stream: Stream::Stdout }],
    );
    assert!(after.is_empty());
}

#[test]
fn lines_after_a_stream_closes_are_dropped() {
    let mut r = OutputRelay::new();
    let sink = run(
        &mut r,
        vec![
            RelayEvent::Closed { stream: Stream::Stdout },
            line(Stream::Stdout, "stray"),
            line(Stream::Stderr, "still here"),
        ],
    );
    assert_eq!(sink, vec!["[PY STDERR] still here"]);
}

#[test]
fn repeated_close_logs_nothing_more() {
    let mut r = OutputRelay::new();
    assert!(r.on_event(RelayEvent::Closed { stream: Stream::Stdout }).is_none());
    assert!(r.on_event(RelayEvent::Closed { stream: Stream::Stdout }).is_none());
    assert!(matches!(
        r.on_event(RelayEvent::Closed { stream: Stream::Stderr }),
        Some(LogEntry::RelayClosed)
    ));
    assert!(r.on_event(RelayEvent::Closed { stream: Stream::Stderr }).is_none());
}
