//! Log entries that the launcher and the output relay produce, and their
//! rendering as lines of the diagnostic log.

use vstd::prelude::*;
use vstd::string::StringExecFns;

verus! {

/// One of the two output streams of the worker process.
#[derive(Clone, Copy, Debug, PartialEq, Eq, Structural)]
pub enum Stream {
    Stdout,
    Stderr,
}

/// An entry of the diagnostic log.
#[derive(Clone, Debug)]
pub enum LogEntry {
    /// A strategy did not start a process; `command` describes the strategy.
    SpawnFailed { command: String, reason: String },
    /// A strategy started the worker process.
    Spawned { command: String, pid: u32 },
    /// One line that the worker wrote to one of its streams.
    Output { stream: Stream, text: String },
    /// Both output streams of the worker have closed.
    RelayClosed,
}

/// What a log entry says, over plain values.
pub enum EntryView {
    SpawnFailed { command: Seq<char>, reason: Seq<char> },
    Spawned { command: Seq<char>, pid: u32 },
    Output { stream: Stream, text: Seq<char> },
    RelayClosed,
}

impl View for LogEntry {
    type V = EntryView;

    open spec fn view(&self) -> EntryView {
        match self {
            LogEntry::SpawnFailed { command, reason } => EntryView::SpawnFailed {
                command: command@,
                reason: reason@,
            },
            LogEntry::Spawned { command, pid } => EntryView::Spawned { command: command@, pid: *pid },
            LogEntry::Output { stream, text } => EntryView::Output { stream: *stream, text: text@ },
            LogEntry::RelayClosed => EntryView::RelayClosed,
        }
    }
}

/// The literal that opens every line relayed from the given stream.
pub open spec fn stream_prefix(stream: Stream) -> Seq<char> {
    match stream {
        Stream::Stdout => "[PY STDOUT] "@,
        Stream::Stderr => "[PY STDERR] "@,
    }
}

/// The last line that the relay writes.
pub open spec fn closed_marker() -> Seq<char> {
    "Sidecar channel closed."@
}

pub open spec fn digit_char(d: nat) -> char {
    if d == 0 { '0' } else if d == 1 { '1' } else if d == 2 { '2' } else if d == 3 { '3' }
    else if d == 4 { '4' } else if d == 5 { '5' } else if d == 6 { '6' } else if d == 7 { '7' }
    else if d == 8 { '8' } else { '9' }
}

/// The decimal digits of `n`, most significant first, with no leading zero.
pub open spec fn decimal(n: nat) -> Seq<char>
    decreases n,
{
    if n < 10 {
        seq![digit_char(n)]
    } else {
        decimal(n / 10).push(digit_char(n % 10))
    }
}

/// The text of the log line for an entry.
pub open spec fn render_spec(e: EntryView) -> Seq<char> {
    match e {
        EntryView::SpawnFailed { command, reason } => command + " failed to start: "@ + reason,
        EntryView::Spawned { command, pid } => command + " spawned with PID: "@ + decimal(pid as nat),
        EntryView::Output { stream, text } => stream_prefix(stream) + text,
        EntryView::RelayClosed => closed_marker(),
    }
}

fn digit_str(d: u32) -> (r: &'static str)
    requires
        d < 10,
    ensures
        r@ == seq![digit_char(d as nat)],
{
    proof {
        reveal_strlit("0");
        reveal_strlit("1");
        reveal_strlit("2");
        reveal_strlit("3");
        reveal_strlit("4");
        reveal_strlit("5");
        reveal_strlit("6");
        reveal_strlit("7");
        reveal_strlit("8");
        reveal_strlit("9");
    }
    match d {
        0 => "0",
        1 => "1",
        2 => "2",
        3 => "3",
        4 => "4",
        5 => "5",
        6 => "6",
        7 => "7",
        8 => "8",
        _ => "9",
    }
}

/// Writes `n` in decimal.
pub fn decimal_string(n: u32) -> (r: String)
    ensures
        r@ == decimal(n as nat),
    decreases n,
{
    if n < 10 {
        let r = String::from_str(digit_str(n));
        proof {
            assert(r@ =~= decimal(n as nat));
        }
        r
    } else {
        let mut r = decimal_string(n / 10);
        r.append(digit_str(n % 10));
        proof {
            assert(r@ =~= decimal(n as nat));
        }
        r
    }
}

impl LogEntry {
    /// The line that this entry adds to the log.
    pub fn render(&self) -> (r: String)
        ensures
            r@ == render_spec(self@),
    {
        match self {
            LogEntry::SpawnFailed { command, reason } => {
                let mut r = command.clone();
                r.append(" failed to start: ");
                r.append(reason.as_str());
                r
            },
            LogEntry::Spawned { command, pid } => {
                let mut r = command.clone();
                r.append(" spawned with PID: ");
                let digits = decimal_string(*pid);
                r.append(digits.as_str());
                r
            },
            LogEntry::Output { stream, text } => {
                let mut r = match stream {
                    Stream::Stdout => String::from_str("[PY STDOUT] "),
                    Stream::Stderr => String::from_str("[PY STDERR] "),
                };
                r.append(text.as_str());
                r
            },
            LogEntry::RelayClosed => String::from_str("Sidecar channel closed."),
        }
    }
}

} // verus!
