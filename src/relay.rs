//! The output relay: turns the worker's output events into log entries, each
//! line tagged with its stream, and one closing entry once both streams end.

use vstd::prelude::*;

use crate::log::{EntryView, LogEntry, Stream};

verus! {

/// What the worker's output pipes deliver.
#[derive(Clone, Debug)]
pub enum RelayEvent {
    /// A complete line read from a stream.
    Line { stream: Stream, text: String },
    /// A stream reached its end.
    Closed { stream: Stream },
}

pub enum EventView {
    Line { stream: Stream, text: Seq<char> },
    Closed { stream: Stream },
}

impl View for RelayEvent {
    type V = EventView;

    open spec fn view(&self) -> EventView {
        match self {
            RelayEvent::Line { stream, text } => EventView::Line { stream: *stream, text: text@ },
            RelayEvent::Closed { stream } => EventView::Closed { stream: *stream },
        }
    }
}

/// Which streams are still open.
pub struct RelayView {
    pub stdout_open: bool,
    pub stderr_open: bool,
}

pub open spec fn relay_start() -> RelayView {
    RelayView { stdout_open: true, stderr_open: true }
}

pub open spec fn is_open(r: RelayView, s: Stream) -> bool {
    match s {
        Stream::Stdout => r.stdout_open,
        Stream::Stderr => r.stderr_open,
    }
}

pub open spec fn is_done(r: RelayView) -> bool {
    !r.stdout_open && !r.stderr_open
}

/// The relay's state after `e`, and the entry it logs for `e`, if any.
pub open spec fn relay_step(r: RelayView, e: EventView) -> (RelayView, Option<EntryView>) {
    match e {
        EventView::Line { stream, text } => if is_open(r, stream) {
            (r, Some(EntryView::Output { stream, text }))
        } else {
            (r, None)
        },
        EventView::Closed { stream } => {
            let next = match stream {
                Stream::Stdout => RelayView { stdout_open: false, ..r },
                Stream::Stderr => RelayView { stderr_open: false, ..r },
            };
            if !is_done(r) && is_done(next) {
                (next, Some(EntryView::RelayClosed))
            } else {
                (next, None)
            }
        },
    }
}

pub open spec fn option_seq(o: Option<EntryView>) -> Seq<EntryView> {
    match o {
        Some(e) => seq![e],
        None => Seq::empty(),
    }
}

/// The entries logged for `evs`, in order, starting from `r`.
pub open spec fn relay_run(r: RelayView, evs: Seq<EventView>) -> Seq<EntryView>
    decreases evs.len(),
{
    if evs.len() == 0 {
        Seq::empty()
    } else {
        let (next, out) = relay_step(r, evs[0]);
        option_seq(out) + relay_run(next, evs.drop_first())
    }
}

/// The relay's state after `evs`, starting from `r`.
pub open spec fn relay_state(r: RelayView, evs: Seq<EventView>) -> RelayView
    decreases evs.len(),
{
    if evs.len() == 0 {
        r
    } else {
        relay_state(relay_step(r, evs[0]).0, evs.drop_first())
    }
}

/// The lines that stream `s` delivered before it closed, in order.
pub open spec fn stream_lines(evs: Seq<EventView>, s: Stream) -> Seq<Seq<char>>
    decreases evs.len(),
{
    if evs.len() == 0 {
        Seq::empty()
    } else {
        match evs[0] {
            EventView::Line { stream, text } => if stream == s {
                seq![text] + stream_lines(evs.drop_first(), s)
            } else {
                stream_lines(evs.drop_first(), s)
            },
            EventView::Closed { stream } => if stream == s {
                Seq::empty()
            } else {
                stream_lines(evs.drop_first(), s)
            },
        }
    }
}

/// The texts of the entries tagged with stream `s`, in order.
pub open spec fn tagged_texts(out: Seq<EntryView>, s: Stream) -> Seq<Seq<char>>
    decreases out.len(),
{
    if out.len() == 0 {
        Seq::empty()
    } else {
        match out[0] {
            EntryView::Output { stream, text } => if stream == s {
                seq![text] + tagged_texts(out.drop_first(), s)
            } else {
                tagged_texts(out.drop_first(), s)
            },
            _ => tagged_texts(out.drop_first(), s),
        }
    }
}

/// Stream `s` closes somewhere in `evs`.
pub open spec fn closes(evs: Seq<EventView>, s: Stream) -> bool {
    exists|i: int| 0 <= i < evs.len() && #[trigger] evs[i] == (EventView::Closed { stream: s })
}

pub open spec fn entry_option_view(o: Option<LogEntry>) -> Option<EntryView> {
    match o {
        Some(e) => Some(e@),
        None => None,
    }
}

proof fn lemma_tagged_texts_concat(a: Seq<EntryView>, b: Seq<EntryView>, s: Stream)
    ensures
        tagged_texts(a + b, s) == tagged_texts(a, s) + tagged_texts(b, s),
    decreases a.len(),
{
    if a.len() == 0 {
        assert(a + b =~= b);
        assert(tagged_texts(a, s) + tagged_texts(b, s) =~= tagged_texts(b, s));
    } else {
        assert((a + b).drop_first() =~= a.drop_first() + b);
        lemma_tagged_texts_concat(a.drop_first(), b, s);
        assert((a + b)[0] == a[0]);
        match a[0] {
            EntryView::Output { stream, text } => {
                if stream == s {
                    assert(seq![text] + (tagged_texts(a.drop_first(), s) + tagged_texts(b, s))
                        =~= (seq![text] + tagged_texts(a.drop_first(), s)) + tagged_texts(b, s));
                }
            },
            _ => {},
        }
    }
}

proof fn lemma_run_tagged(r: RelayView, evs: Seq<EventView>, s: Stream)
    ensures
        is_open(r, s) ==> tagged_texts(relay_run(r, evs), s) == stream_lines(evs, s),
        !is_open(r, s) ==> tagged_texts(relay_run(r, evs), s) == Seq::<Seq<char>>::empty(),
    decreases evs.len(),
{
    if evs.len() > 0 {
        let (next, out) = relay_step(r, evs[0]);
        lemma_run_tagged(next, evs.drop_first(), s);
        lemma_tagged_texts_concat(option_seq(out), relay_run(next, evs.drop_first()), s);
        let head = option_seq(out);
        assert(head.len() == 1 ==> head.drop_first() =~= Seq::<EntryView>::empty());
        assert(tagged_texts(Seq::<EntryView>::empty(), s) == Seq::<Seq<char>>::empty());
        match evs[0] {
            EventView::Line { stream, text } => {
                if stream == s && is_open(r, s) {
                    assert(tagged_texts(head, s) =~= seq![text]);
                } else {
                    assert(tagged_texts(head, s) =~= Seq::<Seq<char>>::empty());
                }
            },
            EventView::Closed { stream } => {
                assert(tagged_texts(head, s) =~= Seq::<Seq<char>>::empty());
            },
        }
        assert(tagged_texts(relay_run(r, evs), s) == tagged_texts(head, s) + tagged_texts(
            relay_run(next, evs.drop_first()),
            s,
        ));
        if is_open(r, s) {
            assert(tagged_texts(relay_run(r, evs), s) =~= stream_lines(evs, s));
        } else {
            assert(tagged_texts(relay_run(r, evs), s) =~= Seq::<Seq<char>>::empty());
        }
    }
}

/// Each stream keeps its order: the entries tagged with a stream are exactly
/// the lines that the stream delivered before it closed, in the order they
/// were delivered, however the two streams interleave.
pub proof fn lemma_relay_keeps_stream_order(evs: Seq<EventView>, s: Stream)
    ensures
        tagged_texts(relay_run(relay_start(), evs), s) == stream_lines(evs, s),
{
    lemma_run_tagged(relay_start(), evs, s);
}

proof fn lemma_done_is_silent(r: RelayView, evs: Seq<EventView>)
    requires
        is_done(r),
    ensures
        relay_run(r, evs) == Seq::<EntryView>::empty(),
        relay_state(r, evs) == r,
    decreases evs.len(),
{
    if evs.len() > 0 {
        let (next, out) = relay_step(r, evs[0]);
        assert(next == r);
        lemma_done_is_silent(next, evs.drop_first());
        assert(relay_run(r, evs) =~= Seq::<EntryView>::empty());
    }
}

proof fn lemma_marker_only_last(r: RelayView, evs: Seq<EventView>)
    ensures
        forall|i: int|
            0 <= i < relay_run(r, evs).len() && #[trigger] relay_run(r, evs)[i] is RelayClosed
                ==> i == relay_run(r, evs).len() - 1,
    decreases evs.len(),
{
    if evs.len() > 0 {
        let (next, out) = relay_step(r, evs[0]);
        let rest = relay_run(next, evs.drop_first());
        lemma_marker_only_last(next, evs.drop_first());
        if out == Some(EntryView::RelayClosed) {
            lemma_done_is_silent(next, evs.drop_first());
        }
        let all = relay_run(r, evs);
        assert(all == option_seq(out) + rest);
        assert forall|i: int| 0 <= i < all.len() && #[trigger] all[i] is RelayClosed implies i == all.len() - 1 by {
            if i >= option_seq(out).len() {
                assert(all[i] == rest[i - option_seq(out).len()]);
            }
        }
    }
}

proof fn lemma_closing_logs_marker(r: RelayView, evs: Seq<EventView>)
    requires
        !is_done(r),
        r.stdout_open ==> closes(evs, Stream::Stdout),
        r.stderr_open ==> closes(evs, Stream::Stderr),
    ensures
        relay_run(r, evs).len() > 0,
        relay_run(r, evs).last() == EntryView::RelayClosed,
        is_done(relay_state(r, evs)),
    decreases evs.len(),
{
    let (next, out) = relay_step(r, evs[0]);
    let tail = evs.drop_first();
    if is_done(next) {
        lemma_done_is_silent(next, tail);
        assert(relay_run(r, evs) =~= seq![EntryView::RelayClosed]);
    } else {
        assert forall|s: Stream| is_open(next, s) implies closes(tail, s) by {
            let i = choose|i: int| 0 <= i < evs.len() && #[trigger] evs[i] == (EventView::Closed { stream: s });
            assert(i != 0);
            assert(tail[i - 1] == evs[i]);
        }
        assert(next.stdout_open ==> is_open(next, Stream::Stdout));
        assert(next.stderr_open ==> is_open(next, Stream::Stderr));
        lemma_closing_logs_marker(next, tail);
        let rest = relay_run(next, tail);
        assert(relay_run(r, evs) == option_seq(out) + rest);
        assert((option_seq(out) + rest).last() == rest.last());
    }
}

/// Once both streams have closed, the log holds exactly one closing entry,
/// it is the last entry, and no later event adds another entry.
pub proof fn lemma_relay_closes_once(evs: Seq<EventView>, later: Seq<EventView>)
    requires
        closes(evs, Stream::Stdout),
        closes(evs, Stream::Stderr),
    ensures
        relay_run(relay_start(), evs).len() > 0,
        relay_run(relay_start(), evs).last() == EntryView::RelayClosed,
        forall|i: int|
            0 <= i < relay_run(relay_start(), evs).len() - 1 ==> !(
            #[trigger] relay_run(relay_start(), evs)[i] is RelayClosed),
        relay_run(relay_state(relay_start(), evs), later) == Seq::<EntryView>::empty(),
{
    lemma_closing_logs_marker(relay_start(), evs);
    lemma_marker_only_last(relay_start(), evs);
    lemma_done_is_silent(relay_state(relay_start(), evs), later);
}

/// Relays the output of one worker process.
pub struct OutputRelay {
    stdout_open: bool,
    stderr_open: bool,
}

impl View for OutputRelay {
    type V = RelayView;

    closed spec fn view(&self) -> RelayView {
        RelayView { stdout_open: self.stdout_open, stderr_open: self.stderr_open }
    }
}

impl OutputRelay {
    /// A relay for a process whose two streams are open.
    pub fn new() -> (r: OutputRelay)
        ensures
            r@ == relay_start(),
    {
        OutputRelay { stdout_open: true, stderr_open: true }
    }

    /// Both streams have ended.
    pub fn is_finished(&self) -> (r: bool)
        ensures
            r == is_done(self@),
    {
        !self.stdout_open && !self.stderr_open
    }

    /// Takes one event and returns the entry to append to the log, if any.
    pub fn on_event(&mut self, event: RelayEvent) -> (r: Option<LogEntry>)
        ensures
            (final(self)@, entry_option_view(r)) == relay_step(old(self)@, event@),
    {
        match event {
            RelayEvent::Line { stream, text } => {
                let open = match stream {
                    Stream::Stdout => self.stdout_open,
                    Stream::Stderr => self.stderr_open,
                };
                if open {
                    Some(LogEntry::Output { stream, text })
                } else {
                    None
                }
            },
            RelayEvent::Closed { stream } => {
                let was_done = !self.stdout_open && !self.stderr_open;
                match stream {
                    Stream::Stdout => self.stdout_open = false,
                    Stream::Stderr => self.stderr_open = false,
                }
                if !was_done && !self.stdout_open && !self.stderr_open {
                    Some(LogEntry::RelayClosed)
                } else {
                    None
                }
            },
        }
    }
}

} // verus!
