//! Decisions of the live log stream that follows a command run for a subscriber.
//!
//! The stream looks the run up, then alternates between reading new log text from the
//! current byte offset and re-checking the run, until the run is no longer running.
//! The caller performs each read, lookup and pause and hands the outcome back.
use vstd::prelude::*;

use crate::command_runs::Model;
use crate::status::CommandStatus;

verus! {

/// A client's request to follow the log of a command run.
#[derive(Debug)]
pub struct SubscribePayload {
    pub run_id: i32,
}

/// Outcome of looking up a run record.
pub enum Lookup {
    Found(Model),
    Missing,
    Failed,
}

/// An event sent to the subscriber.
pub enum LogEvent {
    /// The `error` event with its message.
    Error(String),
    /// The final `status` event.
    Status { status: String, exit_code: Option<i32> },
    /// A `log` event: new text and the byte offset reached after it.
    Log { data: String, bytes: u64 },
}

/// What the stream does next.
#[derive(PartialEq, Eq, Structural)]
pub enum LogNext {
    /// Read the log from this byte offset.
    ReadTail(u64),
    /// Look the run up again to see whether it is still running.
    CheckRun,
    /// Pause for the poll interval, then read the log from this byte offset.
    SleepThenReadTail(u64),
    /// The stream is over.
    Stop,
}

/// One step of the stream: an optional event to send, then the next operation.
pub struct LogStep {
    pub emit: Option<LogEvent>,
    pub next: LogNext,
}

/// Where the stream stands.
#[derive(PartialEq, Eq, Structural, Clone, Copy)]
pub enum StreamPhase {
    Starting,
    Tailing,
    Checking,
    Done,
}

/// State of one log stream.
pub struct LogStream {
    pub run_id: i32,
    pub offset: u64,
    pub phase: StreamPhase,
}

/// The event carrying a record's final status.
pub open spec fn status_event_of(m: Model, e: LogEvent) -> bool {
    e matches LogEvent::Status { status, exit_code } && status@ == m.status@ && exit_code
        == m.exit_code
}

/// The `error` event with message `msg`.
pub open spec fn error_event_of(msg: Seq<char>, e: LogEvent) -> bool {
    e matches LogEvent::Error(m) && m@ == msg
}

/// The text a log read gave (`None`, a failed read, gives none).
pub open spec fn read_text(read: Option<Seq<char>>) -> Seq<char> {
    match read {
        Some(c) => c,
        None => seq![],
    }
}

/// A read as the stream sees it: the text, when the read succeeded.
pub open spec fn read_view(read: Option<String>) -> Option<Seq<char>> {
    match read {
        Some(c) => Some(c@),
        None => None,
    }
}

/// The `log` event a step sends, as its text and byte offset (`None` when the
/// step sends no `log` event).
pub open spec fn log_event_view(emit: Option<LogEvent>) -> Option<(Seq<char>, int)> {
    match emit {
        Some(LogEvent::Log { data, bytes }) => Some((data@, bytes as int)),
        _ => None,
    }
}

/// Reading `read` at byte offset `offset`: the `log` event sent (new text
/// and the offset after it), and the new offset.
pub open spec fn tail_step(offset: int, read: Option<Seq<char>>) -> (Option<(Seq<char>, int)>, int) {
    match read {
        Some(c) => if c.len() > 0 {
            let o = offset + vstd::utf8::encode_utf8(c).len();
            (Some((c, o)), o)
        } else {
            (None, offset)
        },
        None => (None, offset),
    }
}

/// The `log` events sent and the offset reached when the reads `reads` are
/// handed to the stream in turn from byte offset `offset`.
pub open spec fn tails(offset: int, reads: Seq<Option<Seq<char>>>) -> (Seq<(Seq<char>, int)>, int)
    decreases reads.len(),
{
    if reads.len() == 0 {
        (seq![], offset)
    } else {
        let (e, o) = tail_step(offset, reads[0]);
        let (es, end) = tails(o, reads.drop_first());
        (
            match e {
                Some(x) => seq![x] + es,
                None => es,
            },
            end,
        )
    }
}

/// The texts of some pieces, one after another.
pub open spec fn joined_text(pieces: Seq<Seq<char>>) -> Seq<char>
    decreases pieces.len(),
{
    if pieces.len() == 0 {
        seq![]
    } else {
        pieces[0] + joined_text(pieces.drop_first())
    }
}

/// The UTF-8 bytes of some pieces of text, counted together.
pub open spec fn piece_bytes(pieces: Seq<Seq<char>>) -> int
    decreases pieces.len(),
{
    if pieces.len() == 0 {
        0
    } else {
        vstd::utf8::encode_utf8(pieces[0]).len() + piece_bytes(pieces.drop_first())
    }
}

/// The texts of some `log` events.
pub open spec fn event_texts(events: Seq<(Seq<char>, int)>) -> Seq<Seq<char>> {
    events.map_values(|e: (Seq<char>, int)| e.0)
}

/// The texts of some reads.
pub open spec fn read_texts(reads: Seq<Option<Seq<char>>>) -> Seq<Seq<char>> {
    reads.map_values(|r: Option<Seq<char>>| read_text(r))
}

proof fn lemma_tails(offset: int, reads: Seq<Option<Seq<char>>>)
    ensures
        ({
            let (events, end) = tails(offset, reads);
            &&& joined_text(event_texts(events)) == joined_text(read_texts(reads))
            &&& end == offset + piece_bytes(read_texts(reads))
            &&& forall|i: int| 0 <= i < events.len() ==> (#[trigger] events[i]).1 == offset + piece_bytes(
                event_texts(events).take(i + 1),
            )
        }),
    decreases reads.len(),
{
    if reads.len() > 0 {
        let (e, o) = tail_step(offset, reads[0]);
        let rest = reads.drop_first();
        lemma_tails(o, rest);
        let (es, end) = tails(o, rest);
        let (events, end2) = tails(offset, reads);
        assert(read_texts(reads).drop_first() =~= read_texts(rest));
        assert(read_texts(reads)[0] == read_text(reads[0]));
        match e {
            Some(x) => {
                assert(events == seq![x] + es);
                assert(event_texts(events).drop_first() =~= event_texts(es));
                assert(event_texts(events)[0] == x.0);
                assert forall|i: int| 0 <= i < events.len() implies (#[trigger] events[i]).1 == offset
                    + piece_bytes(event_texts(events).take(i + 1)) by {
                    let t = event_texts(events).take(i + 1);
                    assert(t.drop_first() =~= event_texts(es).take(i));
                    assert(t[0] == x.0);
                    assert(x.1 == o && o == offset + vstd::utf8::encode_utf8(x.0).len());
                    assert(piece_bytes(t) == vstd::utf8::encode_utf8(t[0]).len() + piece_bytes(t.drop_first()));
                    if i > 0 {
                        assert(events[i] == es[i - 1]);
                        assert(es[i - 1].1 == o + piece_bytes(event_texts(es).take(i - 1 + 1)));
                    } else {
                        assert(event_texts(es).take(0) =~= Seq::<Seq<char>>::empty());
                    }
                }
            },
            None => {
                assert(events == es);
                assert(read_text(reads[0]) =~= Seq::<char>::empty());
                assert(vstd::utf8::encode_utf8(read_text(reads[0])) =~= Seq::<u8>::empty());
                assert(joined_text(read_texts(reads)) =~= joined_text(read_texts(rest)));
            },
        }
    }
}

/// Following a log, whole: when the reads `reads` are handed to the stream in
/// turn from byte offset `offset` (see [`LogStream::on_tail`], whose step is
/// [`tail_step`]), the text of the `log` events sent is exactly the text read,
/// in order; the stream ends at `offset` plus the UTF-8 bytes read; and each
/// event carries the offset reached after it: `offset` plus the bytes of the
/// text sent up to and including it.
pub proof fn lemma_stream_sends_what_it_reads(offset: int, reads: Seq<Option<Seq<char>>>)
    ensures
        ({
            let (events, end) = tails(offset, reads);
            &&& joined_text(event_texts(events)) == joined_text(read_texts(reads))
            &&& end == offset + piece_bytes(read_texts(reads))
            &&& forall|i: int| 0 <= i < events.len() ==> (#[trigger] events[i]).1 == offset + piece_bytes(
                event_texts(events).take(i + 1),
            )
        }),
{
    lemma_tails(offset, reads);
}

/// Whether a record is in "running" status.
pub open spec fn record_running(m: Model) -> bool {
    CommandStatus::parsed(m.status@) == CommandStatus::Running
}

impl LogStream {
    /// A fresh stream for `run_id`, at byte offset 0.
    pub fn new(run_id: i32) -> (r: LogStream)
        ensures
            r.run_id == run_id,
            r.offset == 0,
            r.phase == StreamPhase::Starting,
    {
        LogStream { run_id, offset: 0, phase: StreamPhase::Starting }
    }

    /// The first lookup of the run: a missing run or a failed lookup ends the stream
    /// with an error; a finished run ends it with its final status; a running run
    /// starts reading the log from offset 0.
    pub fn on_lookup(&mut self, lookup: Lookup) -> (step: LogStep)
        requires
            old(self).phase == StreamPhase::Starting,
        ensures
            final(self).run_id == old(self).run_id,
            final(self).offset == old(self).offset,
            match lookup {
                Lookup::Missing => step.emit matches Some(e) && error_event_of("Run not found"@, e)
                    && step.next == LogNext::Stop && final(self).phase == StreamPhase::Done,
                Lookup::Failed => step.emit matches Some(e) && error_event_of(
                    "Failed to look up run"@,
                    e,
                ) && step.next == LogNext::Stop && final(self).phase == StreamPhase::Done,
                Lookup::Found(m) => if record_running(m) {
                    step.emit is None && step.next == LogNext::ReadTail(old(self).offset)
                        && final(self).phase == StreamPhase::Tailing
                } else {
                    step.emit matches Some(e) && status_event_of(m, e) && step.next
                        == LogNext::Stop && final(self).phase == StreamPhase::Done
                },
            },
    {
        match lookup {
            Lookup::Missing => {
                self.phase = StreamPhase::Done;
                LogStep { emit: Some(LogEvent::Error("Run not found".to_owned())), next: LogNext::Stop }
            },
            Lookup::Failed => {
                self.phase = StreamPhase::Done;
                LogStep {
                    emit: Some(LogEvent::Error("Failed to look up run".to_owned())),
                    next: LogNext::Stop,
                }
            },
            Lookup::Found(m) => {
                if m.is_running() {
                    self.phase = StreamPhase::Tailing;
                    LogStep { emit: None, next: LogNext::ReadTail(self.offset) }
                } else {
                    self.phase = StreamPhase::Done;
                    LogStep {
                        emit: Some(LogEvent::Status { status: m.status, exit_code: m.exit_code }),
                        next: LogNext::Stop,
                    }
                }
            },
        }
    }

    /// The outcome of a log read (`None` when it failed): new text advances the offset
    /// by its length in bytes and is sent with that offset; then the run is re-checked.
    pub fn on_tail(&mut self, read: Option<String>) -> (step: LogStep)
        requires
            old(self).phase == StreamPhase::Tailing,
            read matches Some(c) ==> old(self).offset + vstd::utf8::encode_utf8(c@).len()
                <= u64::MAX && vstd::utf8::encode_utf8(c@).len() <= usize::MAX,
        ensures
            final(self).run_id == old(self).run_id,
            final(self).phase == StreamPhase::Checking,
            step.next == LogNext::CheckRun,
            match read {
                Some(c) => if c@.len() > 0 {
                    &&& final(self).offset == old(self).offset + vstd::utf8::encode_utf8(c@).len()
                    &&& step.emit matches Some(e)
                    &&& e matches LogEvent::Log { data, bytes }
                    &&& data@ == c@
                    &&& bytes == final(self).offset
                } else {
                    final(self).offset == old(self).offset && step.emit is None
                },
                None => final(self).offset == old(self).offset && step.emit is None,
            },
            (log_event_view(step.emit), final(self).offset as int) == tail_step(old(self).offset as int, read_view(read)),
    {
        self.phase = StreamPhase::Checking;
        match read {
            Some(content) => {
                if !content.as_str().is_empty() {
                    let n = content.as_str().len();
                    self.offset = self.offset + n as u64;
                    LogStep {
                        emit: Some(LogEvent::Log { data: content, bytes: self.offset }),
                        next: LogNext::CheckRun,
                    }
                } else {
                    LogStep { emit: None, next: LogNext::CheckRun }
                }
            },
            None => LogStep { emit: None, next: LogNext::CheckRun },
        }
    }

    /// The outcome of re-checking the run: still running means pause and read on from
    /// the current offset; finished means send its final status and stop; a missing
    /// record or a failed lookup stops the stream.
    pub fn on_check(&mut self, lookup: Lookup) -> (step: LogStep)
        requires
            old(self).phase == StreamPhase::Checking,
        ensures
            final(self).run_id == old(self).run_id,
            final(self).offset == old(self).offset,
            match lookup {
                Lookup::Found(m) => if record_running(m) {
                    step.emit is None && step.next == LogNext::SleepThenReadTail(old(self).offset)
                        && final(self).phase == StreamPhase::Tailing
                } else {
                    step.emit matches Some(e) && status_event_of(m, e) && step.next
                        == LogNext::Stop && final(self).phase == StreamPhase::Done
                },
                _ => step.emit is None && step.next == LogNext::Stop && final(self).phase
                    == StreamPhase::Done,
            },
    {
        match lookup {
            Lookup::Found(m) => {
                if m.is_running() {
                    self.phase = StreamPhase::Tailing;
                    LogStep { emit: None, next: LogNext::SleepThenReadTail(self.offset) }
                } else {
                    self.phase = StreamPhase::Done;
                    LogStep {
                        emit: Some(LogEvent::Status { status: m.status, exit_code: m.exit_code }),
                        next: LogNext::Stop,
                    }
                }
            },
            _ => {
                self.phase = StreamPhase::Done;
                LogStep { emit: None, next: LogNext::Stop }
            },
        }
    }
}

} // verus!
