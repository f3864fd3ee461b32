//! The output reader's policy: the child's output lines become log records.
//!
//! The reader owns the child process's output stream and loops for the
//! program's lifetime: each successfully read, non-empty line becomes one
//! info-level record holding the line verbatim; an empty read produces
//! nothing; a failed read becomes one error-level record and the loop goes
//! on. `records_for` states the whole policy over a sequence of read
//! events, and `lemma_reader_mirrors_lines` is the law that complete lines
//! are mirrored one for one, in order.

use vstd::prelude::*;

verus! {

/// Severity of a structured log record.
#[derive(Clone, Copy, Debug, PartialEq, Eq, Structural)]
pub enum LogLevel {
    Info,
    Error,
}

/// One single-line structured log record: severity and message text.
/// The source tag and the formatting of the emitted line belong to the
/// log sink, not to this policy.
pub struct LogRecord {
    pub level: LogLevel,
    pub message: String,
}

/// One blocking read from the child's output stream, as the reader sees it.
pub enum ReadEvent {
    /// The read succeeded; the text is empty at end of stream.
    Line(String),
    /// The read failed; the text describes the error.
    Failed(String),
}

/// The record the reader's policy emits for one event, as severity and
/// message text, or `None` where the event produces no record.
pub open spec fn record_for(e: ReadEvent) -> Option<(LogLevel, Seq<char>)> {
    match e {
        ReadEvent::Line(s) => if s@.len() > 0 {
            Some((LogLevel::Info, s@))
        } else {
            None
        },
        ReadEvent::Failed(d) => Some((LogLevel::Error, d@)),
    }
}

/// The records the reader's policy emits for a sequence of events, in order.
pub open spec fn records_for(events: Seq<ReadEvent>) -> Seq<(LogLevel, Seq<char>)>
    decreases events.len(),
{
    if events.len() == 0 {
        Seq::<(LogLevel, Seq<char>)>::empty()
    } else {
        match record_for(events[0]) {
            Some(rec) => seq![rec] + records_for(events.drop_first()),
            None => records_for(events.drop_first()),
        }
    }
}

/// The reader's decision for one read event.
pub fn reader_step(e: ReadEvent) -> (r: Option<LogRecord>)
    ensures
        match r {
            Some(rec) => record_for(e) == Some((rec.level, rec.message@)),
            None => record_for(e) is None,
        },
{
    match e {
        ReadEvent::Line(s) => {
            if s.as_str().is_empty() {
                None
            } else {
                Some(LogRecord { level: LogLevel::Info, message: s })
            }
        },
        ReadEvent::Failed(d) => Some(LogRecord { level: LogLevel::Error, message: d }),
    }
}

/// The reader's loop over a whole sequence of events: exactly the records
/// of `records_for`, in order.
pub fn process_output(events: Vec<ReadEvent>) -> (logs: Vec<LogRecord>)
    ensures
        logs@.map_values(|rec: LogRecord| (rec.level, rec.message@)) == records_for(events@),
{
    let ghost all = events@;
    let mut logs: Vec<LogRecord> = Vec::new();
    let mut rest = events;
    let ghost f = |rec: LogRecord| (rec.level, rec.message@);
    while rest.len() > 0
        invariant
            logs@.map_values(|rec: LogRecord| (rec.level, rec.message@)) + records_for(rest@)
                == records_for(all),
        decreases rest@.len(),
    {
        let ghost prev_logs = logs@;
        let ghost prev_rest = rest@;
        let e = rest.remove(0);
        proof {
            assert(rest@ =~= prev_rest.drop_first());
        }
        match reader_step(e) {
            Some(rec) => {
                proof {
                    assert(records_for(prev_rest) =~= seq![(rec.level, rec.message@)]
                        + records_for(prev_rest.drop_first()));
                }
                logs.push(rec);
                proof {
                    assert(logs@.map_values(|rec: LogRecord| (rec.level, rec.message@))
                        =~= prev_logs.map_values(|rec: LogRecord| (rec.level, rec.message@))
                        .push((rec.level, rec.message@)));
                    assert(logs@.map_values(|rec: LogRecord| (rec.level, rec.message@))
                        + records_for(rest@) =~= records_for(all));
                }
            },
            None => {},
        }
    }
    logs
}

/// The law of line mirroring: if the child's output yields K complete
/// (non-empty) lines and nothing else, the reader emits exactly K
/// info-level records, each holding one line's text, in the order read.
pub proof fn lemma_reader_mirrors_lines(events: Seq<ReadEvent>)
    requires
        forall|i: int| 0 <= i < events.len() ==> (#[trigger] events[i]) is Line
            && events[i]->Line_0@.len() > 0,
    ensures
        records_for(events).len() == events.len(),
        forall|i: int| 0 <= i < events.len() ==> #[trigger] records_for(events)[i]
            == (LogLevel::Info, events[i]->Line_0@),
    decreases events.len(),
{
    if events.len() > 0 {
        lemma_reader_mirrors_lines(events.drop_first());
        assert(records_for(events) =~= seq![(LogLevel::Info, events[0]->Line_0@)]
            + records_for(events.drop_first()));
    }
}

} // verus!
