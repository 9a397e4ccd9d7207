//! Ring buffer of recent debug log messages.
use vstd::prelude::*;

use std::collections::VecDeque;
use std::time::Instant;

verus! {

#[verifier::external_type_specification]
#[verifier::external_body]
pub struct ExInstant(Instant);

/// Most entries that a log keeps; pushing onto a full log drops the oldest.
pub const LOG_CAPACITY: usize = 500;

/// A logged message and the moment it was logged.
pub struct LogEntry {
    pub ts: Instant,
    pub text: String,
}

/// The debug log: the most recent messages, oldest first.
pub struct LogBuffer {
    pub entries: VecDeque<LogEntry>,
}

impl LogBuffer {
    /// The log holds at most `LOG_CAPACITY` entries.
    pub open spec fn wf(&self) -> bool {
        self.entries@.len() <= LOG_CAPACITY
    }

    /// An empty log.
    pub fn new() -> (log: LogBuffer)
        ensures
            log.wf(),
            log.entries@.len() == 0,
    {
        LogBuffer { entries: VecDeque::with_capacity(LOG_CAPACITY) }
    }
}

/// The entries of a log after `text` logged at `ts` is pushed onto
/// `entries`: the oldest entry is dropped when the log is full.
pub open spec fn pushed(entries: Seq<LogEntry>, ts: Instant, text: String) -> Seq<LogEntry> {
    let kept = if entries.len() >= LOG_CAPACITY {
        entries.drop_first()
    } else {
        entries
    };
    kept.push(LogEntry { ts, text })
}

/// Log `msg` at time `ts`, dropping the oldest entry if the log is full.
pub fn push(log: &mut LogBuffer, ts: Instant, msg: String)
    ensures
        old(log).wf() ==> final(log).wf(),
        final(log).entries@ == pushed(old(log).entries@, ts, msg),
{
    if log.entries.len() >= LOG_CAPACITY {
        let _ = log.entries.pop_front();
    }
    log.entries.push_back(LogEntry { ts, text: msg });
}

/// Copies of the `max` most recent entries (all of them if there are
/// fewer), oldest first.
pub fn snapshot(log: &LogBuffer, max: usize) -> (r: Vec<(Instant, String)>)
    ensures
        ({
            let n = log.entries@.len();
            let start = if max >= n {
                0
            } else {
                n - max
            };
            &&& r@.len() == n - start
            &&& forall|i: int|
                0 <= i < r@.len() ==> (#[trigger] r@[i]).0 == log.entries@[start + i].ts
                    && r@[i].1@ == log.entries@[start + i].text@
        }),
{
    let n: usize = log.entries.len();
    let start: usize = n.saturating_sub(max);
    let mut out: Vec<(Instant, String)> = Vec::new();
    let mut i: usize = start;
    while i < n
        invariant
            start <= i <= n,
            n == log.entries@.len(),
            start == (if max >= n {
                0
            } else {
                n - max
            }),
            out@.len() == i - start,
            forall|j: int|
                0 <= j < out@.len() ==> (#[trigger] out@[j]).0 == log.entries@[start + j].ts
                    && out@[j].1@ == log.entries@[start + j].text@,
        decreases n - i,
    {
        let e: &LogEntry = &log.entries[i];
        out.push((e.ts, e.text.clone()));
        i = i + 1;
    }
    out
}

/// Remove every entry.
pub fn clear(log: &mut LogBuffer)
    ensures
        final(log).wf(),
        final(log).entries@.len() == 0,
{
    log.entries.clear();
}

} // verus!
