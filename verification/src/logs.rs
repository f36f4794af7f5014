//! The application log: its entries, the bounded buffer the GUI shows, and
//! the text form used for copying and for the log file.

use crate::clock::{format_local_time, formatted_local_time, local_now, LocalTime};
use crate::text::string_push_str;
use std::collections::VecDeque;
use vstd::prelude::*;

verus! {

/// How serious a log entry is.
#[derive(Debug, Clone, Copy, PartialEq, Eq, Structural)]
pub enum LogLevel {
    Info,
    Warn,
    Error,
}

pub open spec fn spec_label(level: LogLevel) -> Seq<char> {
    match level {
        LogLevel::Info => "INFO"@,
        LogLevel::Warn => "WARN"@,
        LogLevel::Error => "ERROR"@,
    }
}

impl LogLevel {
    /// The short tag shown in the panel and in copied text.
    pub fn label(self) -> (s: &'static str)
        ensures
            s@ == spec_label(self),
    {
        match self {
            LogLevel::Info => "INFO",
            LogLevel::Warn => "WARN",
            LogLevel::Error => "ERROR",
        }
    }
}

/// One log entry, stamped with the local time at which it was made.
#[derive(Debug, Clone, PartialEq)]
pub struct LogEntry {
    pub level: LogLevel,
    pub message: String,
    pub timestamp: LocalTime,
}

impl LogEntry {
    /// An entry made now.
    pub fn new(level: LogLevel, message: &str) -> (e: Self)
        ensures
            e.level == level,
            e.message@ == message@,
    {
        LogEntry { level, message: message.to_string(), timestamp: local_now() }
    }
}

impl LogEntry {
    /// The entry's time under the strftime `pattern`; empty where chrono
    /// cannot render it.
    pub fn timestamp_text(&self, pattern: &str) -> (s: String)
        ensures
            s@ == match formatted_local_time(
                self.timestamp.unix_seconds,
                self.timestamp.subsec_nanos,
                self.timestamp.utc_offset_seconds,
                pattern@,
            ) {
                Some(t) => t,
                None => Seq::<char>::empty(),
            },
    {
        match format_local_time(&self.timestamp, pattern) {
            Some(t) => t,
            None => String::new(),
        }
    }
}

/// The pattern of the time stamps in copied and saved log text.
pub const LOG_TIME_PATTERN: &'static str = "%Y-%m-%d %H:%M:%S";

/// The time stamp text of an instant; empty where chrono cannot render it,
/// which is never the case for an instant read from the clock.
pub open spec fn time_text(t: LocalTime) -> Seq<char> {
    match formatted_local_time(t.unix_seconds, t.subsec_nanos, t.utc_offset_seconds, LOG_TIME_PATTERN@) {
        Some(s) => s,
        None => seq![],
    }
}

/// `[time] LEVEL message`.
pub open spec fn spec_log_line(e: LogEntry) -> Seq<char> {
    "["@ + time_text(e.timestamp) + "] "@ + spec_label(e.level) + " "@ + e.message@
}

/// The entry as one line of text, `[time] LEVEL message`, without a newline.
pub fn log_line(entry: &LogEntry) -> (s: String)
    ensures
        s@ == spec_log_line(*entry),
{
    let stamp = entry.timestamp_text(LOG_TIME_PATTERN);
    let mut s = String::new();
    string_push_str(&mut s, "[");
    string_push_str(&mut s, stamp.as_str());
    string_push_str(&mut s, "] ");
    string_push_str(&mut s, entry.level.label());
    string_push_str(&mut s, " ");
    string_push_str(&mut s, entry.message.as_str());
    s
}

/// The lines joined by newlines, with none after the last.
pub open spec fn joined_lines(lines: Seq<Seq<char>>) -> Seq<char>
    decreases lines.len(),
{
    if lines.len() == 0 {
        seq![]
    } else if lines.len() == 1 {
        lines[0]
    } else {
        joined_lines(lines.drop_last()) + "\n"@ + lines.last()
    }
}

pub open spec fn log_lines(logs: Seq<LogEntry>) -> Seq<Seq<char>> {
    logs.map_values(|e: LogEntry| spec_log_line(e))
}

/// All entries, one `[time] LEVEL message` line each, joined by newlines.
pub fn format_logs_for_clipboard(logs: &[LogEntry]) -> (s: String)
    ensures
        s@ == joined_lines(log_lines(logs@)),
{
    let mut s = String::new();
    let n = logs.len();
    let mut i: usize = 0;
    while i < n
        invariant
            i <= n == logs@.len(),
            s@ == joined_lines(log_lines(logs@.subrange(0, i as int))),
        decreases n - i,
    {
        let line = log_line(&logs[i]);
        let ghost before = log_lines(logs@.subrange(0, i as int));
        assert(log_lines(logs@.subrange(0, i + 1)) =~= before.push(line@));
        if i > 0 {
            string_push_str(&mut s, "\n");
        } else {
            assert(before =~= Seq::<Seq<char>>::empty());
        }
        string_push_str(&mut s, line.as_str());
        assert(log_lines(logs@.subrange(0, i + 1)).drop_last() =~= before);
        i = i + 1;
    }
    assert(logs@.subrange(0, n as int) =~= logs@);
    s
}

/// `VecDeque::make_contiguous`: the entries, in order, as one slice; the
/// deque keeps the same entries in the same order.
#[verifier::external_body]
fn deque_as_slice<T>(d: &mut VecDeque<T>) -> (s: &[T])
    ensures
        s@ == old(d)@,
        final(d)@ == old(d)@,
{
    d.make_contiguous()
}

/// The latest entries, at most `capacity` of them; the oldest is dropped first.
#[derive(Debug, Clone)]
pub struct LogBuffer {
    entries: VecDeque<LogEntry>,
    capacity: usize,
}

/// One push: the entry goes last, and where the buffer was full its oldest
/// entry leaves.
pub open spec fn push_bounded<T>(entries: Seq<T>, capacity: nat, e: T) -> Seq<T> {
    if entries.len() >= capacity {
        entries.drop_first().push(e)
    } else {
        entries.push(e)
    }
}

impl LogBuffer {
    /// The entries held, oldest first.
    pub closed spec fn entries(&self) -> Seq<LogEntry> {
        self.entries@
    }

    /// The most entries held at once.
    pub closed spec fn spec_capacity(&self) -> nat {
        self.capacity as nat
    }

    /// The capacity is at least one, and never exceeded.
    pub closed spec fn wf(&self) -> bool {
        &&& self.capacity >= 1
        &&& self.entries@.len() <= self.capacity
    }

    /// A well-formed buffer holds at least one entry's room, and never more
    /// entries than its capacity.
    pub proof fn lemma_within_capacity(&self)
        requires
            self.wf(),
        ensures
            self.spec_capacity() >= 1,
            self.entries().len() <= self.spec_capacity(),
    {
    }

    /// An empty buffer holding at most `capacity` entries (at least one).
    pub fn new(capacity: usize) -> (b: Self)
        ensures
            b.wf(),
            b.entries() == Seq::<LogEntry>::empty(),
            b.spec_capacity() == if capacity == 0 { 1 } else { capacity as nat },
    {
        let capacity = if capacity < 1 { 1 } else { capacity };
        LogBuffer { entries: VecDeque::with_capacity(capacity), capacity }
    }

    /// Adds `entry` last, dropping the oldest entry where the buffer is full.
    pub fn push(&mut self, entry: LogEntry)
        requires
            old(self).wf(),
        ensures
            final(self).wf(),
            final(self).spec_capacity() == old(self).spec_capacity(),
            final(self).entries() == push_bounded(old(self).entries(), old(self).spec_capacity(), entry),
    {
        if self.entries.len() >= self.capacity {
            self.entries.pop_front();
        }
        self.entries.push_back(entry);
    }

    /// Removes every entry.
    pub fn clear(&mut self)
        requires
            old(self).wf(),
        ensures
            final(self).wf(),
            final(self).spec_capacity() == old(self).spec_capacity(),
            final(self).entries() == Seq::<LogEntry>::empty(),
    {
        self.entries.clear();
    }

    pub fn len(&self) -> (n: usize)
        ensures
            n == self.entries().len(),
    {
        self.entries.len()
    }

    pub fn is_empty(&self) -> (b: bool)
        ensures
            b == (self.entries().len() == 0),
    {
        self.entries.len() == 0
    }

    pub fn capacity(&self) -> (c: usize)
        ensures
            c == self.spec_capacity(),
    {
        self.capacity
    }

    /// The entries, oldest first, as one slice.
    pub fn as_slice(&mut self) -> (s: &[LogEntry])
        requires
            old(self).wf(),
        ensures
            s@ == old(self).entries(),
            final(self).wf(),
            final(self).entries() == old(self).entries(),
            final(self).spec_capacity() == old(self).spec_capacity(),
    {
        deque_as_slice(&mut self.entries)
    }
}

impl Default for LogBuffer {
    /// A buffer of 500 entries.
    fn default() -> (b: Self)
        ensures
            b.wf(),
            b.entries() == Seq::<LogEntry>::empty(),
            b.spec_capacity() == 500,
    {
        LogBuffer::new(500)
    }
}

/// What the log panel asks of its owner.
#[derive(Debug, Clone, Copy, PartialEq, Eq, Structural)]
pub enum LogPanelAction {
    /// Nothing was asked.
    NoAction,
    ClearRequested,
}

impl Default for LogPanelAction {
    fn default() -> (a: Self)
        ensures
            a == LogPanelAction::NoAction,
    {
        LogPanelAction::NoAction
    }
}

} // verus!
