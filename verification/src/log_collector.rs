//! A bounded in-memory log buffer.
//!
//! Entries are appended at the back; once the buffer holds `max_size`
//! entries, appending drops the oldest one. Timestamps and the forwarding of
//! entries to listeners come from the embedding application; the buffer
//! discipline is verified here.

use std::collections::VecDeque;
use vstd::prelude::*;

verus! {

/// One captured log line.
#[derive(Debug)]
pub struct LogEntry {
    pub timestamp: String,
    pub level: String,
    pub message: String,
}

impl Clone for LogEntry {
    fn clone(&self) -> (res: Self)
        ensures
            res == *self,
    {
        LogEntry {
            timestamp: self.timestamp.clone(),
            level: self.level.clone(),
            message: self.message.clone(),
        }
    }
}

/// A bounded queue of the most recent log entries.
pub struct LogCollector {
    buffer: VecDeque<LogEntry>,
    max_size: usize,
}

impl LogCollector {
    /// The buffered entries, oldest first.
    pub closed spec fn entries(&self) -> Seq<LogEntry> {
        self.buffer@
    }

    /// The capacity bound the collector was created with.
    pub closed spec fn bound(&self) -> usize {
        self.max_size
    }

    /// The buffer never exceeds its bound (when the bound is positive).
    pub open spec fn wf(&self) -> bool {
        self.entries().len() <= self.bound() || self.bound() == 0
    }

    /// An empty collector keeping at most `max_size` entries.
    pub fn new(max_size: usize) -> (r: Self)
        ensures
            r.wf(),
            r.bound() == max_size,
            r.entries() =~= Seq::<LogEntry>::empty(),
    {
        LogCollector { buffer: VecDeque::with_capacity(max_size), max_size }
    }

    /// Append one entry, dropping the oldest when the buffer is full.
    pub fn add_log(&mut self, timestamp: String, level: String, message: String)
        requires
            old(self).wf(),
        ensures
            final(self).wf(),
            final(self).bound() == old(self).bound(),
            ({
                let entry = LogEntry { timestamp, level, message };
                if old(self).entries().len() >= old(self).bound() && old(
                    self,
                ).entries().len() > 0 {
                    final(self).entries() =~= old(self).entries().drop_first().push(entry)
                } else {
                    final(self).entries() =~= old(self).entries().push(entry)
                }
            }),
    {
        let entry = LogEntry { timestamp, level, message };
        if self.buffer.len() >= self.max_size && self.buffer.len() > 0 {
            let _ = self.buffer.pop_front();
        }
        self.buffer.push_back(entry);
    }

    /// The buffered entries, oldest first.
    pub fn get_logs(&self) -> (r: Vec<LogEntry>)
        ensures
            r@.len() == self.entries().len(),
            forall|i: int| 0 <= i < r@.len() ==> r@[i] == self.entries()[i],
    {
        let n = self.buffer.len();
        let mut out: Vec<LogEntry> = Vec::new();
        let mut i: usize = 0;
        while i < n
            invariant
                n == self.entries().len(),
                0 <= i <= n,
                out@.len() == i,
                forall|j: int| 0 <= j < i ==> out@[j] == self.entries()[j],
            decreases n - i,
        {
            out.push(self.buffer[i].clone());
            i = i + 1;
        }
        out
    }

    /// Drop every buffered entry.
    pub fn clear(&mut self)
        ensures
            final(self).wf(),
            final(self).bound() == old(self).bound(),
            final(self).entries() =~= Seq::<LogEntry>::empty(),
    {
        self.buffer.clear();
    }
}

} // verus!
