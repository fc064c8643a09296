//! Monitor-style reader/writer state: a reader count and a writer flag.
//!
//! This is the flag-based variant of reader/writer exclusion: one counter
//! of active readers and one writer-active flag, both only ever changed
//! under the monitor's own guard.  A reader may start only while no writer
//! is active; a writer may start only while nobody at all is active.  A
//! refused caller re-checks after a short wait in its driver — the monitor
//! itself never spins.  Effectively reader-priority: waiting writers do not
//! block new readers.

use vstd::prelude::*;

verus! {

/// Reader-count/writer-flag monitor for shared-resource access.
pub struct ReaderWriterMonitor {
    /// Readers currently reading.
    pub reader_count: usize,
    /// Whether a writer is currently writing.
    pub writer_active: bool,
}

impl ReaderWriterMonitor {
    /// Exclusion invariant: an active writer means zero active readers.
    pub open spec fn wf(&self) -> bool {
        self.writer_active ==> self.reader_count == 0
    }

    /// Creates an idle monitor: no readers, no writer.
    pub fn new() -> (m: ReaderWriterMonitor)
        ensures
            m.wf(),
            m.reader_count == 0,
            !m.writer_active,
    {
        ReaderWriterMonitor { reader_count: 0, writer_active: false }
    }

    /// A reader asks to start reading; admitted iff no writer is active.
    /// A refused reader waits briefly and asks again in its driver.
    pub fn try_start_read(&mut self) -> (started: bool)
        requires
            old(self).wf(),
            old(self).reader_count < usize::MAX,
        ensures
            final(self).wf(),
            started == !old(self).writer_active,
            started ==> *final(self) == (ReaderWriterMonitor {
                reader_count: (old(self).reader_count + 1) as usize,
                ..*old(self)
            }),
            !started ==> *final(self) == *old(self),
    {
        if self.writer_active {
            return false;
        }
        self.reader_count = self.reader_count + 1;
        true
    }

    /// A reader finishes reading.
    pub fn end_read(&mut self)
        requires
            old(self).wf(),
            old(self).reader_count > 0,
        ensures
            final(self).wf(),
            *final(self) == (ReaderWriterMonitor {
                reader_count: (old(self).reader_count - 1) as usize,
                ..*old(self)
            }),
    {
        self.reader_count = self.reader_count - 1;
    }

    /// A writer asks to start writing; admitted iff nobody is active at
    /// all.  A refused writer waits briefly and asks again in its driver.
    pub fn try_start_write(&mut self) -> (started: bool)
        requires
            old(self).wf(),
        ensures
            final(self).wf(),
            started == (!old(self).writer_active && old(self).reader_count == 0),
            started ==> *final(self) == (ReaderWriterMonitor { writer_active: true, ..*old(self) }),
            !started ==> *final(self) == *old(self),
    {
        if self.writer_active || self.reader_count > 0 {
            return false;
        }
        self.writer_active = true;
        true
    }

    /// The writer finishes writing, releasing exclusive access.
    pub fn end_write(&mut self)
        requires
            old(self).wf(),
        ensures
            final(self).wf(),
            *final(self) == (ReaderWriterMonitor { writer_active: false, ..*old(self) }),
    {
        self.writer_active = false;
    }

    /// Active readers.  Non-authoritative inspection.
    pub fn readers(&self) -> (n: usize)
        ensures
            n == self.reader_count,
    {
        self.reader_count
    }

    /// Whether a writer is active.  Non-authoritative inspection.
    pub fn is_writing(&self) -> (b: bool)
        ensures
            b == self.writer_active,
    {
        self.writer_active
    }

    /// Exclusion law: a reader and the writer are never active together.
    pub proof fn lemma_reader_writer_exclusion(&self)
        requires
            self.wf(),
        ensures
            !(self.writer_active && self.reader_count > 0),
    {
    }
}

} // verus!
