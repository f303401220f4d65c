//! The background writer: how queued edits are batched and flushed, and the counters it keeps.

use vstd::prelude::*;
use crate::persistence::{
    BlockEdit, SAVE_FORMAT_VERSION, SCHEMA_VERSION, STORAGE_BACKEND, WRITE_BATCH_LIMIT,
};

verus! {

#[derive(Debug, Clone, Copy, PartialEq, Eq)]
pub struct PersistenceStatsSnapshot {
    pub storage_backend: &'static str,
    pub schema_version: i64,
    pub save_format_version: i64,
    pub loaded_legacy_overrides: usize,
    pub pending_edits: usize,
    pub flushed_edits: u64,
    pub flush_batches: u64,
    pub failed_flushes: u64,
    pub dirty_chunks: usize,
}

/// Counters of the writer; they wrap around like the atomic counters of the machine.
#[derive(Debug, Clone, Copy, PartialEq, Eq, Structural)]
pub struct PersistenceStats {
    pub pending_edits: usize,
    pub flushed_edits: u64,
    pub flush_batches: u64,
    pub failed_flushes: u64,
}

impl PersistenceStats {
    /// The counters after that many edits were written in one batch.
    pub open spec fn after_flush(self, count: usize) -> PersistenceStats {
        if count == 0 {
            self
        } else {
            PersistenceStats {
                pending_edits: self.pending_edits.wrapping_sub(count),
                flushed_edits: self.flushed_edits.wrapping_add(count as u64),
                flush_batches: self.flush_batches.wrapping_add(1),
                failed_flushes: self.failed_flushes,
            }
        }
    }

    pub fn new() -> (r: Self)
        ensures
            r == (PersistenceStats {
                pending_edits: 0,
                flushed_edits: 0,
                flush_batches: 0,
                failed_flushes: 0,
            }),
    {
        PersistenceStats { pending_edits: 0, flushed_edits: 0, flush_batches: 0, failed_flushes: 0 }
    }

    /// An edit was put into the queue.
    pub fn record_queued(&mut self)
        ensures
            *final(self) == (PersistenceStats {
                pending_edits: old(self).pending_edits.wrapping_add(1),
                ..*old(self)
            }),
    {
        self.pending_edits = self.pending_edits.wrapping_add(1);
    }

    /// An edit that was counted as queued could not be put into the queue.
    pub fn record_queue_failed(&mut self)
        ensures
            *final(self) == (PersistenceStats {
                pending_edits: old(self).pending_edits.wrapping_sub(1),
                ..*old(self)
            }),
    {
        self.pending_edits = self.pending_edits.wrapping_sub(1);
    }

    /// That many edits were written in one batch; an empty batch counts for nothing.
    pub fn record_flushed(&mut self, count: usize)
        ensures
            *final(self) == old(self).after_flush(count),
            *final(self) == if count == 0 {
                *old(self)
            } else {
                PersistenceStats {
                    pending_edits: old(self).pending_edits.wrapping_sub(count),
                    flushed_edits: old(self).flushed_edits.wrapping_add(count as u64),
                    flush_batches: old(self).flush_batches.wrapping_add(1),
                    failed_flushes: old(self).failed_flushes,
                }
            },
    {
        if count == 0 {
            return;
        }
        self.pending_edits = self.pending_edits.wrapping_sub(count);
        self.flushed_edits = self.flushed_edits.wrapping_add(count as u64);
        self.flush_batches = self.flush_batches.wrapping_add(1);
    }

    pub fn record_failed_flush(&mut self)
        ensures
            *final(self) == (PersistenceStats {
                failed_flushes: old(self).failed_flushes.wrapping_add(1),
                ..*old(self)
            }),
    {
        self.failed_flushes = self.failed_flushes.wrapping_add(1);
    }

    /// The counters, with what the storage says of itself.
    pub fn snapshot(self, loaded_legacy_overrides: usize, dirty_chunks: usize) -> (r:
        PersistenceStatsSnapshot)
        ensures
            r == (PersistenceStatsSnapshot {
                storage_backend: STORAGE_BACKEND,
                schema_version: SCHEMA_VERSION,
                save_format_version: SAVE_FORMAT_VERSION,
                loaded_legacy_overrides,
                pending_edits: self.pending_edits,
                flushed_edits: self.flushed_edits,
                flush_batches: self.flush_batches,
                failed_flushes: self.failed_flushes,
                dirty_chunks,
            }),
    {
        PersistenceStatsSnapshot {
            storage_backend: STORAGE_BACKEND,
            schema_version: SCHEMA_VERSION,
            save_format_version: SAVE_FORMAT_VERSION,
            loaded_legacy_overrides,
            pending_edits: self.pending_edits,
            flushed_edits: self.flushed_edits,
            flush_batches: self.flush_batches,
            failed_flushes: self.failed_flushes,
            dirty_chunks,
        }
    }
}

/// Queueing an edit and failing to send it leaves the counters as they were.
pub proof fn failed_queueing_counts_nothing(pending: usize)
    ensures
        pending.wrapping_add(1).wrapping_sub(1) == pending,
{
}

/// What the queue gave the writer.
#[derive(Debug, Clone, Copy, PartialEq, Eq, Structural)]
pub enum WriterEvent {
    Edit(BlockEdit),
    Shutdown,
    /// No message came: in time, while waiting; at once, while draining.
    Nothing,
    Disconnected,
}

/// What the writer does next.
#[derive(Debug, Clone, Copy, PartialEq, Eq, Structural)]
pub enum WriterAction {
    /// Wait for a message for at most the flush interval.
    Wait,
    /// Take a message if one is there.
    Poll,
    /// Write the batch, and stop where `stop` says so.
    Flush { stop: bool },
}

#[derive(Debug, Clone, Copy, PartialEq, Eq, Structural)]
pub enum WriterPhase {
    /// Between batches.
    Waiting,
    /// Filling a batch; `stop` says that the writer ends once it is written.
    Draining { stop: bool },
    /// The batch is complete.
    Ready { stop: bool },
}

/// The writer's state: the batch that it collects, and how far it is.
pub struct Writer {
    pub batch: Vec<BlockEdit>,
    pub phase: WriterPhase,
}

/// The phase after an event. A batch is drained until the queue is empty, the batch is full, or a
/// shutdown is asked for; a closed queue counts as one.
pub open spec fn next_phase(phase: WriterPhase, batch: Seq<BlockEdit>, event: WriterEvent) -> WriterPhase {
    match phase {
        WriterPhase::Waiting => match event {
            WriterEvent::Edit(edit) => WriterPhase::Draining { stop: false },
            WriterEvent::Shutdown => WriterPhase::Draining { stop: true },
            WriterEvent::Nothing => if batch.len() == 0 {
                WriterPhase::Waiting
            } else {
                WriterPhase::Ready { stop: false }
            },
            WriterEvent::Disconnected => WriterPhase::Ready { stop: true },
        },
        WriterPhase::Draining { stop } => match event {
            WriterEvent::Edit(edit) => WriterPhase::Draining { stop },
            WriterEvent::Shutdown => WriterPhase::Ready { stop: true },
            WriterEvent::Nothing => WriterPhase::Ready { stop },
            WriterEvent::Disconnected => WriterPhase::Ready { stop: true },
        },
        WriterPhase::Ready { stop } => phase,
    }
}

/// What the writer does next, by its phase and the size of its batch.
pub open spec fn next_action(phase: WriterPhase, batch: nat) -> WriterAction {
    match phase {
        WriterPhase::Waiting => WriterAction::Wait,
        WriterPhase::Draining { stop } => if batch < WRITE_BATCH_LIMIT {
            WriterAction::Poll
        } else {
            WriterAction::Flush { stop }
        },
        WriterPhase::Ready { stop } => WriterAction::Flush { stop },
    }
}

impl Writer {
    pub fn new() -> (r: Self)
        ensures
            r.batch@.len() == 0,
            r.phase == WriterPhase::Waiting,
    {
        Writer { batch: Vec::new(), phase: WriterPhase::Waiting }
    }

    /// What the writer does next. A full batch is written without another look at the queue.
    pub fn action(&self) -> (r: WriterAction)
        ensures
            r == next_action(self.phase, self.batch@.len()),
            r == match self.phase {
                WriterPhase::Waiting => WriterAction::Wait,
                WriterPhase::Draining { stop } => if self.batch@.len() < WRITE_BATCH_LIMIT {
                    WriterAction::Poll
                } else {
                    WriterAction::Flush { stop }
                },
                WriterPhase::Ready { stop } => WriterAction::Flush { stop },
            },
    {
        match self.phase {
            WriterPhase::Waiting => WriterAction::Wait,
            WriterPhase::Draining { stop } => if self.batch.len() < WRITE_BATCH_LIMIT {
                WriterAction::Poll
            } else {
                WriterAction::Flush { stop }
            },
            WriterPhase::Ready { stop } => WriterAction::Flush { stop },
        }
    }

    /// Takes in what the queue gave. Every edit goes behind the batch, in the order of the queue.
    pub fn receive(&mut self, event: WriterEvent)
        ensures
            final(self).batch@ == match event {
                WriterEvent::Edit(edit) => old(self).batch@.push(edit),
                _ => old(self).batch@,
            },
            final(self).phase == next_phase(old(self).phase, old(self).batch@, event),
    {
        let phase = match self.phase {
            WriterPhase::Waiting => match event {
                WriterEvent::Edit(edit) => WriterPhase::Draining { stop: false },
                WriterEvent::Shutdown => WriterPhase::Draining { stop: true },
                WriterEvent::Nothing => if self.batch.len() == 0 {
                    WriterPhase::Waiting
                } else {
                    WriterPhase::Ready { stop: false }
                },
                WriterEvent::Disconnected => WriterPhase::Ready { stop: true },
            },
            WriterPhase::Draining { stop } => match event {
                WriterEvent::Edit(edit) => WriterPhase::Draining { stop },
                WriterEvent::Shutdown => WriterPhase::Ready { stop: true },
                WriterEvent::Nothing => WriterPhase::Ready { stop },
                WriterEvent::Disconnected => WriterPhase::Ready { stop: true },
            },
            WriterPhase::Ready { stop } => WriterPhase::Ready { stop },
        };
        if let WriterEvent::Edit(edit) = event {
            self.batch.push(edit);
        }
        self.phase = phase;
    }

    /// The batch was written: the next one begins.
    pub fn flushed(&mut self)
        ensures
            final(self).batch@.len() == 0,
            final(self).phase == WriterPhase::Waiting,
    {
        self.batch = Vec::new();
        self.phase = WriterPhase::Waiting;
    }
}

/// The edits among the first `n` events, in their order.
pub open spec fn received_edits(events: Seq<WriterEvent>, n: int) -> Seq<BlockEdit>
    decreases n,
{
    if n <= 0 {
        seq![]
    } else {
        match events[n - 1] {
            WriterEvent::Edit(edit) => received_edits(events, n - 1).push(edit),
            _ => received_edits(events, n - 1),
        }
    }
}

/// A writer's life so far: what was flushed, and the batch and phase that it is in.
pub struct WriterTrace {
    pub flushed: Seq<BlockEdit>,
    pub batch: Seq<BlockEdit>,
    pub phase: WriterPhase,
}

/// The trace after the first `n` events, where the batch is flushed whenever the writer asks for
/// it, before the next event is taken.
pub open spec fn writer_trace(events: Seq<WriterEvent>, n: int) -> WriterTrace
    decreases n,
{
    if n <= 0 {
        WriterTrace { flushed: seq![], batch: seq![], phase: WriterPhase::Waiting }
    } else {
        let before = writer_trace(events, n - 1);
        let phase = next_phase(before.phase, before.batch, events[n - 1]);
        let batch = match events[n - 1] {
            WriterEvent::Edit(edit) => before.batch.push(edit),
            _ => before.batch,
        };
        if phase is Ready || (phase is Draining && batch.len() >= WRITE_BATCH_LIMIT) {
            WriterTrace {
                flushed: before.flushed + batch,
                batch: seq![],
                phase: WriterPhase::Waiting,
            }
        } else {
            WriterTrace { flushed: before.flushed, batch, phase }
        }
    }
}

/// No edit is lost, repeated or reordered: what was flushed, with what waits in the batch behind
/// it, is what was received; and a batch never exceeds its limit.
pub proof fn edits_are_flushed_in_order(events: Seq<WriterEvent>, n: int)
    requires
        0 <= n <= events.len(),
    ensures
        writer_trace(events, n).flushed + writer_trace(events, n).batch == received_edits(events, n),
        writer_trace(events, n).batch.len() < WRITE_BATCH_LIMIT,
        writer_trace(events, n).phase is Waiting ==> writer_trace(events, n).batch.len() == 0,
        !(writer_trace(events, n).phase is Ready),
    decreases n,
{
    if n > 0 {
        edits_are_flushed_in_order(events, n - 1);
        let before = writer_trace(events, n - 1);
        let after = writer_trace(events, n);
        match events[n - 1] {
            WriterEvent::Edit(edit) => {
                assert(before.flushed + before.batch.push(edit) =~= (before.flushed
                    + before.batch).push(edit));
            },
            _ => {},
        }
        assert(after.flushed + after.batch =~= received_edits(events, n));
    } else {
        assert(Seq::<BlockEdit>::empty() + Seq::<BlockEdit>::empty() =~= Seq::<
            BlockEdit,
        >::empty());
    }
}

} // verus!
