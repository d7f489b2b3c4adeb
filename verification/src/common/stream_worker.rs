//! The accounting of one data stream.
//!
//! A worker moves the data of one stream in blocks of `block_size` bytes: it
//! asks for at most the rest of the current block at each write or read,
//! counts what went through, and reports every interval of a second. Time is
//! given to it as nanoseconds since the load started.
use crate::common::control::StreamStats;
use crate::common::data::TestParameters;
use vstd::prelude::*;

verus! {

/// The length of a reporting interval, in nanoseconds.
pub const INTERVAL_NANOS: u64 = 1_000_000_000;

/// Nanoseconds in a millisecond.
pub const NANOS_PER_MILLI: u64 = 1_000_000;

/// The messages that the controller sends to a worker.
#[derive(Debug, Clone, Copy, PartialEq, Eq, Structural)]
pub enum WorkerMessage {
    StartLoad,
    CollectStats,
    Terminate,
}

/// What a worker reports about one interval.
#[derive(Debug, Clone, Copy, PartialEq, Eq, Structural)]
pub struct IntervalStats {
    /// The start of the interval, in milliseconds since the load started.
    pub offset_from_start_millis: u64,
    /// The length of the interval in milliseconds.
    pub duration_millis: u64,
    /// The bytes moved during the interval.
    pub bytes_transferred: usize,
}

/// The counters of one data stream.
pub struct StreamWorker {
    pub id: usize,
    pub params: TestParameters,
    pub is_sending: bool,
    pub bytes_transferred: usize,
    pub packets: usize,
    /// What is left of the current block.
    pub remaining_bytes: usize,
    /// When the current interval started, in nanoseconds since the load
    /// started.
    pub interval_start_nanos: u64,
    /// The bytes moved in the current interval.
    pub interval_bytes: usize,
    /// The bytes of all the intervals reported so far.
    pub reported_bytes: Ghost<nat>,
}

impl StreamWorker {
    /// The counters are consistent: the current block is within the block
    /// size, the packets do not exceed the bytes moved, and the reported
    /// intervals and the current one add up to the bytes moved.
    pub open spec fn wf(&self) -> bool {
        &&& self.remaining_bytes <= self.params.block_size
        &&& self.packets <= self.bytes_transferred
        &&& self.reported_bytes@ + self.interval_bytes == self.bytes_transferred
    }

    /// A worker for stream `id` that has moved nothing yet.
    pub fn new(id: usize, params: TestParameters, is_sending: bool) -> (w: Self)
        ensures
            w.wf(),
            w.id == id,
            w.params == params,
            w.is_sending == is_sending,
            w.bytes_transferred == 0,
            w.packets == 0,
            w.remaining_bytes == 0,
            w.interval_start_nanos == 0,
            w.interval_bytes == 0,
            w.reported_bytes@ == 0,
    {
        StreamWorker {
            id,
            params,
            is_sending,
            bytes_transferred: 0,
            packets: 0,
            remaining_bytes: 0,
            interval_start_nanos: 0,
            interval_bytes: 0,
            reported_bytes: Ghost(0),
        }
    }

    /// How many bytes the next write or read may move: the rest of the
    /// current block, or a whole new block when the current one is done.
    pub fn next_transfer_len(&mut self) -> (n: usize)
        requires
            old(self).wf(),
        ensures
            final(self).wf(),
            n == (if old(self).remaining_bytes == 0 {
                old(self).params.block_size
            } else {
                old(self).remaining_bytes
            }),
            final(self).remaining_bytes == n,
            final(self).bytes_transferred == old(self).bytes_transferred,
            final(self).packets == old(self).packets,
            final(self).interval_bytes == old(self).interval_bytes,
            final(self).interval_start_nanos == old(self).interval_start_nanos,
            final(self).reported_bytes == old(self).reported_bytes,
            final(self).params == old(self).params,
            final(self).is_sending == old(self).is_sending,
            final(self).id == old(self).id,
    {
        if self.remaining_bytes == 0 {
            self.remaining_bytes = self.params.block_size;
        }
        self.remaining_bytes
    }

    /// Counts `count` bytes that a write or read moved. A transfer that moved
    /// anything counts as a packet.
    pub fn record_transfer(&mut self, count: usize)
        requires
            old(self).wf(),
            count <= old(self).remaining_bytes,
            old(self).bytes_transferred + count <= usize::MAX,
        ensures
            final(self).wf(),
            final(self).bytes_transferred == old(self).bytes_transferred + count,
            final(self).interval_bytes == old(self).interval_bytes + count,
            final(self).remaining_bytes == old(self).remaining_bytes - count,
            final(self).packets == old(self).packets + (if count > 0 {
                1int
            } else {
                0int
            }),
            final(self).interval_start_nanos == old(self).interval_start_nanos,
            final(self).reported_bytes == old(self).reported_bytes,
            final(self).params == old(self).params,
            final(self).is_sending == old(self).is_sending,
            final(self).id == old(self).id,
    {
        self.interval_bytes = self.interval_bytes + count;
        self.bytes_transferred = self.bytes_transferred + count;
        self.remaining_bytes = self.remaining_bytes - count;
        if count > 0 {
            self.packets = self.packets + 1;
        }
    }

    /// At time `now_nanos`: once more than an interval has passed since the
    /// current interval started, reports it and starts the next one.
    pub fn check_interval(&mut self, now_nanos: u64) -> (report: Option<IntervalStats>)
        requires
            old(self).wf(),
            old(self).interval_start_nanos <= now_nanos,
        ensures
            final(self).wf(),
            (now_nanos - old(self).interval_start_nanos > INTERVAL_NANOS) == report is Some,
            report matches Some(r) ==> {
                &&& r.offset_from_start_millis == old(self).interval_start_nanos / NANOS_PER_MILLI
                &&& r.duration_millis == (now_nanos - old(self).interval_start_nanos) as int
                    / NANOS_PER_MILLI as int
                &&& r.bytes_transferred == old(self).interval_bytes
                &&& final(self).interval_start_nanos == now_nanos
                &&& final(self).interval_bytes == 0
                &&& final(self).reported_bytes@ == old(self).reported_bytes@ + r.bytes_transferred
            },
            report is None ==> final(self).interval_start_nanos == old(self).interval_start_nanos
                && final(self).interval_bytes == old(self).interval_bytes
                && final(self).reported_bytes == old(self).reported_bytes,
            final(self).bytes_transferred == old(self).bytes_transferred,
            final(self).packets == old(self).packets,
            final(self).remaining_bytes == old(self).remaining_bytes,
            final(self).params == old(self).params,
            final(self).is_sending == old(self).is_sending,
            final(self).id == old(self).id,
    {
        let elapsed = now_nanos - self.interval_start_nanos;
        if elapsed > INTERVAL_NANOS {
            let report = IntervalStats {
                offset_from_start_millis: self.interval_start_nanos / NANOS_PER_MILLI,
                duration_millis: elapsed / NANOS_PER_MILLI,
                bytes_transferred: self.interval_bytes,
            };
            self.reported_bytes = Ghost((self.reported_bytes@ + self.interval_bytes) as nat);
            self.interval_bytes = 0;
            self.interval_start_nanos = now_nanos;
            Some(report)
        } else {
            None
        }
    }

    /// The totals of the stream when the load ends `elapsed_nanos` after it
    /// started.
    pub fn finish(&self, elapsed_nanos: u64) -> (stats: StreamStats)
        ensures
            stats.sender == self.is_sending,
            stats.duration_millis == elapsed_nanos / NANOS_PER_MILLI,
            stats.bytes_transferred == self.bytes_transferred,
    {
        StreamStats {
            sender: self.is_sending,
            duration_millis: elapsed_nanos / NANOS_PER_MILLI,
            bytes_transferred: self.bytes_transferred,
        }
    }
}

} // verus!
