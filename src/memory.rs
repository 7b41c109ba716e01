use vstd::prelude::*;

verus! {

/// The smallest barrier interval the manager accepts, in milliseconds.
pub const MIN_BARRIER_INTERVAL_MS: u32 = 10;

/// How many low bits of an epoch lie below its physical time.
pub const EPOCH_PHYSICAL_SHIFT_BITS: u64 = 16;

/// What the memory manager knows after a tick.
#[derive(Debug, Clone, Copy, PartialEq, Eq, Structural)]
pub struct MemoryControlStats {
    pub batch_memory_usage: usize,
    pub streaming_memory_usage: usize,
    pub jemalloc_allocated_mib: usize,
    /// How aggressively the last tick evicted: 0, 1 or 2.
    pub lru_watermark_step: u64,
    /// Cached entries older than this time may be evicted.
    pub lru_watermark_time_ms: u64,
    pub lru_physical_now_ms: u64,
}

/// One reading of memory usage; `None` where a reading failed.
#[derive(Debug, Clone, Copy)]
pub struct MemorySample {
    pub batch_memory_usage: Option<usize>,
    pub streaming_memory_usage: Option<usize>,
    pub allocated_bytes: Option<usize>,
    pub physical_now_ms: u64,
}

/// Evicts once allocated memory passes a share of the budget: at step 1 past
/// the graceful threshold, at step 2 past the aggressive one. Each step moves
/// the watermark time one barrier interval forward, never past the present.
#[derive(Debug, Clone, Copy)]
pub struct MemoryControlPolicy {
    pub graceful_percent: u64,
    pub aggressive_percent: u64,
}

/// A reading, with a failed one counted as zero.
pub open spec fn reading(r: Option<usize>) -> usize {
    match r {
        Some(v) => v,
        None => 0,
    }
}

/// `percent` percent of `total`, rounded down.
pub open spec fn share(total: usize, percent: u64) -> int {
    total as int * percent as int / 100
}

/// How hard to evict at `used` bytes of a `total` budget.
pub open spec fn pressure_step(p: MemoryControlPolicy, total: usize, used: usize) -> u64 {
    if used as int > share(total, p.aggressive_percent) {
        2
    } else if used as int > share(total, p.graceful_percent) {
        1
    } else {
        0
    }
}

/// The watermark time after a tick: `step` intervals past `prev`, but not
/// past `now` unless `prev` already is.
pub open spec fn next_watermark_time(prev: u64, step: u64, interval: u32, now: u64) -> u64 {
    let target = prev as int + step as int * interval as int;
    let capped = if target > now as int { now as int } else { target };
    if capped < prev as int {
        prev
    } else {
        capped as u64
    }
}

/// The epoch whose physical part is `time_ms`, or the largest epoch past that range.
pub open spec fn epoch_of_time(time_ms: u64) -> u64 {
    if time_ms as int * 65536 > u64::MAX as int {
        u64::MAX
    } else {
        (time_ms as int * 65536) as u64
    }
}

impl MemoryControlPolicy {
    /// A policy that evicts past 70% and hard past 90% of the budget.
    pub fn fixed_proportion() -> (r: MemoryControlPolicy)
        ensures
            r.graceful_percent == 70,
            r.aggressive_percent == 90,
    {
        MemoryControlPolicy { graceful_percent: 70, aggressive_percent: 90 }
    }

    /// New statistics from the previous ones and a sample.
    pub fn apply(
        &self,
        total_compute_memory_bytes: usize,
        barrier_interval_ms: u32,
        prev: MemoryControlStats,
        sample: MemorySample,
    ) -> (r: MemoryControlStats)
        requires
            self.graceful_percent <= 100,
            self.aggressive_percent <= 100,
        ensures
            r.batch_memory_usage == reading(sample.batch_memory_usage),
            r.streaming_memory_usage == reading(sample.streaming_memory_usage),
            r.jemalloc_allocated_mib == reading(sample.allocated_bytes) as int / 1048576,
            r.lru_watermark_step == pressure_step(*self, total_compute_memory_bytes, reading(sample.allocated_bytes)),
            r.lru_watermark_time_ms == next_watermark_time(
                prev.lru_watermark_time_ms,
                r.lru_watermark_step,
                barrier_interval_ms,
                sample.physical_now_ms,
            ),
            r.lru_watermark_time_ms >= prev.lru_watermark_time_ms,
            r.lru_physical_now_ms == sample.physical_now_ms,
    {
        let batch = match sample.batch_memory_usage {
            Some(v) => v,
            None => 0,
        };
        let streaming = match sample.streaming_memory_usage {
            Some(v) => v,
            None => 0,
        };
        let used = match sample.allocated_bytes {
            Some(v) => v,
            None => 0,
        };
        let total = total_compute_memory_bytes as u128;
        proof {
            assert(total * self.aggressive_percent <= 0xffff_ffff_ffff_ffff * 100) by (nonlinear_arith)
                requires
                    self.aggressive_percent <= 100,
                    total <= 0xffff_ffff_ffff_ffff,
            ;
            assert(total * self.graceful_percent <= 0xffff_ffff_ffff_ffff * 100) by (nonlinear_arith)
                requires
                    self.graceful_percent <= 100,
                    total <= 0xffff_ffff_ffff_ffff,
            ;
        }
        let aggressive = total * (self.aggressive_percent as u128) / 100;
        let graceful = total * (self.graceful_percent as u128) / 100;
        let step: u64 = if used as u128 > aggressive {
            2
        } else if used as u128 > graceful {
            1
        } else {
            0
        };
        let prev_time = prev.lru_watermark_time_ms;
        let now = sample.physical_now_ms;
        proof {
            assert((step as u128) * (barrier_interval_ms as u128) <= 2 * 0xffff_ffffu128) by (nonlinear_arith)
                requires
                    step <= 2,
                    barrier_interval_ms <= 0xffff_ffffu32,
            ;
        }
        let target: u128 = prev_time as u128 + (step as u128) * (barrier_interval_ms as u128);
        let capped: u128 = if target > now as u128 { now as u128 } else { target };
        let time: u64 = if capped < prev_time as u128 { prev_time } else { capped as u64 };
        MemoryControlStats {
            batch_memory_usage: batch,
            streaming_memory_usage: streaming,
            jemalloc_allocated_mib: used / 1048576,
            lru_watermark_step: step,
            lru_watermark_time_ms: time,
            lru_physical_now_ms: now,
        }
    }
}

/// The epoch whose physical part is `time_ms`, saturating.
pub fn epoch_from_physical_time(time_ms: u64) -> (r: u64)
    ensures
        r == epoch_of_time(time_ms),
{
    if time_ms > 281474976710655u64 {
        u64::MAX
    } else {
        time_ms * 65536
    }
}

/// Turns memory-usage samples into an eviction watermark that never moves back.
pub struct GlobalMemoryManager {
    /// Cached data before this epoch should be evicted.
    pub watermark_epoch: u64,
    /// The memory that computing tasks may use, in bytes.
    pub total_compute_memory_bytes: usize,
    pub barrier_interval_ms: u32,
    pub memory_control_policy: MemoryControlPolicy,
    pub stats: MemoryControlStats,
}

impl GlobalMemoryManager {
    pub open spec fn wf(self) -> bool {
        &&& self.memory_control_policy.graceful_percent <= 100
        &&& self.memory_control_policy.aggressive_percent <= 100
        &&& self.barrier_interval_ms >= MIN_BARRIER_INTERVAL_MS
    }

    /// A manager whose watermark starts at zero and whose watermark time
    /// starts at `physical_now_ms`. A barrier interval under the minimum is
    /// raised to it.
    pub fn new(
        total_compute_memory_bytes: usize,
        barrier_interval_ms: u32,
        memory_control_policy: MemoryControlPolicy,
        physical_now_ms: u64,
    ) -> (r: GlobalMemoryManager)
        requires
            memory_control_policy.graceful_percent <= 100,
            memory_control_policy.aggressive_percent <= 100,
        ensures
            r.wf(),
            r.watermark_epoch == 0,
            r.total_compute_memory_bytes == total_compute_memory_bytes,
            r.barrier_interval_ms == (if barrier_interval_ms < MIN_BARRIER_INTERVAL_MS {
                MIN_BARRIER_INTERVAL_MS
            } else {
                barrier_interval_ms
            }),
            r.memory_control_policy == memory_control_policy,
            r.stats == (MemoryControlStats {
                batch_memory_usage: 0,
                streaming_memory_usage: 0,
                jemalloc_allocated_mib: 0,
                lru_watermark_step: 0,
                lru_watermark_time_ms: physical_now_ms,
                lru_physical_now_ms: physical_now_ms,
            }),
    {
        let barrier_interval_ms = if barrier_interval_ms < MIN_BARRIER_INTERVAL_MS {
            MIN_BARRIER_INTERVAL_MS
        } else {
            barrier_interval_ms
        };
        GlobalMemoryManager {
            watermark_epoch: 0,
            total_compute_memory_bytes,
            barrier_interval_ms,
            memory_control_policy,
            stats: MemoryControlStats {
                batch_memory_usage: 0,
                streaming_memory_usage: 0,
                jemalloc_allocated_mib: 0,
                lru_watermark_step: 0,
                lru_watermark_time_ms: physical_now_ms,
                lru_physical_now_ms: physical_now_ms,
            },
        }
    }

    /// The shared watermark: cached data before this epoch should be evicted.
    pub fn get_watermark_epoch(&self) -> (r: u64)
        ensures
            r == self.watermark_epoch,
    {
        self.watermark_epoch
    }

    /// One tick of the control loop: applies the policy to the sample and
    /// moves the watermark to the new watermark time's epoch, never back.
    pub fn tick(&mut self, sample: MemorySample) -> (r: MemoryControlStats)
        requires
            old(self).wf(),
        ensures
            final(self).wf(),
            final(self).watermark_epoch >= old(self).watermark_epoch,
            final(self).watermark_epoch == (if epoch_of_time(r.lru_watermark_time_ms) > old(self).watermark_epoch {
                epoch_of_time(r.lru_watermark_time_ms)
            } else {
                old(self).watermark_epoch
            }),
            r.lru_watermark_step == pressure_step(
                old(self).memory_control_policy,
                old(self).total_compute_memory_bytes,
                reading(sample.allocated_bytes),
            ),
            r.lru_watermark_time_ms == next_watermark_time(
                old(self).stats.lru_watermark_time_ms,
                r.lru_watermark_step,
                old(self).barrier_interval_ms,
                sample.physical_now_ms,
            ),
            r.batch_memory_usage == reading(sample.batch_memory_usage),
            r.streaming_memory_usage == reading(sample.streaming_memory_usage),
            r.jemalloc_allocated_mib == reading(sample.allocated_bytes) as int / 1048576,
            r.lru_physical_now_ms == sample.physical_now_ms,
            final(self).stats == r,
            final(self).total_compute_memory_bytes == old(self).total_compute_memory_bytes,
            final(self).barrier_interval_ms == old(self).barrier_interval_ms,
            final(self).memory_control_policy == old(self).memory_control_policy,
    {
        let stats = self.memory_control_policy.apply(
            self.total_compute_memory_bytes,
            self.barrier_interval_ms,
            self.stats,
            sample,
        );
        let epoch = epoch_from_physical_time(stats.lru_watermark_time_ms);
        if epoch > self.watermark_epoch {
            self.watermark_epoch = epoch;
        }
        self.stats = stats;
        stats
    }
}

} // verus!
