use stream_core::memory::{
    epoch_from_physical_time, GlobalMemoryManager, MemoryControlPolicy, MemorySample,
};

const GIB: usize = 1 << 30;

fn sample(allocated: Option<usize>, now: u64) -> MemorySample {
    MemorySample {
        batch_memory_usage: Some(100),
        streaming_memory_usage: None,
        allocated_bytes: allocated,
        physical_now_ms: now,
    }
}

#[test]
fn barrier_interval_has_a_floor() {
    let m = GlobalMemoryManager::new(GIB, 0, MemoryControlPolicy::fixed_proportion(), 1000);
    assert_eq!(m.barrier_interval_ms, 10);
    let m = GlobalMemoryManager::new(GIB, 250, MemoryControlPolicy::fixed_proportion(), 1000);
    assert_eq!(m.barrier_interval_ms, 250);
    assert_eq!(m.get_watermark_epoch(), 0);
    assert_eq!(m.stats.lru_watermark_time_ms, 1000);
}

#[test]
fn pressure_sets_the_step() {
    let mut m = GlobalMemoryManager::new(1000, 100, MemoryControlPolicy::fixed_proportion(), 5000);
    let s = m.tick(sample(Some(500), 6000));
    assert_eq!(s.lru_watermark_step, 0);
    assert_eq!(s.lru_watermark_time_ms, 5000);
    let s = m.tick(sample(Some(800), 6000));
    assert_eq!(s.lru_watermark_step, 1);
    assert_eq!(s.lru_watermark_time_ms, 5100);
    let s = m.tick(sample(Some(950), 6000));
    assert_eq!(s.lru_watermark_step, 2);
    assert_eq!(s.lru_watermark_time_ms, 5300);
    assert_eq!(m.get_watermark_epoch(), 5300 * 65536);
    assert_eq!(s.batch_memory_usage, 100);
    assert_eq!(s.streaming_memory_usage, 0);
    assert_eq!(s.lru_physical_now_ms, 6000);
}

#[test]
fn watermark_never_passes_now_and_never_decreases() {
    let mut m = GlobalMemoryManager::new(1000, 1000, MemoryControlPolicy::fixed_proportion(), 5000);
    let s = m.tick(sample(Some(999), 5500));
    assert_eq!(s.lru_watermark_time_ms, 5500);
    let before = m.get_watermark_epoch();
    let s = m.tick(sample(Some(999), 4000));
    assert_eq!(s.lru_watermark_time_ms, 5500);
    assert!(m.get_watermark_epoch() >= before);
    let mut last = m.get_watermark_epoch();
    for (i, used) in [0usize, 950, 10, 800, 1000, 0].iter().enumerate() {
        m.tick(sample(Some(*used), 5500 + 700 * i as u64));
        assert!(m.get_watermark_epoch() >= last);
        last = m.get_watermark_epoch();
    }
}

#[test]
fn failed_sample_counts_as_zero() {
    let mut m = GlobalMemoryManager::new(1000, 100, MemoryControlPolicy::fixed_proportion(), 0);
    let s = m.tick(sample(None, 10));
    assert_eq!(s.lru_watermark_step, 0);
    assert_eq!(s.jemalloc_allocated_mib, 0);
    let s = m.tick(sample(Some(3 * 1024 * 1024 + 5), 10));
    assert_eq!(s.jemalloc_allocated_mib, 3);
}

#[test]
fn epoch_of_physical_time() {
    assert_eq!(epoch_from_physical_time(1), 65536);
    assert_eq!(epoch_from_physical_time(0), 0);
    assert_eq!(epoch_from_physical_time(u64::MAX), u64::MAX);
    assert_eq!(epoch_from_physical_time((1u64 << 48) - 1), ((1u64 << 48) - 1) << 16);
}
