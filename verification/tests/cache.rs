use riscv_vm::jit::cache::{CacheStats, JitCache, JitFunction};

/// The part of the lookups that found something.
fn hit_ratio(stats: &CacheStats) -> f64 {
    let total = stats.hits + stats.misses;
    if total == 0 {
        0.0
    } else {
        stats.hits as f64 / total as f64
    }
}

fn make_test_func(size: usize, pc: u64) -> JitFunction {
    JitFunction {
        wasm_bytes: vec![0; size],
        wasm_size: size,
        exec_count: 0,
        pc,
        instruction_count: 1,
    }
}

#[test]
fn test_basic_insert_get() {
    let mut cache = JitCache::new(10, 10000);

    let func = make_test_func(100, 0x1000);
    cache.insert(0x1000, func);

    assert!(cache.contains(0x1000));
    assert!(cache.get(0x1000).is_some());
    assert_eq!(cache.entry_count(), 1);
}

#[test]
fn test_lru_eviction_by_count() {
    let mut cache = JitCache::new(2, 10000);

    cache.insert(0x1000, make_test_func(100, 0x1000));
    cache.insert(0x2000, make_test_func(100, 0x2000));
    cache.insert(0x3000, make_test_func(100, 0x3000)); // Evicts 0x1000

    assert!(!cache.contains(0x1000));
    assert!(cache.contains(0x2000));
    assert!(cache.contains(0x3000));
}

#[test]
fn test_eviction_by_bytes() {
    let mut cache = JitCache::new(100, 500);

    cache.insert(0x1000, make_test_func(200, 0x1000));
    cache.insert(0x2000, make_test_func(200, 0x2000));
    cache.insert(0x3000, make_test_func(200, 0x3000)); // Evicts 0x1000 to make room

    assert!(!cache.contains(0x1000));
    assert!(cache.memory_usage() <= 500);
}

#[test]
fn test_invalidate_range() {
    let mut cache = JitCache::new(10, 10000);

    cache.insert(0x1000, make_test_func(100, 0x1000));
    cache.insert(0x1100, make_test_func(100, 0x1100));
    cache.insert(0x2000, make_test_func(100, 0x2000));

    let count = cache.invalidate_range(0x1000, 0x1200);

    assert_eq!(count, 2);
    assert!(!cache.contains(0x1000));
    assert!(!cache.contains(0x1100));
    assert!(cache.contains(0x2000));
}

#[test]
fn test_lru_order_updates_on_get() {
    let mut cache = JitCache::new(3, 10000);

    cache.insert(0x1000, make_test_func(100, 0x1000));
    cache.insert(0x2000, make_test_func(100, 0x2000));
    cache.insert(0x3000, make_test_func(100, 0x3000));

    // Access 0x1000, making it most recent
    let _ = cache.get(0x1000);

    // Insert a new entry, should evict 0x2000 (now LRU)
    cache.insert(0x4000, make_test_func(100, 0x4000));

    assert!(cache.contains(0x1000)); // Still present (was accessed)
    assert!(!cache.contains(0x2000)); // Evicted
    assert!(cache.contains(0x3000));
    assert!(cache.contains(0x4000));
}

#[test]
fn test_peek_does_not_update_lru() {
    let mut cache = JitCache::new(3, 10000);

    cache.insert(0x1000, make_test_func(100, 0x1000));
    cache.insert(0x2000, make_test_func(100, 0x2000));
    cache.insert(0x3000, make_test_func(100, 0x3000));

    // Peek at 0x1000 (should NOT update LRU order)
    let _ = cache.peek(0x1000);

    // Insert a new entry, should evict 0x1000 (still LRU)
    cache.insert(0x4000, make_test_func(100, 0x4000));

    assert!(!cache.contains(0x1000)); // Evicted (peek didn't save it)
    assert!(cache.contains(0x2000));
    assert!(cache.contains(0x3000));
    assert!(cache.contains(0x4000));
}

#[test]
fn test_statistics() {
    let mut cache = JitCache::new(10, 10000);

    cache.insert(0x1000, make_test_func(100, 0x1000));
    cache.insert(0x2000, make_test_func(100, 0x2000));

    // Hits
    let _ = cache.get(0x1000);
    let _ = cache.get(0x2000);

    // Miss
    let _ = cache.get(0x3000);

    let stats = cache.stats();
    assert_eq!(stats.insertions, 2);
    assert_eq!(stats.hits, 2);
    assert_eq!(stats.misses, 1);
    assert_eq!(stats.bytes_compiled, 200);

    // Check backward-compatible aliases
    assert_eq!(stats.blocks_compiled, 2);
    assert_eq!(stats.cache_hits, 2);
    assert_eq!(stats.cache_misses, 1);
}

#[test]
fn test_hit_ratio() {
    let mut cache = JitCache::new(10, 10000);

    cache.insert(0x1000, make_test_func(100, 0x1000));

    // 3 hits
    let _ = cache.get(0x1000);
    let _ = cache.get(0x1000);
    let _ = cache.get(0x1000);

    // 1 miss
    let _ = cache.get(0x2000);

    assert!((hit_ratio(cache.stats()) - 0.75).abs() < f64::EPSILON);
}

#[test]
fn test_memory_tracking() {
    let mut cache = JitCache::new(100, 10000);

    cache.insert(0x1000, make_test_func(100, 0x1000));
    assert_eq!(cache.memory_usage(), 100);

    cache.insert(0x2000, make_test_func(200, 0x2000));
    assert_eq!(cache.memory_usage(), 300);

    cache.invalidate(0x1000);
    assert_eq!(cache.memory_usage(), 200);

    cache.clear();
    assert_eq!(cache.memory_usage(), 0);
}

#[test]
fn test_invalidate_page() {
    let mut cache = JitCache::new(10, 10000);

    // Page 1 (0x1000-0x1FFF)
    cache.insert(0x1000, make_test_func(100, 0x1000));
    cache.insert(0x1500, make_test_func(100, 0x1500));
    // Page 2 (0x2000-0x2FFF)
    cache.insert(0x2000, make_test_func(100, 0x2000));

    let count = cache.invalidate_page(0x1234); // Should invalidate page 1

    assert_eq!(count, 2);
    assert!(!cache.contains(0x1000));
    assert!(!cache.contains(0x1500));
    assert!(cache.contains(0x2000));
}

#[test]
fn test_resize_smaller() {
    let mut cache = JitCache::new(10, 10000);

    for i in 0..5 {
        cache.insert(i * 0x1000, make_test_func(100, i * 0x1000));
    }

    assert_eq!(cache.entry_count(), 5);

    // Resize to smaller capacity
    cache.resize(3, 10000);

    assert_eq!(cache.entry_count(), 3);
    // Should keep the 3 most recent
}

#[test]
fn test_resize_byte_limit() {
    let mut cache = JitCache::new(100, 1000);

    cache.insert(0x1000, make_test_func(300, 0x1000));
    cache.insert(0x2000, make_test_func(300, 0x2000));
    cache.insert(0x3000, make_test_func(300, 0x3000));

    assert_eq!(cache.memory_usage(), 900);

    // Resize to smaller byte limit
    cache.resize(100, 500);

    assert!(cache.memory_usage() <= 500);
}

#[test]
fn test_recompilation_replaces_entry() {
    let mut cache = JitCache::new(10, 10000);

    cache.insert(0x1000, make_test_func(100, 0x1000));
    assert_eq!(cache.memory_usage(), 100);

    // Re-insert with different size (recompilation)
    cache.insert(0x1000, make_test_func(200, 0x1000));
    assert_eq!(cache.memory_usage(), 200);
    assert_eq!(cache.entry_count(), 1);
}

#[test]
fn test_most_least_recent() {
    let mut cache = JitCache::new(10, 10000);

    cache.insert(0x1000, make_test_func(100, 0x1000));
    cache.insert(0x2000, make_test_func(100, 0x2000));
    cache.insert(0x3000, make_test_func(100, 0x3000));

    assert_eq!(*cache.most_recent().unwrap().0, 0x3000);
    assert_eq!(*cache.least_recent().unwrap().0, 0x1000);

    // Access 0x1000, making it most recent
    let _ = cache.get(0x1000);

    assert_eq!(*cache.most_recent().unwrap().0, 0x1000);
    assert_eq!(*cache.least_recent().unwrap().0, 0x2000);
}

#[test]
fn test_compiling_state() {
    let mut cache = JitCache::new(10, 10000);

    assert!(!cache.is_compiling(0x1000));

    cache.mark_compiling(0x1000);
    assert!(cache.is_compiling(0x1000));

    // Insert clears compiling state
    cache.insert(0x1000, make_test_func(100, 0x1000));
    assert!(!cache.is_compiling(0x1000));
}

#[test]
fn test_blacklist() {
    let mut cache = JitCache::new(10, 10000);

    assert!(!cache.is_blacklisted(0x1000));

    cache.blacklist(0x1000);
    assert!(cache.is_blacklisted(0x1000));

    // Blacklist persists across flush
    cache.flush();
    assert!(cache.is_blacklisted(0x1000));

    // But can be cleared explicitly
    cache.clear_blacklist();
    assert!(!cache.is_blacklisted(0x1000));
}

#[test]
fn test_flush_increments_generation() {
    let mut cache = JitCache::new(10, 10000);

    assert_eq!(cache.generation, 0);

    cache.insert(0x1000, make_test_func(100, 0x1000));
    cache.flush();

    assert_eq!(cache.generation, 1);
    assert!(!cache.contains(0x1000));
}
