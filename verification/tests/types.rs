use riscv_vm::engine::block::Block;
use riscv_vm::engine::microop::MicroOp;
use riscv_vm::jit::types::{JitConfig, JitRuntime};

/// Create a test block with the given parameters.
fn make_test_block(start_pc: u64, len: u8, exec_count: u32) -> Block {
    let mut block = Block::new(start_pc, start_pc, 0);
    block.len = len;
    block.exec_count = exec_count;
    // Fill with NOPs (ADDI x0, x0, 0)
    for i in 0..len as usize {
        block.ops[i] = MicroOp::Lui { rd: 0, imm: 0 };
    }
    block
}

#[test]
fn test_jit_config_defaults() {
    let config = JitConfig::default();

    assert!(config.enabled);
    assert_eq!(config.tier1_threshold, 50);
    assert_eq!(config.min_block_size, 4);
    assert_eq!(config.max_block_size, 256);
    assert_eq!(config.max_wasm_size, 64 * 1024);
    assert_eq!(config.max_cache_size, 1024);
    assert_eq!(config.cache_max_bytes, 16 * 1024 * 1024);
    assert!(!config.debug_wat);
    assert!(!config.trace_enabled);
    assert_eq!(config.max_consecutive_failures, 10);
    assert_eq!(config.max_total_failures, 100);
    assert!(config.blacklist.is_empty());
}

#[test]
fn test_jit_runtime_new() {
    let runtime = JitRuntime::default();

    assert!(runtime.is_enabled());
    assert!(!runtime.is_disabled_by_error());
    assert!(runtime.disabled_reason().is_none());
    assert_eq!(runtime.failed_blocks_count(), 0);

    let diag = runtime.diagnostics();
    assert!(diag.enabled);
    assert!(!diag.disabled_by_error);
    assert_eq!(diag.consecutive_failures, 0);
    assert_eq!(diag.total_failures, 0);
    assert_eq!(diag.successful_compilations, 0);
}

#[test]
fn test_should_compile_disabled() {
    let mut config = JitConfig::default();
    config.enabled = false;
    let runtime = JitRuntime::new(config);

    let block = make_test_block(0x1000, 10, 100);
    assert!(!runtime.should_compile(&block));
}

#[test]
fn test_should_compile_threshold_not_met() {
    let runtime = JitRuntime::default();

    // exec_count below threshold (default 50)
    let block = make_test_block(0x1000, 10, 10);
    assert!(!runtime.should_compile(&block));
}

#[test]
fn test_should_compile_threshold_met() {
    let runtime = JitRuntime::default();

    // exec_count meets threshold
    let block = make_test_block(0x1000, 10, 50);
    assert!(runtime.should_compile(&block));
}

#[test]
fn test_should_compile_block_too_small() {
    let runtime = JitRuntime::default();

    // Block too small (default min is 4)
    let block = make_test_block(0x1000, 2, 100);
    assert!(!runtime.should_compile(&block));
}

#[test]
fn test_should_compile_block_too_large() {
    let mut config = JitConfig::default();
    config.max_block_size = 10;
    let runtime = JitRuntime::new(config);

    // Block too large
    let block = make_test_block(0x1000, 20, 100);
    assert!(!runtime.should_compile(&block));
}

#[test]
fn test_should_compile_blacklisted() {
    let mut config = JitConfig::default();
    config.blacklist.push(0x1000);
    let runtime = JitRuntime::new(config);

    let block = make_test_block(0x1000, 10, 100);
    assert!(!runtime.should_compile(&block));
}

#[test]
fn test_failed_blocks_blacklisted() {
    let mut runtime = JitRuntime::default();

    // Simulate a compilation failure by manually adding to failed_blocks
    runtime.failed_blocks.insert(0x1000);

    let block = make_test_block(0x1000, 10, 100);
    assert!(!runtime.should_compile(&block));
}

#[test]
fn test_reenable_clears_failed_blocks() {
    let mut runtime = JitRuntime::default();

    // Simulate failures
    runtime.failed_blocks.insert(0x1000);
    runtime.failed_blocks.insert(0x2000);
    runtime.disabled_by_error = true;
    runtime.disabled_reason = Some("test".to_string());

    // Now re-enable
    runtime.reenable();

    assert!(!runtime.is_disabled_by_error());
    assert!(runtime.disabled_reason().is_none());
    assert_eq!(runtime.failed_blocks_count(), 0);

    // Should now be able to compile the previously failed block
    let block = make_test_block(0x1000, 10, 100);
    assert!(runtime.should_compile(&block));
}

#[test]
fn test_reset_errors() {
    let mut runtime = JitRuntime::default();

    // Simulate failures
    runtime.consecutive_failures = 5;
    runtime.total_failures = 50;
    runtime.disabled_by_error = true;
    runtime.disabled_reason = Some("test".to_string());
    runtime.failed_blocks.insert(0x1000);

    // Reset all errors
    runtime.reset_errors();

    assert_eq!(runtime.consecutive_failures, 0);
    assert_eq!(runtime.total_failures, 0);
    assert!(!runtime.is_disabled_by_error());
    assert!(runtime.disabled_reason().is_none());
    assert_eq!(runtime.failed_blocks_count(), 0);
}

#[test]
fn test_disable_after_consecutive_failures() {
    let mut config = JitConfig::default();
    config.max_consecutive_failures = 3;
    let mut runtime = JitRuntime::new(config);

    // Simulate consecutive failures
    for i in 0..3 {
        runtime.handle_compilation_error(0x1000 + i * 0x100, 1000);
    }

    assert!(runtime.is_disabled_by_error());
    assert!(runtime.disabled_reason().unwrap().contains("consecutive"));
}

#[test]
fn test_disable_after_total_failures() {
    let mut config = JitConfig::default();
    config.max_consecutive_failures = 100; // Won't trigger
    config.max_total_failures = 5;
    let mut runtime = JitRuntime::new(config);

    // Simulate total failures (with successful compilations in between)
    for i in 0..5 {
        runtime.handle_compilation_error(0x1000 + i * 0x100, 1000);
        // Reset consecutive (simulating a success)
        runtime.consecutive_failures = 0;
    }

    assert!(runtime.is_disabled_by_error());
    assert!(runtime.disabled_reason().unwrap().contains("total"));
}

#[test]
fn test_consecutive_failures_reset_on_success() {
    let mut runtime = JitRuntime::default();

    // Simulate some failures
    runtime.consecutive_failures = 5;
    runtime.total_failures = 5;

    // Simulate a successful compilation
    runtime.consecutive_failures = 0;
    runtime.successful_compilations += 1;

    assert_eq!(runtime.consecutive_failures, 0);
    // Total failures should persist
    assert_eq!(runtime.total_failures, 5);
}

#[test]
fn test_handle_code_modification() {
    let mut runtime = JitRuntime::default();

    // Insert a cached entry
    let pc = 0x1000u64;
    runtime
        .cache
        .insert_bytes(pc, vec![0, 97, 115, 109, 1, 0, 0, 0]); // WASM magic

    assert!(runtime.cache.contains(pc));

    // Simulate code modification in that region
    runtime.handle_code_modification(pc, 4);

    // Entry should be invalidated
    assert!(!runtime.cache.contains(pc));
}

#[test]
fn test_handle_tlb_flush() {
    let mut runtime = JitRuntime::default();

    // Insert some cached entries
    runtime
        .cache
        .insert_bytes(0x1000, vec![0, 97, 115, 109, 1, 0, 0, 0]);
    runtime
        .cache
        .insert_bytes(0x2000, vec![0, 97, 115, 109, 1, 0, 0, 0]);

    assert_eq!(runtime.cache.entry_count(), 2);

    // TLB flush should clear everything
    runtime.handle_tlb_flush();

    assert_eq!(runtime.cache.entry_count(), 0);
}

#[test]
fn test_diagnostics() {
    let mut runtime = JitRuntime::default();

    // Simulate some state
    runtime.successful_compilations = 10;
    runtime.total_failures = 2;
    runtime.consecutive_failures = 1;
    runtime.failed_blocks.insert(0x1000);

    let diag = runtime.diagnostics();

    assert!(diag.enabled);
    assert!(!diag.disabled_by_error);
    assert!(diag.disabled_reason.is_none());
    assert_eq!(diag.successful_compilations, 10);
    assert_eq!(diag.total_failures, 2);
    assert_eq!(diag.consecutive_failures, 1);
    assert_eq!(diag.failed_blocks_count, 1);
}

#[test]
fn test_diagnostics_structure() {
    let runtime = JitRuntime::default();
    let diag = runtime.diagnostics();

    // Test that all diagnostic fields are accessible
    assert!(diag.enabled);
    assert!(!diag.disabled_by_error);
    assert!(diag.disabled_reason.is_none());
    assert_eq!(diag.consecutive_failures, 0);
    assert_eq!(diag.total_failures, 0);
    assert_eq!(diag.successful_compilations, 0);
    assert_eq!(diag.failed_blocks_count, 0);
    assert_eq!(diag.cache_entries, 0);
    assert_eq!(diag.cache_bytes, 0);
    // CacheStats should be accessible
    assert_eq!(diag.cache_stats.hits, 0);
    assert_eq!(diag.cache_stats.misses, 0);
    // TraceStats should be accessible
    assert_eq!(diag.trace_stats.jit_executions, 0);
}

#[test]
fn test_try_compile_unsuitable_blacklists() {
    let mut runtime = JitRuntime::default();

    // Create a block with only 1 op (below min_block_size)
    // This will return Unsuitable
    let block = make_test_block(0x1000, 1, 100);

    // Force min_block_size to 0 so the block passes initial checks
    runtime.config.min_block_size = 0;

    // The compiler should still return Unsuitable for tiny blocks
    // and the block should be blacklisted
    let result = runtime.try_compile(&block);

    // Either it compiles or it's blacklisted
    if result.is_none() {
        // The block should be blacklisted now
        assert!(runtime.failed_blocks.contains(&0x1000));
        // Unsupported ops don't count as errors
        assert_eq!(runtime.total_failures, 0);
    }
}

#[test]
fn test_config_accessors() {
    let mut runtime = JitRuntime::default();

    // Test config accessor
    assert!(runtime.config().enabled);

    // Test mutable config accessor
    runtime.config_mut().enabled = false;
    assert!(!runtime.config().enabled);
}

#[test]
fn test_cache_accessors() {
    let mut runtime = JitRuntime::default();

    // Test cache accessor
    assert_eq!(runtime.cache().entry_count(), 0);

    // Test mutable cache accessor
    runtime
        .cache_mut()
        .insert_bytes(0x1000, vec![0, 97, 115, 109, 1, 0, 0, 0]);
    assert_eq!(runtime.cache().entry_count(), 1);
}

#[test]
fn test_trace_accessors() {
    let mut config = JitConfig::default();
    config.trace_enabled = true;
    let mut runtime = JitRuntime::new(config);

    // Test trace accessor
    assert!(runtime.trace().is_enabled());

    // Test mutable trace accessor
    runtime.trace_mut().disable();
    assert!(!runtime.trace().is_enabled());
}

#[test]
fn test_wasm_size_limit() {
    let mut config = JitConfig::default();
    config.max_wasm_size = 100; // Very small limit
    let mut runtime = JitRuntime::new(config);

    // Create a large block that will compile to > 100 bytes
    let block = make_test_block(0x1000, 50, 100);

    // This should fail due to WASM size limit
    let result = runtime.try_compile(&block);

    // The large module should be rejected
    if result.is_none() {
        // The block should be blacklisted
        assert!(runtime.failed_blocks.contains(&0x1000));
    }
}
