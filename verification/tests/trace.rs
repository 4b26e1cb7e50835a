use riscv_vm::jit::trace::{Quotients, TraceBuffer, TraceEvent, TraceStats};

/// A part of a total, 0 of nothing.
fn part(n: u64, total: u64) -> f64 {
    if total == 0 {
        0.0
    } else {
        n as f64 / total as f64
    }
}

/// The quotients of a summary.
fn quotients(stats: &TraceStats) -> Quotients {
    Quotients {
        jit_percent: format!("{:.1}", jit_ratio(stats) * 100.0),
        compile_time: format!("{:.1}", avg_compile_time_us(stats)),
        wasm_size: format!("{:.0}", avg_wasm_size(stats)),
        hit_percent: format!("{:.1}", cache_hit_ratio(stats) * 100.0),
    }
}

fn jit_ratio(stats: &TraceStats) -> f64 {
    part(stats.jit_executions, stats.jit_executions + stats.interp_executions)
}

fn cache_hit_ratio(stats: &TraceStats) -> f64 {
    part(stats.cache_hits, stats.cache_hits + stats.cache_misses)
}

fn avg_compile_time_us(stats: &TraceStats) -> f64 {
    part(stats.total_compile_time_us, stats.compilations)
}

fn avg_wasm_size(stats: &TraceStats) -> f64 {
    part(stats.total_wasm_bytes as u64, stats.compilations)
}

#[test]
fn test_trace_buffer_capacity() {
    let mut buffer = TraceBuffer::new(3);
    buffer.enable();

    // Push 5 events into buffer of capacity 3
    for i in 0..5 {
        buffer.push(TraceEvent::BlockEnter {
            pc: i as u64 * 0x100,
            is_jit: false,
            exec_count: i,
        });
    }

    // Should only contain last 3 events
    assert_eq!(buffer.len(), 3);

    let pcs: Vec<u64> = buffer
        .iter()
        .into_iter()
        .filter_map(|e| match e {
            TraceEvent::BlockEnter { pc, .. } => Some(*pc),
            _ => None,
        })
        .collect();

    assert_eq!(pcs, vec![0x200, 0x300, 0x400]);
}

#[test]
fn test_trace_buffer_disabled() {
    let mut buffer = TraceBuffer::new(10);
    // Buffer is disabled by default

    buffer.push(TraceEvent::BlockEnter {
        pc: 0x1000,
        is_jit: true,
        exec_count: 1,
    });

    assert!(buffer.is_empty());
    assert_eq!(buffer.sequence(), 0);
}

#[test]
fn test_trace_buffer_enable_disable() {
    let mut buffer = TraceBuffer::new(10);

    buffer.enable();
    assert!(buffer.is_enabled());

    buffer.push(TraceEvent::BlockEnter {
        pc: 0x1000,
        is_jit: true,
        exec_count: 1,
    });
    assert_eq!(buffer.len(), 1);

    buffer.disable();
    assert!(!buffer.is_enabled());

    buffer.push(TraceEvent::BlockEnter {
        pc: 0x2000,
        is_jit: true,
        exec_count: 2,
    });
    // Should still be 1 since we disabled
    assert_eq!(buffer.len(), 1);
}

#[test]
fn test_trace_stats_calculation() {
    let mut buffer = TraceBuffer::new(100);
    buffer.enable();

    // Add some JIT executions
    for _ in 0..10 {
        buffer.push(TraceEvent::BlockEnter {
            pc: 0x1000,
            is_jit: true,
            exec_count: 1,
        });
    }

    // Add some interpreted executions
    for _ in 0..5 {
        buffer.push(TraceEvent::BlockEnter {
            pc: 0x2000,
            is_jit: false,
            exec_count: 1,
        });
    }

    // Add compilations
    buffer.push(TraceEvent::JitCompileEnd {
        pc: 0x1000,
        wasm_size: 1000,
        time_us: 500,
        success: true,
    });
    buffer.push(TraceEvent::JitCompileEnd {
        pc: 0x2000,
        wasm_size: 2000,
        time_us: 700,
        success: true,
    });
    buffer.push(TraceEvent::JitCompileEnd {
        pc: 0x3000,
        wasm_size: 0,
        time_us: 100,
        success: false,
    });

    // Add cache events
    for _ in 0..8 {
        buffer.push(TraceEvent::CacheLookup { pc: 0x1000, hit: true });
    }
    for _ in 0..2 {
        buffer.push(TraceEvent::CacheLookup {
            pc: 0x2000,
            hit: false,
        });
    }

    let stats = buffer.stats();

    assert_eq!(stats.jit_executions, 10);
    assert_eq!(stats.interp_executions, 5);
    assert_eq!(stats.compilations, 2);
    assert_eq!(stats.compilation_failures, 1);
    assert_eq!(stats.total_wasm_bytes, 3000);
    assert_eq!(stats.total_compile_time_us, 1200);
    assert_eq!(stats.cache_hits, 8);
    assert_eq!(stats.cache_misses, 2);

    // Test ratios
    let jit_ratio = jit_ratio(&stats);
    assert!((jit_ratio - 0.666666).abs() < 0.001);

    let cache_ratio = cache_hit_ratio(&stats);
    assert!((cache_ratio - 0.8).abs() < 0.001);

    let avg_compile = avg_compile_time_us(&stats);
    assert!((avg_compile - 600.0).abs() < 0.001);

    let avg_size = avg_wasm_size(&stats);
    assert!((avg_size - 1500.0).abs() < 0.001);
}

#[test]
fn test_events_for_pc() {
    let mut buffer = TraceBuffer::new(100);
    buffer.enable();

    let target_pc = 0x80001000u64;

    buffer.push(TraceEvent::BlockEnter {
        pc: target_pc,
        is_jit: true,
        exec_count: 1,
    });
    buffer.push(TraceEvent::BlockEnter {
        pc: 0x80002000,
        is_jit: false,
        exec_count: 1,
    });
    buffer.push(TraceEvent::JitCompileStart {
        pc: target_pc,
        ops: 10,
    });
    buffer.push(TraceEvent::Trap {
        pc: target_pc,
        cause: 2,
        tval: 0,
    });
    buffer.push(TraceEvent::CacheLookup {
        pc: 0x80003000,
        hit: true,
    });

    let events = buffer.events_for_pc(target_pc);
    assert_eq!(events.len(), 3);
}

#[test]
fn test_filter() {
    let mut buffer = TraceBuffer::new(100);
    buffer.enable();

    buffer.push(TraceEvent::Trap {
        pc: 0x1000,
        cause: 2,
        tval: 0,
    });
    buffer.push(TraceEvent::BlockEnter {
        pc: 0x2000,
        is_jit: true,
        exec_count: 1,
    });
    buffer.push(TraceEvent::Trap {
        pc: 0x3000,
        cause: 5,
        tval: 0x100,
    });

    let traps = buffer.filter(|e| matches!(e, TraceEvent::Trap { .. }));
    assert_eq!(traps.len(), 2);
}

#[test]
fn test_clear() {
    let mut buffer = TraceBuffer::new(10);
    buffer.enable();

    for i in 0..5 {
        buffer.push(TraceEvent::BlockEnter {
            pc: i * 0x100,
            is_jit: false,
            exec_count: i as u32,
        });
    }

    assert_eq!(buffer.len(), 5);
    assert_eq!(buffer.sequence(), 5);

    buffer.clear();

    assert!(buffer.is_empty());
    assert_eq!(buffer.sequence(), 0);
}

#[test]
fn test_stats_format() {
    let stats = TraceStats {
        jit_executions: 1000,
        interp_executions: 500,
        compilations: 50,
        compilation_failures: 2,
        total_wasm_bytes: 250000,
        total_compile_time_us: 25000,
        traps: 3,
        invalidations: 10,
        cache_hits: 950,
        cache_misses: 50,
        interrupt_exits: 100,
    };

    let formatted = stats.format(&quotients(&stats));
    assert!(formatted.contains("JIT Stats:"));
    assert!(formatted.contains("1000 JIT"));
    assert!(formatted.contains("500 interp"));
    assert!(formatted.contains("66.7% JIT"));
}

#[test]
fn test_trace_stats_default() {
    let stats = TraceStats::default();

    assert_eq!(stats.jit_executions, 0);
    assert_eq!(stats.interp_executions, 0);
    assert_eq!(jit_ratio(&stats), 0.0);
    assert_eq!(cache_hit_ratio(&stats), 0.0);
    assert_eq!(avg_compile_time_us(&stats), 0.0);
    assert_eq!(avg_wasm_size(&stats), 0.0);
}
