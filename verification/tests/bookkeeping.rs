use riscv_vm::devices::sysinfo::{
    SysInfo, CPU_COUNT, DISK_TOTAL, DISK_USED, HEAP_USED, UPTIME,
};
use riscv_vm::engine::block::Block;
use riscv_vm::engine::microop::MicroOp;
use riscv_vm::jit::cache::{JitCache, JitFunction};
use riscv_vm::jit::disasm::{
    describe_microop, disassemble_block, format_instruction_short, log_jit_compilation,
    DisasmConfig,
};
use riscv_vm::jit::trace::{TraceBuffer, TraceEvent};
use riscv_vm::jit::types::{CompilationResult, JitConfig, JitRuntime};
use riscv_vm::jit::wasm_exports::{reconstruct_block, JitWorkerContext};
use riscv_vm::jit::worker::{CompileRequest, CompileResponse, CompileStatus, SerializedMicroOp};

fn function(size: usize) -> JitFunction {
    JitFunction {
        wasm_bytes: vec![0; size],
        wasm_size: size,
        exec_count: 0,
        pc: 0,
        instruction_count: 1,
    }
}

#[test]
fn the_cache_keeps_within_its_bytes() {
    let mut cache = JitCache::new(8, 250);
    for pc in 0..6 {
        cache.insert(pc, function(100));
        assert!(cache.contains(pc));
        assert!(cache.memory_usage() <= 250);
    }
    assert_eq!(cache.entry_count(), 2);
    assert_eq!(cache.stats().evictions, 4);
}

#[test]
fn lookups_keep_the_blocks() {
    let mut cache = JitCache::new(8, 1000);
    cache.insert(1, function(10));
    cache.insert(2, function(10));
    assert!(cache.get(3).is_none());
    assert!(cache.get_mut(1).is_some());
    let order: Vec<u64> = cache.iter().into_iter().map(|(pc, _)| *pc).collect();
    assert_eq!(order, vec![1, 2]);
    assert_eq!(cache.capacity(), 8);
    assert_eq!(cache.max_bytes(), 1000);
}

#[test]
fn flushing_keeps_the_blacklist() {
    let mut cache = JitCache::default();
    cache.insert(1, function(10));
    cache.blacklist(2);
    cache.flush();
    assert_eq!(cache.entry_count(), 0);
    assert!(cache.is_blacklisted(2));
    assert_eq!(cache.generation, 1);
}

fn enter(pc: u64) -> TraceEvent {
    TraceEvent::BlockEnter { pc, is_jit: true, exec_count: 1 }
}

#[test]
fn traces_hold_the_latest_events() {
    let mut buffer = TraceBuffer::new(2);
    buffer.enable();
    for pc in 0..5 {
        buffer.push(enter(pc));
        assert!(buffer.len() <= 2);
    }
    assert_eq!(buffer.events_for_pc(2).len(), 0);
    assert_eq!(buffer.events_for_pc(3).len(), 1);
    assert_eq!(buffer.events_for_pc(4).len(), 1);
    assert_eq!(buffer.sequence(), 5);
    buffer.disable();
    buffer.push(enter(9));
    assert_eq!(buffer.sequence(), 5);
}

/// A block of so many instructions.
fn block(pc: u64, len: usize) -> Block {
    let mut block = Block::new(pc, pc, 0);
    for _ in 0..len {
        block.push(MicroOp::Addi { rd: 1, rs1: 1, imm: 1 }, 4);
    }
    block.exec_count = 100;
    block
}

#[test]
fn refused_blocks_are_not_tried_again() {
    let mut runtime = JitRuntime::default();
    let mut refused = block(0x1000, 3);
    refused.push(MicroOp::Fence, 4);
    refused.push(MicroOp::Ecall { pc_offset: 16 }, 4);
    assert!(runtime.should_compile(&refused));
    assert!(runtime.try_compile(&refused).is_none());
    assert!(!runtime.should_compile(&refused));
    assert_eq!(runtime.diagnostics().total_failures, 0);
}

#[test]
fn failures_in_a_row_disable_the_compiler() {
    let mut runtime =
        JitRuntime::new(JitConfig { max_consecutive_failures: 2, ..JitConfig::default() });
    let error = CompilationResult::Error("broken".to_string());
    assert!(runtime.finish_compile(0x1000, error.clone(), 5).is_none());
    assert!(runtime.is_enabled());
    assert!(runtime.finish_compile(0x2000, error, 5).is_none());
    assert!(!runtime.is_enabled());
    assert_eq!(
        runtime.disabled_reason(),
        Some("2 consecutive failures (last at 0x2000)")
    );
    assert!(!runtime.should_compile(&block(0x3000, 10)));
    runtime.reenable();
    assert!(runtime.should_compile(&block(0x3000, 10)));
}

#[test]
fn compiled_blocks_are_counted() {
    let mut runtime = JitRuntime::default();
    let bytes = runtime.try_compile(&block(0x1000, 10)).unwrap();
    assert_eq!(&bytes[0..4], b"\x00asm");
    assert_eq!(runtime.diagnostics().successful_compilations, 1);
    let size = bytes.len();
    runtime.cache_mut().insert_bytes(0x1000, bytes);
    assert_eq!(runtime.diagnostics().cache_bytes, size);
    assert!(!runtime.should_compile(&block(0x1000, 10)));
}

#[test]
fn oversized_modules_are_failures() {
    let mut runtime = JitRuntime::new(JitConfig { max_wasm_size: 16, ..JitConfig::default() });
    assert!(runtime.try_compile(&block(0x1000, 10)).is_none());
    assert!(!runtime.cache().contains(0x1000));
    assert!(!runtime.should_compile(&block(0x1000, 10)));
}

#[test]
fn requests_keep_the_code() {
    let original = block(0x8000_0000, 5);
    let request = CompileRequest::from_block(&original);
    assert_eq!(request.byte_len, 20);
    let again = reconstruct_block(&request).unwrap();
    assert_eq!(again.len, original.len);
    assert_eq!(again.start_pc, original.start_pc);
    assert_eq!(again.byte_len, 20);
    for i in 0..5 {
        assert_eq!(again.ops[i], original.ops[i]);
    }
    let mut broken = request;
    broken.ops[2] = SerializedMicroOp { tag: 255, data: [0; 16] };
    assert!(reconstruct_block(&broken).is_none());
}

#[test]
fn workers_answer_requests() {
    let mut context = JitWorkerContext::new();
    let response = context.compile(&CompileRequest::from_block(&block(0x8000_0000, 5)));
    assert_eq!(response.pc, 0x8000_0000);
    assert_eq!(response.status, CompileStatus::Success);
    assert_eq!(&response.wasm_bytes[0..4], b"\x00asm");
    let response = context.compile(&CompileRequest::from_block(&block(0x8000_0000, 2)));
    assert_eq!(response.status, CompileStatus::Unsuitable);
    assert!(response.wasm_bytes.is_empty());
    let mut broken = CompileRequest::from_block(&block(0x8000_0000, 5));
    broken.ops[0] = SerializedMicroOp { tag: 255, data: [0; 16] };
    assert_eq!(context.compile(&broken).status, CompileStatus::Error);
    let mut strict = JitWorkerContext::new_with_config(6, false);
    let response = strict.compile(&CompileRequest::from_block(&block(0x8000_0000, 5)));
    assert_eq!(response.status, CompileStatus::Unsuitable);
    assert_eq!(JitWorkerContext::reject().status, CompileStatus::Error);
}

#[test]
fn responses_say_what_became_of_a_request() {
    let response = CompileResponse::success(7, vec![1, 2], 30);
    assert_eq!((response.pc, response.compile_time_us), (7, 30));
    assert_eq!(response.wasm_bytes, vec![1, 2]);
    assert_eq!(CompileResponse::unsuitable(7).status, CompileStatus::Unsuitable);
    assert_eq!(CompileResponse::error(7).status, CompileStatus::Error);
}

#[test]
fn packed_instructions_have_their_places() {
    let op = MicroOp::Beq { rs1: 1, rs2: 2, imm: -2, pc_offset: 0x1234, insn_len: 4 };
    let packed = SerializedMicroOp::from_microop(&op);
    assert_eq!(packed.to_microop(), Some(op));
    let other = MicroOp::Bne { rs1: 1, rs2: 2, imm: -2, pc_offset: 0x1234, insn_len: 4 };
    let different = SerializedMicroOp::from_microop(&other);
    assert_ne!(packed.tag, different.tag);
    assert_eq!(packed.data, different.data);
}

#[test]
fn registers_of_the_device_are_apart() {
    let mut device = SysInfo::new();
    device.store(DISK_USED, 8, 0x1_0000_0002);
    device.store(DISK_TOTAL, 8, 5);
    device.store(UPTIME, 8, 77);
    device.store(CPU_COUNT, 8, 3);
    assert_eq!(device.disk_usage(), (0x1_0000_0002, 5));
    assert_eq!(device.uptime_ms(), 77);
    assert_eq!(device.load(UPTIME, 8), 77);
    assert_eq!(device.load(DISK_USED, 4), 2);
    assert_eq!(device.load(DISK_USED + 4, 4), 1);
    assert_eq!(device.load(HEAP_USED, 8), 0);
    assert_eq!(device.load(0x800, 8), 0);
    assert_eq!(device.cpu_count(), 3);
}

#[test]
fn instructions_are_written_out() {
    assert_eq!(
        format_instruction_short(&MicroOp::Beq {
            rs1: 1,
            rs2: 2,
            imm: -8,
            pc_offset: 4,
            insn_len: 4
        }),
        "beq x1, x2, -8"
    );
    assert_eq!(format_instruction_short(&MicroOp::Sd { rs1: 2, rs2: 3, imm: -16, pc_offset: 0 }),
        "sd x3, -16(x2)");
    let op = MicroOp::Lui { rd: 5, imm: -4096 };
    assert_eq!(describe_microop(&op), format!("{:?}", op));
    let op = MicroOp::AmoAdd { rd: 6, rs1: 7, rs2: 8, is_word: true, pc_offset: 8 };
    assert_eq!(describe_microop(&op), format!("{:?}", op));
}

#[test]
fn compilations_are_logged_with_a_heading() {
    let config = DisasmConfig::default();
    let listing = disassemble_block(&block(0x8000_0000, 1), &[], &config);
    let heading = "═══ JIT: Block @ 0x0000000080000000 ═══\n";
    assert_eq!(
        log_jit_compilation(&block(0x8000_0000, 1), &[], &config),
        heading.to_string() + &listing
    );
}

#[test]
fn recent_events_are_listed() {
    let mut buffer = TraceBuffer::new(8);
    buffer.enable();
    buffer.push(enter(1));
    buffer.push(enter(0x8000_0000));
    assert_eq!(
        buffer.dump_recent(1),
        vec![
            "═══ Recent 1 JIT Events ═══".to_string(),
            "[   0] ENTER 0000000080000000 (JIT) count=1".to_string(),
        ]
    );
}

#[test]
fn listings_name_every_instruction() {
    let text = disassemble_block(&block(0x8000_0000, 3), &[0; 50], &DisasmConfig::default());
    let first = "
    ;; 0000000080000000: Addi { rd: 1, rs1: 1, imm: 1 }
    ;; x1 = x1 add 1
    (i64.load (i32.add (local.get $state_ptr) (i32.const 8)))  ;; load x1
    (i64.const 1)
    (i64.add)
    (i64.store (i32.add (local.get $state_ptr) (i32.const 8)))  ;; store x1
";
    assert!(text.contains(first), "{}", text);
    assert!(text.contains(";; 0000000080000008: Addi"), "{}", text);
    assert!(text.contains("    (i64.const 0x000000008000000c)  ;; next_pc\n"), "{}", text);
    assert!(text.contains("50 bytes WASM\n"), "{}", text);
    let bare = DisasmConfig { include_source: false, ..DisasmConfig::default() };
    let text = disassemble_block(&block(0x8000_0000, 3), &[0; 50], &bare);
    assert!(!text.contains("Addi"), "{}", text);
}

#[test]
fn the_cache_counts_what_leaves_for_want_of_room() {
    let mut cache = JitCache::new(2, 10000);
    for pc in [0x1000, 0x2000, 0x3000] {
        cache.insert(pc, function(100));
    }
    assert!(!cache.contains(0x1000));
    assert!(cache.contains(0x2000) && cache.contains(0x3000));
    assert_eq!(cache.memory_usage(), 200);
    assert_eq!(cache.stats().evictions, 1);
    // A block that is replaced makes room for itself.
    cache.insert(0x2000, function(50));
    assert_eq!((cache.entry_count(), cache.memory_usage()), (2, 150));
    assert_eq!(cache.stats().evictions, 1);
    cache.resize(1, 10000);
    assert_eq!((cache.entry_count(), cache.memory_usage()), (1, 50));
    assert_eq!(cache.stats().evictions, 2);
    cache.resize(0, 10);
    assert_eq!((cache.entry_count(), cache.memory_usage()), (0, 0));
    assert_eq!((cache.stats().evictions, cache.capacity()), (3, 1));
}

#[test]
fn events_are_found_by_their_address() {
    let mut buffer = TraceBuffer::new(10);
    buffer.enable();
    buffer.push(TraceEvent::CacheLookup { pc: 0x1000, hit: true });
    buffer.push(TraceEvent::InterruptExit { pc: 0x1000, instructions_executed: 3 });
    buffer.push(TraceEvent::Trap { pc: 0x1000, cause: 2, tval: 0 });
    buffer.push(TraceEvent::Trap { pc: 0x2000, cause: 2, tval: 0 });
    buffer.push(TraceEvent::CacheInvalidate { pc: Some(0x1000), reason: "write" });
    buffer.push(TraceEvent::CacheInvalidate { pc: None, reason: "flush" });
    let events = buffer.events_for_pc(0x1000);
    assert_eq!(events.len(), 4);
    assert!(matches!(events[0], TraceEvent::CacheLookup { .. }));
    assert!(matches!(events[1], TraceEvent::InterruptExit { .. }));
    assert!(matches!(events[2], TraceEvent::Trap { .. }));
    assert!(matches!(events[3], TraceEvent::CacheInvalidate { .. }));
}

#[test]
fn the_length_of_a_buffer_follows_its_count() {
    let mut buffer = TraceBuffer::new(2);
    let event = TraceEvent::CacheLookup { pc: 1, hit: false };
    buffer.push(event.clone());
    assert!(buffer.is_empty() && buffer.sequence() == 0);
    buffer.enable();
    for _ in 0..3 {
        buffer.push(event.clone());
    }
    assert_eq!((buffer.len(), buffer.sequence()), (2, 3));
    buffer.disable();
    buffer.push(event.clone());
    assert_eq!((buffer.len(), buffer.sequence()), (2, 3));
    buffer.clear();
    buffer.enable();
    buffer.push(event);
    assert_eq!((buffer.len(), buffer.sequence()), (1, 1));
}

#[test]
fn tags_tell_what_instructions_do() {
    let (rd, rs1, rs2, imm, pc_offset, insn_len) = (1, 2, 3, 4, 8, 4);
    let tag = |op: MicroOp| SerializedMicroOp::from_microop(&op).tag;
    assert_eq!(tag(MicroOp::Lb { rd, rs1, imm, pc_offset }), 40);
    assert_eq!(tag(MicroOp::Ld { rd, rs1, imm, pc_offset }), 46);
    assert_eq!(tag(MicroOp::Sb { rs1, rs2, imm, pc_offset }), 50);
    assert_eq!(tag(MicroOp::Sd { rs1, rs2, imm, pc_offset }), 53);
    assert_eq!(tag(MicroOp::Beq { rs1, rs2, imm, pc_offset, insn_len }), 60);
    assert_eq!(tag(MicroOp::Bgeu { rs1, rs2, imm, pc_offset, insn_len }), 65);
    assert_eq!(tag(MicroOp::Jal { rd, imm, pc_offset, insn_len }), 70);
    assert_eq!(tag(MicroOp::Jalr { rd, rs1, imm, pc_offset, insn_len }), 71);
    assert_eq!(tag(MicroOp::Csrrw { rd, rs1, csr: 1, pc_offset }), 80);
    assert_eq!(tag(MicroOp::Ecall { pc_offset }), 90);
    assert_eq!(tag(MicroOp::SfenceVma { pc_offset }), 95);
    assert_eq!(tag(MicroOp::LrW { rd, rs1, pc_offset }), 100);
    assert_eq!(tag(MicroOp::ScD { rd, rs1, rs2, pc_offset }), 103);
    assert_eq!(tag(MicroOp::AmoSwap { rd, rs1, rs2, is_word: true, pc_offset }), 110);
    assert_eq!(tag(MicroOp::AmoMaxu { rd, rs1, rs2, is_word: true, pc_offset }), 118);
    assert_eq!(tag(MicroOp::Lui { rd, imm }), 120);
    assert_eq!(tag(MicroOp::Auipc { rd, imm, pc_offset }), 121);
    assert_eq!(tag(MicroOp::Fence), 254);
}

#[test]
fn listings_give_the_place_of_an_instruction() {
    let mut block = Block::new(0x8000_0000, 0x8000_0000, 0);
    block.push(MicroOp::Addi { rd: 1, rs1: 0, imm: 1 }, 4);
    block.push(MicroOp::Ecall { pc_offset: 4 }, 4);
    let text = disassemble_block(&block, &[], &DisasmConfig::default());
    assert!(text.contains(";; JIT Block @ 0x0000000080000000"));
    assert!(text.contains(";; 2 instructions, 0 bytes WASM"));
    assert!(text.contains("ecall @ 0x80000004"));
    assert!(text.contains("(i64.const 0x80000004)  ;; PC of this instruction"));
}
