use riscv_vm::vm::bus::{Bus, DRAM_BASE, DRAM_SIZE, STATS_MMIO_BASE, UART_BASE};
use riscv_vm::vm::cpu::Cpu;
use riscv_vm::vm::dram::{Dram, MemoryError};
use riscv_vm::vm::loader::{load_elf_segments, try_load_image, LoadError, Segment, PT_LOAD};
use riscv_vm::vm::machine::WasmVm;

/// The bytes of a program.
fn code(words: &[u32]) -> Vec<u8> {
    let mut out = Vec::new();
    for word in words {
        out.extend_from_slice(&word.to_le_bytes());
    }
    out
}

/// A hart with two values in `x1` and `x2`.
fn hart(a: u64, b: u64) -> Cpu {
    let mut cpu = Cpu::new(Bus::new());
    cpu.regs[1] = a;
    cpu.regs[2] = b;
    cpu
}

/// What `x3` holds after the register instruction with these function fields.
fn computed(funct7: u32, funct3: u32, opcode: u32, a: u64, b: u64) -> u64 {
    let mut cpu = hart(a, b);
    let inst = (funct7 << 25) | (2 << 20) | (1 << 15) | (funct3 << 12) | (3 << 7) | opcode;
    cpu.execute(inst).expect("instruction failed");
    cpu.read_reg(3)
}

#[test]
fn loads_give_what_was_stored() {
    let mut bus = Bus::new();
    let value = 0x1122_3344_5566_7788;
    bus.store(DRAM_BASE + 16, 8, value).unwrap();
    assert_eq!(bus.load(DRAM_BASE + 16, 8), Ok(value));
    assert_eq!(bus.load(DRAM_BASE + 16, 4), Ok(0x5566_7788));
    assert_eq!(bus.load(DRAM_BASE + 20, 2), Ok(0x3344));
    bus.store(DRAM_BASE + 17, 1, 0xabcd).unwrap();
    assert_eq!(bus.load(DRAM_BASE + 16, 4), Ok(0x5566_cd88));
}

#[test]
fn stores_leave_other_addresses_alone() {
    let mut bus = Bus::new();
    bus.store(DRAM_BASE, 4, 0xdead_beef).unwrap();
    bus.store(DRAM_BASE + 4, 4, 0x0bad_cafe).unwrap();
    assert_eq!(bus.load(DRAM_BASE, 4), Ok(0xdead_beef));
}

#[test]
fn accesses_beyond_memory_are_refused() {
    let mut bus = Bus::new();
    assert_eq!(bus.load(0x1000, 4), Err(MemoryError::OutOfBounds(0x1000)));
    let end = DRAM_BASE + DRAM_SIZE;
    assert_eq!(bus.load(end - 2, 4), Err(MemoryError::OutOfBounds(end - 2)));
    assert_eq!(bus.store(end, 1, 0), Err(MemoryError::OutOfBounds(end)));
    assert_eq!(bus.load(UART_BASE, 4), Err(MemoryError::InvalidAlignment(0)));
}

#[test]
fn memory_errors_are_sentences() {
    assert_eq!(MemoryError::OutOfBounds(0x1000).message(), "Address out of bounds: 0x1000");
    assert_eq!(
        MemoryError::InvalidAlignment(3).message(),
        "Invalid alignment for address: 0x3"
    );
}

#[test]
fn memory_is_filled_and_written() {
    let mut dram = Dram::new(8);
    dram.fill(2, 3, 0x5a).unwrap();
    assert_eq!(dram.load_64(0), Ok(0x0000_005a_5a5a_0000));
    dram.write_bytes(6, &[1, 2]).unwrap();
    assert_eq!(dram.load_16(6), Ok(0x0201));
    assert_eq!(dram.write_bytes(7, &[1, 2]), Err(MemoryError::OutOfBounds(7)));
    assert_eq!(dram.fill(9, 0, 1), Ok(()));
}

#[test]
fn serial_input_comes_in_order() {
    let mut bus = Bus::new();
    bus.uart.push_input(b'a');
    bus.uart.push_input(b'b');
    assert_eq!(bus.load(UART_BASE, 1), Ok(b'a' as u64));
    assert_eq!(bus.load(UART_BASE, 1), Ok(b'b' as u64));
    assert_eq!(bus.load(UART_BASE, 1), Ok(0));
}

#[test]
fn programs_report_their_memory() {
    let mut bus = Bus::new();
    bus.store(STATS_MMIO_BASE, 8, 0x1_0000_0001).unwrap();
    assert_eq!(bus.used_memory, 0x1_0000_0001);
    bus.store(STATS_MMIO_BASE, 4, 0x1_0000_0001).unwrap();
    assert_eq!(bus.load(STATS_MMIO_BASE, 8), Ok(1));
}

#[test]
fn multiplications_and_divisions() {
    assert_eq!(computed(1, 0, 0x33, 7, 6), 42);
    assert_eq!(computed(1, 3, 0x33, u64::MAX, 2), 1);
    assert_eq!(computed(1, 4, 0x33, (-7i64) as u64, 2), (-3i64) as u64);
    assert_eq!(computed(1, 5, 0x33, 7, 2), 3);
    assert_eq!(computed(1, 6, 0x33, (-7i64) as u64, 2), (-1i64) as u64);
    assert_eq!(computed(1, 7, 0x33, 7, 2), 1);
}

#[test]
fn divisions_by_zero_have_results() {
    assert_eq!(computed(1, 4, 0x33, 5, 0), u64::MAX);
    assert_eq!(computed(1, 5, 0x33, 5, 0), u64::MAX);
    assert_eq!(computed(1, 6, 0x33, 5, 0), 5);
    assert_eq!(computed(1, 7, 0x33, 5, 0), 5);
    assert_eq!(computed(1, 4, 0x33, i64::MIN as u64, u64::MAX), i64::MIN as u64);
    assert_eq!(computed(1, 6, 0x33, i64::MIN as u64, u64::MAX), 0);
}

#[test]
fn word_instructions_extend_the_sign() {
    assert_eq!(computed(0, 0, 0x3b, 0x7fff_ffff, 1), 0xffff_ffff_8000_0000);
    assert_eq!(computed(0x20, 5, 0x3b, 0x8000_0000, 4), 0xffff_ffff_f800_0000);
}

#[test]
fn register_zero_stays_zero() {
    let mut cpu = hart(5, 6);
    // add x0, x1, x2
    cpu.execute((2 << 20) | (1 << 15) | 0x33).unwrap();
    assert_eq!(cpu.regs[0], 0);
    assert_eq!(cpu.read_reg(0), 0);
}

#[test]
fn a_failing_instruction_changes_nothing() {
    let mut cpu = hart(0x10, 3);
    // sw x2, 0(x1): there is no memory at 0x10
    let inst = (2 << 20) | (1 << 15) | (2 << 12) | 0x23;
    assert!(cpu.execute(inst).is_err());
    assert_eq!(cpu.pc, DRAM_BASE);
    assert_eq!(cpu.regs[1], 0x10);
    assert_eq!(cpu.csrs[0xc00], 0);
}

#[test]
fn runs_can_be_split() {
    let program = code(&[0x0010_0093, 0x0010_8093, 0x0010_8093, 0x0010_8093]);
    let mut whole = WasmVm::new(&program).unwrap();
    assert_eq!(whole.run(4), Ok(4));
    let mut split = WasmVm::new(&program).unwrap();
    assert_eq!(split.run(1), Ok(1));
    assert_eq!(split.run(3), Ok(3));
    assert_eq!(whole.get_reg(1), 4);
    assert_eq!(split.get_reg(1), 4);
    assert_eq!(whole.get_pc(), DRAM_BASE + 16);
    assert_eq!(split.get_pc(), DRAM_BASE + 16);
    assert_eq!(split.get_cpu_cycles(), 4);
    assert_eq!(split.get_reg(32), 0);
    assert_eq!(split.get_total_memory(), DRAM_SIZE);
}

#[test]
fn a_failing_run_names_the_step() {
    // addi x1, x0, 1, and then sd x0, 0(x1)
    let mut vm = WasmVm::new(&code(&[0x0010_0093, 0x0000_b023])).unwrap();
    let error = vm.run(5).unwrap_err();
    assert!(error.starts_with("CPU error at step 1: "), "{}", error);
    assert_eq!(vm.get_cpu_cycles(), 1);
}

#[test]
fn programs_talk_over_the_serial_port() {
    // lui x1, 0x10000; lb x2, 0(x1); addi x2, x2, 1; sb x2, 0(x1)
    let program = code(&[0x1000_00b7, 0x0000_8103, 0x0011_0113, 0x0020_8023]);
    let mut vm = WasmVm::new(&program).unwrap();
    vm.input(b'A');
    assert_eq!(vm.run(4), Ok(4));
    assert_eq!(vm.get_output(), Some(b'B'));
    assert_eq!(vm.get_output(), None);
}

/// An ELF file for RISC-V with the given program headers, whose bytes start at 0x1000.
fn elf(headers: &[(u32, u64, u64, u64, u64, u64)], body: &[u8]) -> Vec<u8> {
    let mut out = vec![0x7f, b'E', b'L', b'F', 2, 1, 1, 0, 0, 0, 0, 0, 0, 0, 0, 0];
    out.extend_from_slice(&2u16.to_le_bytes());
    out.extend_from_slice(&243u16.to_le_bytes());
    out.extend_from_slice(&1u32.to_le_bytes());
    out.extend_from_slice(&DRAM_BASE.to_le_bytes());
    let at: u64 = if headers.is_empty() { 0 } else { 64 };
    out.extend_from_slice(&at.to_le_bytes());
    out.extend_from_slice(&0u64.to_le_bytes());
    out.extend_from_slice(&0u32.to_le_bytes());
    for field in [64u16, 56, headers.len() as u16, 64, 0, 0] {
        out.extend_from_slice(&field.to_le_bytes());
    }
    for (kind, offset, vaddr, paddr, filesz, memsz) in headers {
        out.extend_from_slice(&kind.to_le_bytes());
        out.extend_from_slice(&5u32.to_le_bytes());
        for field in [offset, vaddr, paddr, filesz, memsz, &0x1000] {
            out.extend_from_slice(&field.to_le_bytes());
        }
    }
    out.resize(0x1000, 0);
    out.extend_from_slice(body);
    out
}

#[test]
fn elf_segments_are_loaded() {
    let image = elf(
        &[
            (PT_LOAD, 0x1000, 0, DRAM_BASE, 4, 8),
            (4, 0x1000, 0, DRAM_BASE + 0x200, 4, 4),
            (PT_LOAD, 0x1004, DRAM_BASE + 0x100, 0, 2, 2),
        ],
        &[1, 2, 3, 4, 5, 6],
    );
    let mut bus = Bus::new();
    bus.store(DRAM_BASE + 4, 4, 0xffff_ffff).unwrap();
    assert!(matches!(try_load_image(&mut bus, &image), Some(Ok(()))));
    assert_eq!(bus.load(DRAM_BASE, 8), Ok(0x0403_0201));
    assert_eq!(bus.load(DRAM_BASE + 0x100, 2), Ok(0x0605));
    assert_eq!(bus.load(DRAM_BASE + 0x200, 4), Ok(0));
}

#[test]
fn images_that_are_no_elf_files_are_copied() {
    let mut bus = Bus::new();
    assert!(matches!(try_load_image(&mut bus, &[0x7f, b'E', b'L', b'X']), Some(Ok(()))));
    assert_eq!(bus.load(DRAM_BASE, 4), Ok(0x584c_457f));
}

#[test]
fn broken_elf_files_are_refused() {
    let mut bus = Bus::new();
    match try_load_image(&mut bus, &[0x7f, b'E', b'L', b'F', 9]) {
        Some(Err(LoadError::Elf(_))) => {}
        other => panic!("{:?}", other),
    }
    let error = WasmVm::new(&[0x7f, b'E', b'L', b'F', 9]).err().unwrap();
    assert!(!error.is_empty());
}

#[test]
fn elf_files_without_headers_are_refused() {
    let image = elf(&[], &[]);
    let mut bus = Bus::new();
    assert!(matches!(
        try_load_image(&mut bus, &image),
        Some(Err(LoadError::MissingProgramHeaders))
    ));
    assert_eq!(WasmVm::new(&image).err().unwrap(), "ELF file is missing program headers");
}

#[test]
fn segments_outside_memory_are_refused() {
    let image = elf(&[(PT_LOAD, 0x1000, 0x1000, 0, 4, 4)], &[1, 2, 3, 4]);
    let mut bus = Bus::new();
    match try_load_image(&mut bus, &image) {
        Some(Err(LoadError::Memory(e))) => assert_eq!(e, MemoryError::OutOfBounds(0x1000)),
        other => panic!("{:?}", other),
    }
    assert_eq!(WasmVm::new(&image).err().unwrap(), "Address out of bounds: 0x1000");
}

#[test]
fn segments_past_the_end_of_the_image_are_noticed() {
    let image = elf(&[(PT_LOAD, 0x1000, 0, DRAM_BASE, 400, 400)], &[1, 2, 3, 4]);
    assert!(WasmVm::try_new(&image).is_none());
    assert!(try_load_image(&mut Bus::new(), &image).is_none());
}

#[test]
fn segment_ranges_that_wrap_are_refused() {
    let segment = Segment {
        p_type: PT_LOAD,
        p_offset: u64::MAX,
        p_vaddr: 0,
        p_paddr: DRAM_BASE,
        p_filesz: 2,
        p_memsz: 2,
    };
    let mut bus = Bus::new();
    let error = load_elf_segments(&mut bus, &[0; 8], &[segment]).unwrap_err();
    assert!(matches!(error, LoadError::RangeOverflow));
    assert_eq!(error.message(), "ELF segment range overflow");
    assert_eq!(
        LoadError::FieldTooLarge.message(),
        "out of range integral type conversion attempted"
    );
}

#[test]
fn registers_are_listed() {
    let text = hart(0xabc, 0).dump_regs();
    assert!(text.starts_with("PC: 0x80000000\nx0: 0x0\nx1: 0xabc\nx2: 0x0\n"), "{}", text);
    assert!(text.ends_with("x30: 0x0\nx31: 0x0\n"), "{}", text);
    assert_eq!(text.lines().count(), 33);
}

#[test]
fn high_products_know_signs() {
    let mut cpu = hart(u64::MAX, 1);
    assert_eq!(cpu.execute(0x0220_91b3), Ok(()));
    assert_eq!(cpu.regs[3], u64::MAX);
    let minus_two = -2i64 as u64;
    assert_eq!(computed(1, 1, 0x33, minus_two, minus_two), 0);
    assert_eq!(computed(1, 1, 0x33, i64::MIN as u64, 2), u64::MAX);
    assert_eq!(computed(1, 2, 0x33, u64::MAX, u64::MAX), u64::MAX);
    assert_eq!(computed(1, 2, 0x33, 2, u64::MAX), 1);
    assert_eq!(computed(1, 3, 0x33, u64::MAX, u64::MAX), u64::MAX - 1);
}

#[test]
fn the_statistics_register_takes_any_size() {
    let mut bus = Bus::new();
    for size in [0, 1, 4, 7] {
        assert_eq!(bus.store(STATS_MMIO_BASE, size, 0x1_2345_6789), Ok(()));
        assert_eq!(bus.load(STATS_MMIO_BASE, 8), Ok(0x2345_6789));
    }
    for size in [8, 9, u64::MAX - 0x2000_0000, u64::MAX] {
        assert_eq!(bus.store(STATS_MMIO_BASE, size, 0x1_2345_6789), Ok(()));
        assert_eq!(bus.load(STATS_MMIO_BASE, 4), Ok(0x1_2345_6789));
    }
}

#[test]
fn output_leaves_in_order() {
    let mut bus = Bus::new();
    for value in [0x141, 0x42, 0x43] {
        bus.store(UART_BASE, 1, value).unwrap();
    }
    assert_eq!(bus.uart.pop_output(), Some(0x41));
    assert_eq!(bus.uart.pop_output(), Some(0x42));
    assert_eq!(bus.uart.pop_output(), Some(0x43));
    assert_eq!(bus.uart.pop_output(), None);
}
