use riscv_vm::devices::sysinfo::{SysInfo, CPU_COUNT, HEAP_TOTAL, HEAP_USED};

#[test]
fn test_heap_usage() {
    let mut sysinfo = SysInfo::new();

    // Write heap stats (64-bit writes at aligned offsets)
    sysinfo.store(HEAP_USED, 8, 1024 * 1024); // 1MB used
    sysinfo.store(HEAP_TOTAL, 8, 16 * 1024 * 1024); // 16MB total

    let (used, total) = sysinfo.heap_usage();
    assert_eq!(used, 1024 * 1024);
    assert_eq!(total, 16 * 1024 * 1024);
}

#[test]
fn test_32bit_writes() {
    let mut sysinfo = SysInfo::new();

    // Write 64-bit value as two 32-bit parts
    let value: u64 = 0x1234_5678_9ABC_DEF0;
    sysinfo.store(HEAP_USED, 4, value & 0xFFFF_FFFF);
    sysinfo.store(0x04, 4, value >> 32);

    let (used, _) = sysinfo.heap_usage();
    assert_eq!(used, value);
}

#[test]
fn test_cpu_count() {
    let mut sysinfo = SysInfo::new();

    sysinfo.store(CPU_COUNT, 4, 4);
    assert_eq!(sysinfo.cpu_count(), 4);
}
