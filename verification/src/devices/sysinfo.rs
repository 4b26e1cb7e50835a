//! The system information device: a kernel writes metrics to its registers and the host
//! reads them.
//!
//! | Offset | Register   | Bits             |
//! |--------|------------|------------------|
//! | 0x00   | HEAP_USED  | 64               |
//! | 0x08   | HEAP_TOTAL | 64               |
//! | 0x10   | DISK_USED  | 64               |
//! | 0x18   | DISK_TOTAL | 64               |
//! | 0x20   | CPU_COUNT  | 32, and padding  |
//! | 0x28   | UPTIME     | 64, milliseconds |

use vstd::prelude::*;

verus! {

/// The address of the device.
pub const SYSINFO_BASE: u64 = 0x0011_0000;

/// The size of the device's registers in memory.
pub const SYSINFO_SIZE: u64 = 0x1000;

pub const HEAP_USED: u64 = 0x00;

pub const HEAP_TOTAL: u64 = 0x08;

pub const DISK_USED: u64 = 0x10;

pub const DISK_TOTAL: u64 = 0x18;

pub const CPU_COUNT: u64 = 0x20;

pub const UPTIME: u64 = 0x28;

/// What the registers hold.
#[derive(Debug, Clone, Copy, PartialEq, Eq, Structural)]
pub struct Metrics {
    pub heap_used: u64,
    pub heap_total: u64,
    pub disk_used: u64,
    pub disk_total: u64,
    pub cpu_count: u32,
    pub uptime_ms: u64,
}

/// The system information device.
pub struct SysInfo {
    metrics: Metrics,
}

/// `current` with its low half replaced.
pub open spec fn with_low(current: u64, value: u64) -> u64 {
    (current & 0xffff_ffff_0000_0000) | (value & 0xffff_ffff)
}

/// `current` with its high half replaced.
pub open spec fn with_high(current: u64, value: u64) -> u64 {
    (current & 0x0000_0000_ffff_ffff) | ((value & 0xffff_ffff) << 32)
}

fn set_low(current: u64, value: u64) -> (r: u64)
    ensures
        r == with_low(current, value),
{
    (current & 0xffff_ffff_0000_0000) | (value & 0xffff_ffff)
}

fn set_high(current: u64, value: u64) -> (r: u64)
    ensures
        r == with_high(current, value),
{
    (current & 0x0000_0000_ffff_ffff) | ((value & 0xffff_ffff) << 32)
}

/// What a load of `size` bytes at `offset` gives; zero where no register answers.
pub open spec fn loaded(m: Metrics, offset: u64, size: u64) -> u64 {
    match (offset, size) {
        (0x00, 4) => m.heap_used as u32 as u64,
        (0x04, 4) => m.heap_used >> 32,
        (0x00, 8) => m.heap_used,
        (0x08, 4) => m.heap_total as u32 as u64,
        (0x0c, 4) => m.heap_total >> 32,
        (0x08, 8) => m.heap_total,
        (0x10, 4) => m.disk_used as u32 as u64,
        (0x14, 4) => m.disk_used >> 32,
        (0x10, 8) => m.disk_used,
        (0x18, 4) => m.disk_total as u32 as u64,
        (0x1c, 4) => m.disk_total >> 32,
        (0x18, 8) => m.disk_total,
        (0x20, 4) => m.cpu_count as u64,
        (0x20, 8) => m.cpu_count as u64,
        (0x28, 4) => m.uptime_ms as u32 as u64,
        (0x2c, 4) => m.uptime_ms >> 32,
        (0x28, 8) => m.uptime_ms,
        _ => 0,
    }
}

/// The registers after a store of `size` bytes at `offset`; they stay as they are where
/// none answers.
pub open spec fn stored(m: Metrics, offset: u64, size: u64, value: u64) -> Metrics {
    match (offset, size) {
        (0x00, 4) => Metrics { heap_used: with_low(m.heap_used, value), ..m },
        (0x04, 4) => Metrics { heap_used: with_high(m.heap_used, value), ..m },
        (0x00, 8) => Metrics { heap_used: value, ..m },
        (0x08, 4) => Metrics { heap_total: with_low(m.heap_total, value), ..m },
        (0x0c, 4) => Metrics { heap_total: with_high(m.heap_total, value), ..m },
        (0x08, 8) => Metrics { heap_total: value, ..m },
        (0x10, 4) => Metrics { disk_used: with_low(m.disk_used, value), ..m },
        (0x14, 4) => Metrics { disk_used: with_high(m.disk_used, value), ..m },
        (0x10, 8) => Metrics { disk_used: value, ..m },
        (0x18, 4) => Metrics { disk_total: with_low(m.disk_total, value), ..m },
        (0x1c, 4) => Metrics { disk_total: with_high(m.disk_total, value), ..m },
        (0x18, 8) => Metrics { disk_total: value, ..m },
        (0x20, 4) => Metrics { cpu_count: value as u32, ..m },
        (0x20, 8) => Metrics { cpu_count: value as u32, ..m },
        (0x28, 4) => Metrics { uptime_ms: with_low(m.uptime_ms, value), ..m },
        (0x2c, 4) => Metrics { uptime_ms: with_high(m.uptime_ms, value), ..m },
        (0x28, 8) => Metrics { uptime_ms: value, ..m },
        _ => m,
    }
}

impl View for SysInfo {
    type V = Metrics;

    closed spec fn view(&self) -> Metrics {
        self.metrics
    }
}

impl Default for SysInfo {
    fn default() -> (device: Self)
        ensures
            device@ == no_metrics(),
    {
        Self::new()
    }
}

/// The registers of a new device: one hart, and all else zero.
pub open spec fn no_metrics() -> Metrics {
    Metrics {
        heap_used: 0,
        heap_total: 0,
        disk_used: 0,
        disk_total: 0,
        cpu_count: 1,
        uptime_ms: 0,
    }
}

impl SysInfo {
    pub fn new() -> (device: Self)
        ensures
            device@ == no_metrics(),
    {
        Self {
            metrics: Metrics {
                heap_used: 0,
                heap_total: 0,
                disk_used: 0,
                disk_total: 0,
                cpu_count: 1,
                uptime_ms: 0,
            },
        }
    }

    /// Bytes of heap used, and in all.
    pub fn heap_usage(&self) -> (usage: (u64, u64))
        ensures
            usage == (self@.heap_used, self@.heap_total),
    {
        (self.metrics.heap_used, self.metrics.heap_total)
    }

    /// Bytes of disk used, and in all.
    pub fn disk_usage(&self) -> (usage: (u64, u64))
        ensures
            usage == (self@.disk_used, self@.disk_total),
    {
        (self.metrics.disk_used, self.metrics.disk_total)
    }

    pub fn cpu_count(&self) -> (count: u32)
        ensures
            count == self@.cpu_count,
    {
        self.metrics.cpu_count
    }

    pub fn uptime_ms(&self) -> (uptime: u64)
        ensures
            uptime == self@.uptime_ms,
    {
        self.metrics.uptime_ms
    }

    /// Loads from a register.
    pub fn load(&self, offset: u64, size: u64) -> (value: u64)
        ensures
            value == loaded(self@, offset, size),
    {
        let m = self.metrics;
        match (offset, size) {
            (0x00, 4) => m.heap_used as u32 as u64,
            (0x04, 4) => m.heap_used >> 32,
            (0x00, 8) => m.heap_used,
            (0x08, 4) => m.heap_total as u32 as u64,
            (0x0c, 4) => m.heap_total >> 32,
            (0x08, 8) => m.heap_total,
            (0x10, 4) => m.disk_used as u32 as u64,
            (0x14, 4) => m.disk_used >> 32,
            (0x10, 8) => m.disk_used,
            (0x18, 4) => m.disk_total as u32 as u64,
            (0x1c, 4) => m.disk_total >> 32,
            (0x18, 8) => m.disk_total,
            (0x20, 4) => m.cpu_count as u64,
            (0x20, 8) => m.cpu_count as u64,
            (0x28, 4) => m.uptime_ms as u32 as u64,
            (0x2c, 4) => m.uptime_ms >> 32,
            (0x28, 8) => m.uptime_ms,
            _ => 0,
        }
    }

    /// Stores to a register.
    pub fn store(&mut self, offset: u64, size: u64, value: u64)
        ensures
            final(self)@ == stored(old(self)@, offset, size, value),
    {
        let m = self.metrics;
        match (offset, size) {
            (0x00, 4) => {
                self.metrics.heap_used = set_low(m.heap_used, value);
            },
            (0x04, 4) => {
                self.metrics.heap_used = set_high(m.heap_used, value);
            },
            (0x00, 8) => {
                self.metrics.heap_used = value;
            },
            (0x08, 4) => {
                self.metrics.heap_total = set_low(m.heap_total, value);
            },
            (0x0c, 4) => {
                self.metrics.heap_total = set_high(m.heap_total, value);
            },
            (0x08, 8) => {
                self.metrics.heap_total = value;
            },
            (0x10, 4) => {
                self.metrics.disk_used = set_low(m.disk_used, value);
            },
            (0x14, 4) => {
                self.metrics.disk_used = set_high(m.disk_used, value);
            },
            (0x10, 8) => {
                self.metrics.disk_used = value;
            },
            (0x18, 4) => {
                self.metrics.disk_total = set_low(m.disk_total, value);
            },
            (0x1c, 4) => {
                self.metrics.disk_total = set_high(m.disk_total, value);
            },
            (0x18, 8) => {
                self.metrics.disk_total = value;
            },
            (0x20, 4) => {
                self.metrics.cpu_count = value as u32;
            },
            (0x20, 8) => {
                self.metrics.cpu_count = value as u32;
            },
            (0x28, 4) => {
                self.metrics.uptime_ms = set_low(m.uptime_ms, value);
            },
            (0x2c, 4) => {
                self.metrics.uptime_ms = set_high(m.uptime_ms, value);
            },
            (0x28, 8) => {
                self.metrics.uptime_ms = value;
            },
            _ => {},
        }
    }
}

/// Whether a register of 64 bits is at `offset`.
pub open spec fn is_wide(offset: u64) -> bool {
    offset == HEAP_USED || offset == HEAP_TOTAL || offset == DISK_USED || offset == DISK_TOTAL
        || offset == UPTIME
}

/// A wide register gives back what was stored in it.
pub proof fn law_load_after_store(m: Metrics, offset: u64, value: u64)
    requires
        is_wide(offset),
    ensures
        loaded(stored(m, offset, 8, value), offset, 8) == value,
{
}

/// Storing the two halves of a value, in either order, stores the value.
pub proof fn law_two_halves_make_a_value(m: Metrics, offset: u64, value: u64)
    requires
        is_wide(offset),
    ensures
        stored(
            stored(m, offset, 4, value & 0xffff_ffff),
            (offset + 4) as u64,
            4,
            value >> 32,
        ) == stored(m, offset, 8, value),
        stored(
            stored(m, (offset + 4) as u64, 4, value >> 32),
            offset,
            4,
            value & 0xffff_ffff,
        ) == stored(m, offset, 8, value),
{
    assert forall|current: u64|
        #[trigger] with_high(with_low(current, value & 0xffff_ffff), value >> 32) == value
            && with_low(with_high(current, value >> 32), value & 0xffff_ffff) == value by {
        lemma_halves(current, value);
    }
    assert forall|current: u64|
        #[trigger] with_low(with_high(current, value >> 32), value & 0xffff_ffff) == value by {
        lemma_halves(current, value);
    }
}

proof fn lemma_halves(current: u64, value: u64)
    ensures
        with_high(with_low(current, value & 0xffff_ffff), value >> 32) == value,
        with_low(with_high(current, value >> 32), value & 0xffff_ffff) == value,
{
    lemma_half_bits(current, value);
}

proof fn lemma_half_bits(current: u64, value: u64)
    by (bit_vector)
    ensures
        (((current & 0xffff_ffff_0000_0000) | ((value & 0xffff_ffff) & 0xffff_ffff))
            & 0x0000_0000_ffff_ffff) | (((value >> 32) & 0xffff_ffff) << 32) == value,
        (((current & 0x0000_0000_ffff_ffff) | (((value >> 32) & 0xffff_ffff) << 32))
            & 0xffff_ffff_0000_0000) | ((value & 0xffff_ffff) & 0xffff_ffff) == value,
        value == (value as u32 as u64) + (value >> 32) * 0x1_0000_0000,
        with_low(current, value) as u32 as u64 == value % 0x1_0000_0000,
        with_low(current, value) >> 32 == current >> 32,
        with_high(current, value) >> 32 == value % 0x1_0000_0000,
        with_high(current, value) as u32 as u64 == current as u32 as u64,
{
}

/// The halves of a wide register can be read one by one.
pub proof fn law_halves_can_be_read(m: Metrics, offset: u64)
    requires
        is_wide(offset),
    ensures
        loaded(m, offset, 8) == loaded(m, offset, 4) + loaded(m, (offset + 4) as u64, 4)
            * 0x1_0000_0000,
{
    let value = loaded(m, offset, 8);
    lemma_half_bits(0, value);
}

/// A store to one register leaves the others alone.
pub proof fn law_registers_are_apart(m: Metrics, offset: u64, other: u64, value: u64)
    requires
        is_wide(offset) || offset == CPU_COUNT,
        is_wide(other) || other == CPU_COUNT,
        offset != other,
    ensures
        loaded(stored(m, offset, 8, value), other, 8) == loaded(m, other, 8),
{
}

/// Each register shows its number: the heap in use and as a whole, then the disk, the
/// processors and the uptime.
pub proof fn law_registers_show_the_metrics(m: Metrics)
    ensures
        loaded(m, 0x00, 8) == m.heap_used,
        loaded(m, 0x08, 8) == m.heap_total,
        loaded(m, 0x10, 8) == m.disk_used,
        loaded(m, 0x18, 8) == m.disk_total,
        loaded(m, 0x20, 8) == m.cpu_count,
        loaded(m, 0x20, 4) == m.cpu_count,
        loaded(m, 0x28, 8) == m.uptime_ms,
{
}

/// A store to a wide register changes its number alone, and one to the number of processors
/// keeps 32 bits.
pub proof fn law_stores_change_one_metric(m: Metrics, value: u64)
    ensures
        stored(m, 0x00, 8, value) == (Metrics { heap_used: value, ..m }),
        stored(m, 0x08, 8, value) == (Metrics { heap_total: value, ..m }),
        stored(m, 0x10, 8, value) == (Metrics { disk_used: value, ..m }),
        stored(m, 0x18, 8, value) == (Metrics { disk_total: value, ..m }),
        stored(m, 0x28, 8, value) == (Metrics { uptime_ms: value, ..m }),
        stored(m, 0x20, 8, value) == (Metrics {
            cpu_count: (value % 0x1_0000_0000) as u32,
            ..m
        }),
        stored(m, 0x20, 4, value) == stored(m, 0x20, 8, value),
{
    crate::meaning::lemma_casts(value, 0);
}

/// Half of a wide register can be stored alone, and the other half stays.
pub proof fn law_halves_are_apart(m: Metrics, offset: u64, value: u64)
    requires
        is_wide(offset),
    ensures
        ({
            let high = (offset + 4) as u64;
            let low_stored = stored(m, offset, 4, value);
            let high_stored = stored(m, high, 4, value);
            &&& loaded(low_stored, offset, 4) == value % 0x1_0000_0000
            &&& loaded(low_stored, high, 4) == loaded(m, high, 4)
            &&& loaded(high_stored, high, 4) == value % 0x1_0000_0000
            &&& loaded(high_stored, offset, 4) == loaded(m, offset, 4)
        }),
{
    assert forall|current: u64| #![trigger with_low(current, value)]
        (with_low(current, value) as u32) as u64 == value % 0x1_0000_0000 && with_low(
            current,
            value,
        ) >> 32 == current >> 32 by {
        lemma_half_bits(current, value);
    }
    assert forall|current: u64| #![trigger with_high(current, value)]
        with_high(current, value) >> 32 == value % 0x1_0000_0000 && (with_high(
            current,
            value,
        ) as u32) as u64 == (current as u32) as u64 by {
        lemma_half_bits(current, value);
    }
}

/// Where no register is, and in other sizes, loads give zero and stores do nothing.
pub proof fn law_nothing_elsewhere(m: Metrics, offset: u64, size: u64, value: u64)
    requires
        (size != 4 && size != 8) || offset % 4 != 0 || offset >= 0x30 || (size == 8 && offset % 8
            != 0) || offset == 0x24,
    ensures
        loaded(m, offset, size) == 0,
        stored(m, offset, size, value) == m,
{
}

} // verus!
