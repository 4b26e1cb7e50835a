//! Putting a program image into main memory.

use crate::vm::bus;
use crate::vm::bus::{Bus, BusState, DRAM_BASE, DRAM_SIZE};
use crate::vm::dram;
use crate::vm::dram::MemoryError;
use elf::endian::LittleEndian;
use elf::ElfBytes;
use vstd::prelude::*;
use vstd::string::StringExecFns;

verus! {

/// The segment type of what is to be loaded.
pub const PT_LOAD: u32 = 1;

/// What the loader reads of a program header.
#[derive(Debug, Clone, Copy, PartialEq, Eq, Structural)]
pub struct Segment {
    pub p_type: u32,
    pub p_offset: u64,
    pub p_vaddr: u64,
    pub p_paddr: u64,
    pub p_filesz: u64,
    pub p_memsz: u64,
}

/// The error of the `elf` crate.
#[verifier::external_type_specification]
#[verifier::external_body]
pub struct ExParseError(elf::ParseError);

/// Why an image could not be loaded.
#[derive(Debug)]
pub enum LoadError {
    /// The image starts like an ELF file and is none.
    Elf(elf::ParseError),
    /// The ELF file has no program headers.
    MissingProgramHeaders,
    /// A program header holds a number that the machine cannot address.
    FieldTooLarge,
    /// The file range of a segment wraps around.
    RangeOverflow,
    /// A segment does not lie in main memory.
    Memory(MemoryError),
}

/// A `LoadError` without what only the `elf` crate knows.
pub enum LoadFailure {
    Elf,
    MissingProgramHeaders,
    FieldTooLarge,
    RangeOverflow,
    Memory(MemoryError),
}

pub open spec fn failure(e: LoadError) -> LoadFailure {
    match e {
        LoadError::Elf(_) => LoadFailure::Elf,
        LoadError::MissingProgramHeaders => LoadFailure::MissingProgramHeaders,
        LoadError::FieldTooLarge => LoadFailure::FieldTooLarge,
        LoadError::RangeOverflow => LoadFailure::RangeOverflow,
        LoadError::Memory(m) => LoadFailure::Memory(m),
    }
}

/// A load result, its error seen as a `LoadFailure`.
pub open spec fn seen(r: Result<(), LoadError>) -> Result<(), LoadFailure> {
    match r {
        Ok(_) => Ok(()),
        Err(e) => Err(failure(e)),
    }
}

/// The program headers of a little-endian ELF file: `None` where the `elf` crate
/// refuses the bytes, `Some(None)` where the file has no program header table.
pub uninterp spec fn elf_segments(image: Seq<u8>) -> Option<Option<Seq<Segment>>>;

/// Calls `ElfBytes::minimal_parse`, and `segments` and `iter` on what it gives,
/// and copies the fields of each program header. It claims that whether the bytes
/// are accepted, and which headers come out, depends on the bytes alone. Nothing is
/// claimed of which error comes where the bytes are refused: the fields of some
/// errors depend on the width of the machine's `usize`.
#[verifier::external_body]
fn parse_segments(image: &[u8]) -> (r: Result<Option<Vec<Segment>>, elf::ParseError>)
    ensures
        match r {
            Ok(Some(list)) => elf_segments(image@) == Some(Some(list@)),
            Ok(None) => elf_segments(image@) == Some(None::<Seq<Segment>>),
            Err(_) => elf_segments(image@) is None,
        },
{
    let file = ElfBytes::<LittleEndian>::minimal_parse(image)?;
    Ok(file.segments().map(|table| table.iter().map(|p| Segment {
        p_type: p.p_type,
        p_offset: p.p_offset,
        p_vaddr: p.p_vaddr,
        p_paddr: p.p_paddr,
        p_filesz: p.p_filesz,
        p_memsz: p.p_memsz,
    }).collect()))
}

/// The sentence that the `Display` impl of `elf::ParseError` writes. Nothing is
/// claimed of it.
#[verifier::external_body]
fn parse_error_text(e: &elf::ParseError) -> (s: String)
{
    format!("{}", e)
}

/// The sentence that `LoadError::message` gives, where this library writes it.
pub open spec fn load_failure_text(e: LoadFailure) -> Option<Seq<char>> {
    match e {
        LoadFailure::Elf => None,
        LoadFailure::MissingProgramHeaders => Some("ELF file is missing program headers"@),
        LoadFailure::FieldTooLarge => Some("out of range integral type conversion attempted"@),
        LoadFailure::RangeOverflow => Some("ELF segment range overflow"@),
        LoadFailure::Memory(m) => Some(dram::memory_error_text(m)),
    }
}

impl LoadError {
    /// The error as a sentence.
    pub fn message(&self) -> (s: String)
        ensures
            load_failure_text(failure(*self)) is Some ==> s@ == load_failure_text(
                failure(*self),
            )->0,
    {
        match self {
            LoadError::Elf(e) => parse_error_text(e),
            LoadError::MissingProgramHeaders => String::from_str(
                "ELF file is missing program headers",
            ),
            LoadError::FieldTooLarge => String::from_str(
                "out of range integral type conversion attempted",
            ),
            LoadError::RangeOverflow => String::from_str("ELF segment range overflow"),
            LoadError::Memory(m) => m.message(),
        }
    }
}

/// Whether the image starts with the magic number of an ELF file.
pub open spec fn has_elf_magic(image: Seq<u8>) -> bool {
    image.len() >= 4 && image[0] == 0x7f && image[1] == 0x45 && image[2] == 0x4c && image[3] == 0x46
}

/// Where a segment is loaded: at its physical address, or at its virtual address
/// where the physical one is 0.
pub open spec fn load_address(seg: Segment) -> u64 {
    if seg.p_paddr != 0 {
        seg.p_paddr
    } else {
        seg.p_vaddr
    }
}

/// Whether the file range of a segment reaches past the end of the image.
pub open spec fn overruns(seg: Segment, image: Seq<u8>) -> bool {
    &&& seg.p_type == PT_LOAD
    &&& seg.p_offset + seg.p_filesz <= usize::MAX
    &&& seg.p_offset + seg.p_filesz > image.len()
}

/// The devices after one segment: its bytes of the file, and zeros for what it has
/// more in memory than in the file. Segments of other types are passed over.
pub open spec fn segment_loaded(s: BusState, image: Seq<u8>, seg: Segment) -> (
    BusState,
    Result<(), LoadFailure>,
) {
    if seg.p_type != PT_LOAD {
        (s, Ok(()))
    } else if seg.p_offset > usize::MAX || seg.p_filesz > usize::MAX {
        (s, Err(LoadFailure::FieldTooLarge))
    } else if seg.p_offset + seg.p_filesz > usize::MAX {
        (s, Err(LoadFailure::RangeOverflow))
    } else {
        let part = image.subrange(seg.p_offset as int, seg.p_offset + seg.p_filesz);
        let base = load_address(seg);
        let (t, written) = bus::bus_write(s, base, part);
        match written {
            Err(e) => (t, Err(LoadFailure::Memory(e))),
            Ok(_) => if seg.p_memsz > seg.p_filesz {
                let (u, filled) = bus::bus_fill(
                    t,
                    (base + seg.p_filesz) as u64,
                    (seg.p_memsz - seg.p_filesz) as usize,
                    0,
                );
                match filled {
                    Err(e) => (u, Err(LoadFailure::Memory(e))),
                    Ok(_) => (u, Ok(())),
                }
            } else {
                (t, Ok(()))
            },
        }
    }
}

/// The devices after the segments in order, up to the first that fails.
pub open spec fn segments_loaded(s: BusState, image: Seq<u8>, segs: Seq<Segment>) -> (
    BusState,
    Result<(), LoadFailure>,
)
    decreases segs.len(),
{
    if segs.len() == 0 {
        (s, Ok(()))
    } else {
        let (t, r) = segment_loaded(s, image, segs[0]);
        match r {
            Err(e) => (t, Err(e)),
            Ok(_) => segments_loaded(t, image, segs.skip(1)),
        }
    }
}

/// Whether no segment that is come to reaches past the end of the image.
pub open spec fn segments_fit(s: BusState, image: Seq<u8>, segs: Seq<Segment>) -> bool
    decreases segs.len(),
{
    segs.len() == 0 || {
        &&& !overruns(segs[0], image)
        &&& {
            let (t, r) = segment_loaded(s, image, segs[0]);
            r is Ok ==> segments_fit(t, image, segs.skip(1))
        }
    }
}

/// Whether the image can be loaded without a segment reaching past its end.
pub open spec fn image_fits(s: BusState, image: Seq<u8>) -> bool {
    !has_elf_magic(image) || match elf_segments(image) {
        Some(Some(segs)) => segments_fit(s, image, segs),
        _ => true,
    }
}

/// The devices after an image: the segments of an ELF file, or any other bytes at
/// the start of main memory.
pub open spec fn image_loaded(s: BusState, image: Seq<u8>) -> (BusState, Result<(), LoadFailure>) {
    if has_elf_magic(image) {
        match elf_segments(image) {
            None => (s, Err(LoadFailure::Elf)),
            Some(None) => (s, Err(LoadFailure::MissingProgramHeaders)),
            Some(Some(segs)) => segments_loaded(s, image, segs),
        }
    } else {
        let (t, r) = bus::bus_write(s, DRAM_BASE, image);
        match r {
            Err(e) => (t, Err(LoadFailure::Memory(e))),
            Ok(_) => (t, Ok(())),
        }
    }
}

fn starts_with_elf_magic(image: &[u8]) -> (b: bool)
    ensures
        b == has_elf_magic(image@),
{
    image.len() >= 4 && image[0] == 0x7f && image[1] == 0x45 && image[2] == 0x4c && image[3] == 0x46
}

/// The file range of a segment.
fn segment_file_range(seg: &Segment) -> (r: Result<(usize, usize), LoadError>)
    ensures
        match r {
            Ok((start, end)) => start == seg.p_offset && end == seg.p_offset + seg.p_filesz,
            Err(LoadError::FieldTooLarge) => seg.p_offset > usize::MAX || seg.p_filesz
                > usize::MAX,
            Err(LoadError::RangeOverflow) => seg.p_offset <= usize::MAX && seg.p_filesz
                <= usize::MAX && seg.p_offset + seg.p_filesz > usize::MAX,
            Err(_) => false,
        },
{
    let limit: u64 = usize::MAX as u64;
    if seg.p_offset > limit || seg.p_filesz > limit {
        return Err(LoadError::FieldTooLarge);
    }
    let start: usize = seg.p_offset as usize;
    match start.checked_add(seg.p_filesz as usize) {
        Some(end) => Ok((start, end)),
        None => Err(LoadError::RangeOverflow),
    }
}

/// Loads one segment.
fn load_segment(bus: &mut Bus, image: &[u8], seg: &Segment) -> (r: Result<(), LoadError>)
    requires
        !overruns(*seg, image@),
    ensures
        (final(bus)@, seen(r)) == segment_loaded(old(bus)@, image@, *seg),
{
    if seg.p_type != PT_LOAD {
        return Ok(());
    }
    let (start, end) = match segment_file_range(seg) {
        Ok(range) => range,
        Err(e) => {
            return Err(e);
        },
    };
    let base: u64 = if seg.p_paddr != 0 {
        seg.p_paddr
    } else {
        seg.p_vaddr
    };
    let part: &[u8] = vstd::slice::slice_subrange(image, start, end);
    if let Err(e) = bus.write_bytes(base, part) {
        return Err(LoadError::Memory(e));
    }
    if seg.p_memsz > seg.p_filesz {
        let zeros: usize = (seg.p_memsz - seg.p_filesz) as usize;
        if let Err(e) = bus.fill_bytes(base + seg.p_filesz, zeros, 0) {
            return Err(LoadError::Memory(e));
        }
    }
    Ok(())
}

/// Loads the segments of an image in order, up to the first that fails.
pub fn load_elf_segments(bus: &mut Bus, image: &[u8], segs: &[Segment]) -> (r: Result<
    (),
    LoadError,
>)
    requires
        segments_fit(old(bus)@, image@, segs@),
    ensures
        (final(bus)@, seen(r)) == segments_loaded(old(bus)@, image@, segs@),
{
    let mut i: usize = 0;
    let ghost whole = segments_loaded(bus@, image@, segs@);
    assert(segs@.skip(0) =~= segs@);
    while i < segs.len()
        invariant
            i <= segs.len(),
            segments_fit(bus@, image@, segs@.skip(i as int)),
            segments_loaded(bus@, image@, segs@.skip(i as int)) == whole,
            whole == segments_loaded(old(bus)@, image@, segs@),
        decreases segs.len() - i,
    {
        assert(segs@.skip(i as int).skip(1) =~= segs@.skip(i + 1));
        if let Err(e) = load_segment(bus, image, &segs[i]) {
            return Err(e);
        }
        i = i + 1;
    }
    Ok(())
}

/// Loads an image into main memory. An image that starts like an ELF file is taken
/// apart into its segments; any other goes to the start of memory as it is.
pub fn load_image(bus: &mut Bus, image: &[u8]) -> (r: Result<(), LoadError>)
    requires
        image_fits(old(bus)@, image@),
    ensures
        (final(bus)@, seen(r)) == image_loaded(old(bus)@, image@),
{
    if starts_with_elf_magic(image) {
        match parse_segments(image) {
            Ok(Some(segs)) => load_elf_segments(bus, image, segs.as_slice()),
            Ok(None) => Err(LoadError::MissingProgramHeaders),
            Err(e) => Err(LoadError::Elf(e)),
        }
    } else {
        match bus.write_bytes(DRAM_BASE, image) {
            Ok(_) => Ok(()),
            Err(e) => Err(LoadError::Memory(e)),
        }
    }
}

/// Whether `len` bytes from `addr` on lie in a main memory of `size` bytes.
pub open spec fn ram_holds(size: nat, addr: u64, len: nat) -> bool {
    len == 0 || (addr >= DRAM_BASE && addr + len <= DRAM_BASE + DRAM_SIZE && addr + len <= DRAM_BASE
        + size)
}

/// Whether `load_segment` succeeds depends on the segment and on the size of the
/// memory, which it keeps.
proof fn lemma_segment_outcome(s: BusState, image: Seq<u8>, seg: Segment)
    requires
        !overruns(seg, image),
    ensures
        segment_loaded(s, image, seg).0.dram.len() == s.dram.len(),
        segment_loaded(s, image, seg).1 is Ok <==> (seg.p_type != PT_LOAD || {
            &&& seg.p_offset + seg.p_filesz <= usize::MAX
            &&& ram_holds(s.dram.len(), load_address(seg), seg.p_filesz as nat)
            &&& seg.p_memsz > seg.p_filesz ==> ram_holds(
                s.dram.len(),
                (load_address(seg) + seg.p_filesz) as u64,
                ((seg.p_memsz - seg.p_filesz) as usize) as nat,
            )
        }),
{
}

/// Whether `len` bytes from `addr` on lie in a main memory of `size` bytes.
fn ram_covers(size: u64, addr: u64, len: u64) -> (b: bool)
    ensures
        b == ram_holds(size as nat, addr, len as nat),
{
    len == 0 || (addr >= DRAM_BASE && len <= DRAM_SIZE && len <= size && addr - DRAM_BASE
        <= DRAM_SIZE - len && addr - DRAM_BASE <= size - len)
}

/// Tests `segments_fit` without touching the devices.
fn check_segments(bus: &Bus, image: &[u8], segs: &[Segment]) -> (b: bool)
    ensures
        b == segments_fit(bus@, image@, segs@),
{
    let size: u64 = bus.dram.len() as u64;
    let len: u64 = image.len() as u64;
    let limit: u64 = usize::MAX as u64;
    let mut i: usize = 0;
    let ghost mut s = bus@;
    let ghost whole = segments_fit(bus@, image@, segs@);
    assert(segs@.skip(0) =~= segs@);
    while i < segs.len()
        invariant
            i <= segs.len(),
            size == s.dram.len(),
            len == image@.len(),
            limit == usize::MAX,
            segments_fit(s, image@, segs@.skip(i as int)) == whole,
            whole == segments_fit(bus@, image@, segs@),
        decreases segs.len() - i,
    {
        assert(segs@.skip(i as int).skip(1) =~= segs@.skip(i + 1));
        let seg: Segment = segs[i];
        if seg.p_type == PT_LOAD {
            let wraps: bool = seg.p_filesz > limit || seg.p_offset > limit - seg.p_filesz;
            if !wraps && (seg.p_filesz > len || seg.p_offset > len - seg.p_filesz) {
                return false;
            }
            proof {
                lemma_segment_outcome(s, image@, seg);
            }
            let base: u64 = if seg.p_paddr != 0 {
                seg.p_paddr
            } else {
                seg.p_vaddr
            };
            if wraps || !ram_covers(size, base, seg.p_filesz) {
                return true;
            }
            if seg.p_memsz > seg.p_filesz {
                let zeros: usize = (seg.p_memsz - seg.p_filesz) as usize;
                if !ram_covers(size, base + seg.p_filesz, zeros as u64) {
                    return true;
                }
            }
        }
        proof {
            lemma_segment_outcome(s, image@, seg);
            s = segment_loaded(s, image@, seg).0;
        }
        i = i + 1;
    }
    true
}

/// Whether an image can be loaded without a segment reaching past its end.
pub fn image_is_loadable(bus: &Bus, image: &[u8]) -> (b: bool)
    ensures
        b == image_fits(bus@, image@),
{
    if starts_with_elf_magic(image) {
        if let Ok(Some(segs)) = parse_segments(image) {
            return check_segments(bus, image, segs.as_slice());
        }
    }
    true
}

/// Loads an image as `load_image` does, unless a segment reaches past the end of
/// the image: then nothing is loaded and the result is `None`.
pub fn try_load_image(bus: &mut Bus, image: &[u8]) -> (r: Option<Result<(), LoadError>>)
    ensures
        match r {
            None => !image_fits(old(bus)@, image@) && final(bus)@ == old(bus)@,
            Some(outcome) => image_fits(old(bus)@, image@) && (final(bus)@, seen(outcome))
                == image_loaded(old(bus)@, image@),
        },
{
    if image_is_loadable(bus, image) {
        Some(load_image(bus, image))
    } else {
        None
    }
}

/// Where the bytes of main memory stand after a segment: its bytes of the image from its place
/// on, zeros up to its size in memory, and behind and before it what was there.
pub open spec fn byte_after(s: BusState, image: Seq<u8>, seg: Segment, k: int) -> u8 {
    let start = (if seg.p_paddr == 0 {
        seg.p_vaddr
    } else {
        seg.p_paddr
    }) - 0x8000_0000;
    if start <= k && k < start + seg.p_filesz {
        image[seg.p_offset + (k - start)]
    } else if start <= k && k < start + seg.p_memsz {
        0
    } else {
        s.dram[k]
    }
}

/// A segment that was loaded stands in main memory at its physical address, or at its virtual
/// address where that is 0, with zeros for what it has more in memory than in the image.
/// Nothing else changes.
pub proof fn law_segment_is_loaded(s: BusState, image: Seq<u8>, seg: Segment)
    requires
        s.dram.len() == 0x2000_0000,
        seg.p_type == 1,
        seg.p_offset + seg.p_filesz <= image.len() <= usize::MAX,
        seg.p_memsz <= usize::MAX,
        segment_loaded(s, image, seg).1 is Ok,
    ensures
        ({
            let t = segment_loaded(s, image, seg).0;
            &&& t == (BusState { dram: t.dram, ..s })
            &&& t.dram.len() == s.dram.len()
            &&& forall|k: int|
                0 <= k < s.dram.len() ==> #[trigger] t.dram[k] == byte_after(s, image, seg, k)
        }),
{
    let part = image.subrange(seg.p_offset as int, seg.p_offset + seg.p_filesz);
    let base = load_address(seg);
    let t = bus::bus_write(s, base, part).0;
    let start = base - 0x8000_0000;
    assert forall|k: int| 0 <= k < s.dram.len() implies #[trigger] t.dram[k] == if start <= k && k
        < start + seg.p_filesz {
        image[seg.p_offset + (k - start)]
    } else {
        s.dram[k]
    } by {}
    if seg.p_memsz > seg.p_filesz {
        let more = (seg.p_memsz - seg.p_filesz) as usize;
        let zeros = dram::run_of(0, more as nat);
        let from = (base + seg.p_filesz) as u64;
        let u = segment_loaded(s, image, seg).0;
        assert(u == bus::bus_write(t, from, zeros).0);
        assert forall|k: int| 0 <= k < s.dram.len() implies #[trigger] u.dram[k] == byte_after(
            s,
            image,
            seg,
            k,
        ) by {
            assert(u.dram[k] == if start + seg.p_filesz <= k && k < start + seg.p_memsz {
                0
            } else {
                t.dram[k]
            });
        }
    }
}

/// A segment that lies in main memory and in the image is loaded.
pub proof fn law_segments_in_memory_are_loaded(s: BusState, image: Seq<u8>, seg: Segment)
    requires
        s.dram.len() == 0x2000_0000,
        seg.p_type == 1,
        seg.p_offset + seg.p_filesz <= image.len() <= usize::MAX,
        ({
            let base = if seg.p_paddr == 0 {
                seg.p_vaddr
            } else {
                seg.p_paddr
            };
            &&& 0x8000_0000 <= base
            &&& base + seg.p_filesz <= 0xa000_0000
            &&& base + seg.p_memsz <= 0xa000_0000
        }),
    ensures
        segment_loaded(s, image, seg).1 is Ok,
{
    let part = image.subrange(seg.p_offset as int, seg.p_offset + seg.p_filesz);
    let t = bus::bus_write(s, load_address(seg), part).0;
    assert(t.dram.len() == s.dram.len());
}

/// Segments of other types are passed over, and segments one after another are loaded in
/// order.
pub proof fn law_segments_come_in_order(s: BusState, image: Seq<u8>, seg: Segment, segs: Seq<Segment>)
    ensures
        seg.p_type != 1 ==> segment_loaded(s, image, seg) == (s, Ok::<(), LoadFailure>(())),
        segments_loaded(s, image, Seq::<Segment>::empty()) == (s, Ok::<(), LoadFailure>(())),
        segment_loaded(s, image, seg).1 is Ok ==> segments_loaded(s, image, seq![seg] + segs)
            == segments_loaded(segment_loaded(s, image, seg).0, image, segs),
        segment_loaded(s, image, seg).1 is Err ==> segments_loaded(s, image, seq![seg] + segs)
            == segment_loaded(s, image, seg),
{
    assert((seq![seg] + segs).skip(1) =~= segs);
    assert((seq![seg] + segs)[0] == seg);
}

/// An image that does not start as an ELF file does is copied to the start of main memory,
/// where it fits.
pub proof fn law_other_images_are_copied(s: BusState, image: Seq<u8>)
    requires
        s.dram.len() == 0x2000_0000,
        image.len() < 4 || image.take(4) != seq![0x7fu8, 0x45, 0x4c, 0x46],
    ensures
        ({
            let (t, r) = image_loaded(s, image);
            &&& r is Ok <==> image.len() <= 0x2000_0000
            &&& r is Err ==> t == s
            &&& r is Ok ==> t == (BusState { dram: t.dram, ..s }) && t.dram.len() == s.dram.len()
                && forall|k: int|
                0 <= k < s.dram.len() ==> #[trigger] t.dram[k] == if k < image.len() {
                    image[k]
                } else {
                    s.dram[k]
                }
        }),
{
    if has_elf_magic(image) {
        assert(image.take(4) =~= seq![0x7fu8, 0x45, 0x4c, 0x46]);
    }
}

/// An image that starts as an ELF file does is loaded by its segments, or refused.
pub proof fn law_elf_images_are_loaded_by_segments(s: BusState, image: Seq<u8>)
    requires
        image.len() >= 4,
        image.take(4) == seq![0x7fu8, 0x45, 0x4c, 0x46],
    ensures
        match elf_segments(image) {
            Some(Some(segs)) => image_loaded(s, image) == segments_loaded(s, image, segs),
            _ => image_loaded(s, image).1 is Err && image_loaded(s, image).0 == s,
        },
{
    let start = image.take(4);
    assert(start[0] == image[0] && start[1] == image[1] && start[2] == image[2] && start[3]
        == image[3]);
}

} // verus!
