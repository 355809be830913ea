//! Validation rules of the kernel-image loader. The boot side parses the
//! image's headers and allocates and fills pages; every decision about
//! what a header is allowed to say — where the entry point and the
//! segments may lie, which segments overlap, how a segment rounds out to
//! whole pages — is made here, over plain header fields.

use vstd::prelude::*;

verus! {

/// Bytes per page.
pub const PAGE_SIZE: u64 = 0x1000;

/// Lowest address the kernel may occupy.
pub const MIN_KERNEL_LOAD_ADDR: u64 = 0x0010_0000;

/// One past the highest address the kernel may occupy.
pub const MAX_KERNEL_LOAD_END_EXCLUSIVE: u64 = 512 * 1024 * 1024 * 1024;

/// Why an image was rejected.
#[derive(Clone, Copy, Debug, PartialEq, Eq, Structural)]
pub enum ElfFault {
    /// The image is not a 64-bit ELF.
    NotSixtyFourBit,
    /// The image is not little-endian.
    NotLittleEndian,
    /// The image does not target this machine.
    WrongMachine,
    /// The image is neither an executable nor a shared object.
    WrongKind,
    /// The entry point lies below the minimum load address.
    EntryBelowMin,
    /// The entry point lies at or above the maximum load range.
    EntryAboveMax,
    /// A loadable segment has zero memory size.
    SegmentZeroSize,
    /// A segment starts below the minimum load address.
    SegmentBelowMin,
    /// A segment's end overflows the address space.
    SegmentOverflow,
    /// A segment ends above the maximum load range.
    SegmentAboveMax,
    /// A segment claims more file bytes than memory bytes.
    FileSizeExceedsMemSize,
    /// A segment's file range overflows.
    FileBoundsOverflow,
    /// A segment's file range lies outside the image.
    FileRangeOutsideImage,
    /// Two loadable segments overlap.
    SegmentOverlap,
    /// Rounding a segment's end to a page boundary overflows.
    AlignOverflow,
}

/// The file class of an image's header.
#[derive(Clone, Copy, Debug, PartialEq, Eq, Structural)]
pub enum ElfClass {
    ThirtyTwoBit,
    SixtyFourBit,
    Other,
}

/// The byte order of an image's header.
#[derive(Clone, Copy, Debug, PartialEq, Eq, Structural)]
pub enum ElfData {
    LittleEndian,
    BigEndian,
    Other,
}

/// The machine an image targets.
#[derive(Clone, Copy, Debug, PartialEq, Eq, Structural)]
pub enum ElfMachine {
    X86_64,
    Other,
}

/// The kind of object an image is.
#[derive(Clone, Copy, Debug, PartialEq, Eq, Structural)]
pub enum ElfKind {
    Relocatable,
    Executable,
    SharedObject,
    Core,
    Other,
}

/// Round an address down to an alignment boundary; the alignment must be
/// a power of two.
pub fn align_down(value: u64, align: u64) -> (r: u64)
    requires
        exists|n: nat| n < 64 && align == vstd::arithmetic::power2::pow2(n),
    ensures
        r == value - value % align,
        r % align == 0,
        r <= value,
        value - r < align,
{
    proof {
        let n = choose|n: nat| n < 64 && align == vstd::arithmetic::power2::pow2(n);
        vstd::arithmetic::power2::lemma_pow2_pos(n);
        vstd::bits::lemma_u64_low_bits_mask_is_mod(value, n);
        let m = vstd::bits::low_bits_mask(n) as u64;
        assert(m == (align - 1) as u64);
        assert(value & !m == vstd::prelude::sub(value, value & m) && value & m <= value)
            by (bit_vector);
        assert(value & m == value % align);
        vstd::arithmetic::div_mod::lemma_fundamental_div_mod(value as int, align as int);
        vstd::arithmetic::div_mod::lemma_mod_multiples_basic(
            value as int / align as int,
            align as int,
        );
        vstd::arithmetic::div_mod::lemma_mod_bound(value as int, align as int);
    }
    value & !(align - 1)
}

/// Round an address up to an alignment boundary, or nothing when that
/// overflows; the alignment must be a power of two.
pub fn align_up(value: u64, align: u64) -> (r: Option<u64>)
    requires
        exists|n: nat| n < 64 && align == vstd::arithmetic::power2::pow2(n),
    ensures
        match r {
            Some(x) => {
                &&& value <= u64::MAX - (align - 1)
                &&& x % align == 0
                &&& value <= x
                &&& x < value + align
            },
            None => value > u64::MAX - (align - 1),
        },
{
    proof {
        let n = choose|n: nat| n < 64 && align == vstd::arithmetic::power2::pow2(n);
        vstd::arithmetic::power2::lemma_pow2_pos(n);
    }
    if value > u64::MAX - (align - 1) {
        return None;
    }
    let bumped = value + (align - 1);
    Some(align_down(bumped, align))
}

/// The entry point must lie inside the allowed load range.
pub fn validate_kernel_entry(entry_point: u64) -> (r: Result<(), ElfFault>)
    ensures
        r is Ok <==> MIN_KERNEL_LOAD_ADDR <= entry_point < MAX_KERNEL_LOAD_END_EXCLUSIVE,
        entry_point < MIN_KERNEL_LOAD_ADDR ==> r == Err::<(), ElfFault>(ElfFault::EntryBelowMin),
        entry_point >= MAX_KERNEL_LOAD_END_EXCLUSIVE ==> r == Err::<(), ElfFault>(
            ElfFault::EntryAboveMax,
        ),
{
    if entry_point < MIN_KERNEL_LOAD_ADDR {
        return Err(ElfFault::EntryBelowMin);
    }
    if entry_point >= MAX_KERNEL_LOAD_END_EXCLUSIVE {
        return Err(ElfFault::EntryAboveMax);
    }
    Ok(())
}

/// The image's header must describe a 64-bit little-endian object for
/// this machine, either an executable or a shared object.
pub fn validate_elf_header(class: ElfClass, data: ElfData, machine: ElfMachine, kind: ElfKind) -> (r:
    Result<(), ElfFault>)
    ensures
        r is Ok <==> (class == ElfClass::SixtyFourBit && data == ElfData::LittleEndian && machine
            == ElfMachine::X86_64 && (kind == ElfKind::Executable || kind
            == ElfKind::SharedObject)),
        class != ElfClass::SixtyFourBit ==> r == Err::<(), ElfFault>(ElfFault::NotSixtyFourBit),
        class == ElfClass::SixtyFourBit && data != ElfData::LittleEndian ==> r == Err::<
            (),
            ElfFault,
        >(ElfFault::NotLittleEndian),
        class == ElfClass::SixtyFourBit && data == ElfData::LittleEndian && machine
            != ElfMachine::X86_64 ==> r == Err::<(), ElfFault>(ElfFault::WrongMachine),
{
    if class != ElfClass::SixtyFourBit {
        return Err(ElfFault::NotSixtyFourBit);
    }
    if data != ElfData::LittleEndian {
        return Err(ElfFault::NotLittleEndian);
    }
    if machine != ElfMachine::X86_64 {
        return Err(ElfFault::WrongMachine);
    }
    match kind {
        ElfKind::Executable => Ok(()),
        ElfKind::SharedObject => Ok(()),
        _ => Err(ElfFault::WrongKind),
    }
}

/// Where a segment loads: its physical address, or its virtual address
/// when no physical one is given.
pub fn segment_addr(physical_addr: u64, virtual_addr: u64) -> (r: u64)
    ensures
        physical_addr != 0 ==> r == physical_addr,
        physical_addr == 0 ==> r == virtual_addr,
{
    if physical_addr != 0 {
        physical_addr
    } else {
        virtual_addr
    }
}

/// A loadable segment's address range, validated: it must have bytes, and
/// must lie inside the allowed load range.
pub fn validated_segment_bounds(physical_addr: u64, virtual_addr: u64, mem_size: u64) -> (r: Result<
    (u64, u64),
    ElfFault,
>)
    ensures
        match r {
            Ok(bounds) => {
                &&& mem_size > 0
                &&& bounds.0 == (if physical_addr != 0 {
                    physical_addr
                } else {
                    virtual_addr
                })
                &&& bounds.0 >= MIN_KERNEL_LOAD_ADDR
                &&& bounds.1 == bounds.0 + mem_size
                &&& bounds.1 <= MAX_KERNEL_LOAD_END_EXCLUSIVE
            },
            Err(e) => {
                ||| (e == ElfFault::SegmentZeroSize && mem_size == 0)
                ||| (e == ElfFault::SegmentBelowMin && (if physical_addr != 0 {
                    physical_addr
                } else {
                    virtual_addr
                }) < MIN_KERNEL_LOAD_ADDR)
                ||| (e == ElfFault::SegmentOverflow && (if physical_addr != 0 {
                    physical_addr
                } else {
                    virtual_addr
                }) + mem_size > u64::MAX)
                ||| (e == ElfFault::SegmentAboveMax && (if physical_addr != 0 {
                    physical_addr
                } else {
                    virtual_addr
                }) + mem_size > MAX_KERNEL_LOAD_END_EXCLUSIVE)
            },
        },
        r is Ok <==> (mem_size > 0 && (if physical_addr != 0 {
            physical_addr
        } else {
            virtual_addr
        }) >= MIN_KERNEL_LOAD_ADDR && (if physical_addr != 0 {
            physical_addr
        } else {
            virtual_addr
        }) + mem_size <= MAX_KERNEL_LOAD_END_EXCLUSIVE),
{
    if mem_size == 0 {
        return Err(ElfFault::SegmentZeroSize);
    }

    let addr = segment_addr(physical_addr, virtual_addr);
    if addr < MIN_KERNEL_LOAD_ADDR {
        return Err(ElfFault::SegmentBelowMin);
    }

    if addr > u64::MAX - mem_size {
        return Err(ElfFault::SegmentOverflow);
    }
    let segment_end = addr + mem_size;
    if segment_end > MAX_KERNEL_LOAD_END_EXCLUSIVE {
        return Err(ElfFault::SegmentAboveMax);
    }

    Ok((addr, segment_end))
}

/// A new segment must not overlap any range already loaded.
pub fn reject_overlapping_segment(
    segment_addr: u64,
    segment_end: u64,
    existing_ranges: &Vec<(u64, u64)>,
) -> (r: Result<(), ElfFault>)
    ensures
        r is Ok <==> forall|i: int|
            0 <= i < existing_ranges.len() ==> !(segment_addr < existing_ranges[i].1
                && existing_ranges[i].0 < segment_end),
        r matches Err(e) ==> e == ElfFault::SegmentOverlap,
{
    let mut i: usize = 0;
    while i < existing_ranges.len()
        invariant
            i <= existing_ranges.len(),
            forall|j: int|
                0 <= j < i ==> !(segment_addr < existing_ranges[j].1 && existing_ranges[j].0
                    < segment_end),
        decreases existing_ranges.len() - i,
    {
        let (other_start, other_end) = existing_ranges[i];
        if segment_addr < other_end && other_start < segment_end {
            return Err(ElfFault::SegmentOverlap);
        }
        i = i + 1;
    }
    Ok(())
}

/// Whether an executable segment covers the entry point.
pub fn entry_covered(is_execute: bool, segment_addr: u64, segment_end: u64, entry_point: u64) -> (r:
    bool)
    ensures
        r == (is_execute && segment_addr <= entry_point < segment_end),
{
    is_execute && segment_addr <= entry_point && entry_point < segment_end
}

/// The page allocation a loadable segment needs.
#[derive(Clone, Copy, Debug, PartialEq, Eq, Structural)]
pub struct SegmentPlan {
    /// First page-aligned address of the allocation.
    pub page_base: u64,
    /// Number of pages to allocate.
    pub page_count: u64,
    /// Offset of the segment's first byte inside the allocation.
    pub page_offset: u64,
    /// Where the segment's bytes start in the image.
    pub file_offset: u64,
    /// How many bytes come from the image; the rest is zero-filled.
    pub file_size: u64,
}

/// Plan loading one segment of `image_len` image bytes: validate its file
/// range against the image and its address range against the load window,
/// and round the allocation out to whole pages. A segment with no memory
/// bytes needs nothing and yields no plan.
pub fn plan_segment_load(
    image_len: u64,
    file_offset: u64,
    file_size: u64,
    mem_size: u64,
    physical_addr: u64,
    virtual_addr: u64,
) -> (r: Result<Option<SegmentPlan>, ElfFault>)
    ensures
        file_size > mem_size ==> r == Err::<Option<SegmentPlan>, ElfFault>(
            ElfFault::FileSizeExceedsMemSize,
        ),
        file_size <= mem_size && mem_size == 0 ==> r == Ok::<Option<SegmentPlan>, ElfFault>(None),
        file_size <= mem_size && mem_size > 0 && file_offset + file_size > u64::MAX ==> r == Err::<
            Option<SegmentPlan>,
            ElfFault,
        >(ElfFault::FileBoundsOverflow),
        file_size <= mem_size && mem_size > 0 && file_offset + file_size <= u64::MAX && file_offset
            + file_size > image_len ==> r == Err::<Option<SegmentPlan>, ElfFault>(
            ElfFault::FileRangeOutsideImage,
        ),
        r is Ok <==> (file_size <= mem_size && (mem_size == 0 || (file_offset + file_size
            <= image_len && (if physical_addr != 0 {
            physical_addr
        } else {
            virtual_addr
        }) >= MIN_KERNEL_LOAD_ADDR && (if physical_addr != 0 {
            physical_addr
        } else {
            virtual_addr
        }) + mem_size <= MAX_KERNEL_LOAD_END_EXCLUSIVE))),
        match r {
            Ok(Some(p)) => {
                &&& file_size <= mem_size
                &&& mem_size > 0
                &&& file_offset + file_size <= image_len
                &&& p.file_offset == file_offset
                &&& p.file_size == file_size
                &&& p.page_base % PAGE_SIZE == 0
                &&& p.page_base <= (if physical_addr != 0 {
                    physical_addr
                } else {
                    virtual_addr
                }) < p.page_base + PAGE_SIZE
                &&& p.page_offset == (if physical_addr != 0 {
                    physical_addr
                } else {
                    virtual_addr
                }) - p.page_base
                &&& p.page_count * PAGE_SIZE >= p.page_offset + mem_size
                &&& p.page_count * PAGE_SIZE < p.page_offset + mem_size + 2 * PAGE_SIZE
            },
            Ok(None) => mem_size == 0,
            Err(_) => true,
        },
{
    if file_size > mem_size {
        return Err(ElfFault::FileSizeExceedsMemSize);
    }
    if mem_size == 0 {
        return Ok(None);
    }

    if file_offset > u64::MAX - file_size {
        return Err(ElfFault::FileBoundsOverflow);
    }
    let file_end = file_offset + file_size;
    if file_end > image_len {
        return Err(ElfFault::FileRangeOutsideImage);
    }

    let (seg_addr, seg_end) = match validated_segment_bounds(physical_addr, virtual_addr, mem_size) {
        Ok(bounds) => bounds,
        Err(e) => {
            return Err(e);
        },
    };

    proof {
        vstd::arithmetic::power2::lemma2_to64();
        assert(PAGE_SIZE == vstd::arithmetic::power2::pow2(12));
    }
    let page_base = align_down(seg_addr, PAGE_SIZE);
    let page_end = match align_up(seg_end, PAGE_SIZE) {
        Some(v) => v,
        None => {
            return Err(ElfFault::AlignOverflow);
        },
    };
    let page_count = (page_end - page_base) / PAGE_SIZE;
    let page_offset = seg_addr - page_base;

    proof {
        vstd::arithmetic::div_mod::lemma_fundamental_div_mod(
            (page_end - page_base) as int,
            PAGE_SIZE as int,
        );
        assert((page_end - page_base) % (PAGE_SIZE as int) == 0) by {
            vstd::arithmetic::div_mod::lemma_sub_mod_noop(
                page_end as int,
                page_base as int,
                PAGE_SIZE as int,
            );
        }
        assert(page_count * PAGE_SIZE == page_end - page_base);
    }

    Ok(
        Some(
            SegmentPlan {
                page_base,
                page_count,
                page_offset,
                file_offset,
                file_size,
            },
        ),
    )
}

} // verus!
