use rustos::elf_loader::align_down;
use rustos::elf_loader::align_up;
use rustos::elf_loader::entry_covered;
use rustos::elf_loader::plan_segment_load;
use rustos::elf_loader::reject_overlapping_segment;
use rustos::elf_loader::segment_addr;
use rustos::elf_loader::validate_elf_header;
use rustos::elf_loader::validate_kernel_entry;
use rustos::elf_loader::validated_segment_bounds;
use rustos::elf_loader::ElfClass;
use rustos::elf_loader::ElfData;
use rustos::elf_loader::ElfFault;
use rustos::elf_loader::ElfKind;
use rustos::elf_loader::ElfMachine;
use rustos::elf_loader::MAX_KERNEL_LOAD_END_EXCLUSIVE;
use rustos::elf_loader::MIN_KERNEL_LOAD_ADDR;

#[test]
fn alignment_rounds() {
    assert_eq!(align_down(0x1234, 0x1000), 0x1000);
    assert_eq!(align_down(0x1000, 0x1000), 0x1000);
    assert_eq!(align_down(0xFFF, 0x1000), 0);
    assert_eq!(align_up(0x1234, 0x1000), Some(0x2000));
    assert_eq!(align_up(0x1000, 0x1000), Some(0x1000));
    assert_eq!(align_up(0, 0x1000), Some(0));
    assert_eq!(align_up(u64::MAX - 5, 0x1000), None);
}

#[test]
fn entry_point_window() {
    assert_eq!(validate_kernel_entry(MIN_KERNEL_LOAD_ADDR), Ok(()));
    assert_eq!(
        validate_kernel_entry(MIN_KERNEL_LOAD_ADDR - 1),
        Err(ElfFault::EntryBelowMin)
    );
    assert_eq!(
        validate_kernel_entry(MAX_KERNEL_LOAD_END_EXCLUSIVE),
        Err(ElfFault::EntryAboveMax)
    );
    assert_eq!(validate_kernel_entry(0x20_0000), Ok(()));
}

#[test]
fn header_validation_faults_in_order() {
    let ok = validate_elf_header(
        ElfClass::SixtyFourBit,
        ElfData::LittleEndian,
        ElfMachine::X86_64,
        ElfKind::Executable,
    );
    assert_eq!(ok, Ok(()));
    assert_eq!(
        validate_elf_header(
            ElfClass::ThirtyTwoBit,
            ElfData::LittleEndian,
            ElfMachine::X86_64,
            ElfKind::Executable
        ),
        Err(ElfFault::NotSixtyFourBit)
    );
    assert_eq!(
        validate_elf_header(
            ElfClass::SixtyFourBit,
            ElfData::BigEndian,
            ElfMachine::X86_64,
            ElfKind::Executable
        ),
        Err(ElfFault::NotLittleEndian)
    );
    assert_eq!(
        validate_elf_header(
            ElfClass::SixtyFourBit,
            ElfData::LittleEndian,
            ElfMachine::Other,
            ElfKind::Executable
        ),
        Err(ElfFault::WrongMachine)
    );
    assert_eq!(
        validate_elf_header(
            ElfClass::SixtyFourBit,
            ElfData::LittleEndian,
            ElfMachine::X86_64,
            ElfKind::Relocatable
        ),
        Err(ElfFault::WrongKind)
    );
    assert_eq!(
        validate_elf_header(
            ElfClass::SixtyFourBit,
            ElfData::LittleEndian,
            ElfMachine::X86_64,
            ElfKind::SharedObject
        ),
        Ok(())
    );
}

#[test]
fn segment_addresses_and_bounds() {
    assert_eq!(segment_addr(0x20_0000, 0x40_0000), 0x20_0000);
    assert_eq!(segment_addr(0, 0x40_0000), 0x40_0000);

    assert_eq!(
        validated_segment_bounds(0x20_0000, 0, 0x1000),
        Ok((0x20_0000, 0x20_1000))
    );
    assert_eq!(
        validated_segment_bounds(0x20_0000, 0, 0),
        Err(ElfFault::SegmentZeroSize)
    );
    assert_eq!(
        validated_segment_bounds(0x1000, 0, 0x1000),
        Err(ElfFault::SegmentBelowMin)
    );
    assert_eq!(
        validated_segment_bounds(0x20_0000, 0, u64::MAX),
        Err(ElfFault::SegmentOverflow)
    );
    assert_eq!(
        validated_segment_bounds(MAX_KERNEL_LOAD_END_EXCLUSIVE - 0x100, 0, 0x200),
        Err(ElfFault::SegmentAboveMax)
    );
}

#[test]
fn overlap_rejection() {
    let ranges = vec![(0x10_0000u64, 0x20_0000u64), (0x30_0000, 0x40_0000)];
    assert_eq!(reject_overlapping_segment(0x20_0000, 0x30_0000, &ranges), Ok(()));
    assert_eq!(
        reject_overlapping_segment(0x1F_0000, 0x21_0000, &ranges),
        Err(ElfFault::SegmentOverlap)
    );
    assert_eq!(
        reject_overlapping_segment(0x3F_FFFF, 0x40_0000, &ranges),
        Err(ElfFault::SegmentOverlap)
    );
    assert_eq!(reject_overlapping_segment(0, 1, &Vec::new()), Ok(()));
}

#[test]
fn entry_coverage() {
    assert!(entry_covered(true, 0x20_0000, 0x30_0000, 0x20_0000));
    assert!(!entry_covered(true, 0x20_0000, 0x30_0000, 0x30_0000));
    assert!(!entry_covered(false, 0x20_0000, 0x30_0000, 0x25_0000));
}

#[test]
fn segment_plan_shapes() {
    // A segment at 0x100800, 0x2345 bytes, 0x1000 of them from the image.
    let plan = plan_segment_load(0x10_0000, 0x200, 0x1000, 0x2345, 0x10_0800, 0)
        .unwrap()
        .unwrap();
    assert_eq!(plan.page_base, 0x10_0000);
    assert_eq!(plan.page_offset, 0x800);
    assert_eq!(plan.page_count, 3);
    assert_eq!(plan.file_offset, 0x200);
    assert_eq!(plan.file_size, 0x1000);

    // Nothing to load.
    assert_eq!(plan_segment_load(0x10_0000, 0, 0, 0, 0x10_0000, 0), Ok(None));

    assert_eq!(
        plan_segment_load(0x10_0000, 0, 0x2000, 0x1000, 0x10_0000, 0),
        Err(ElfFault::FileSizeExceedsMemSize)
    );
    assert_eq!(
        plan_segment_load(0x500, 0x200, 0x400, 0x400, 0x10_0000, 0),
        Err(ElfFault::FileRangeOutsideImage)
    );
    assert_eq!(
        plan_segment_load(0x10_0000, 0, 0x100, 0x1000, 0x1000, 0),
        Err(ElfFault::SegmentBelowMin)
    );
}
