use rustos::handlers::default_handler;
use rustos::handlers::zero_division;
use rustos::handlers::TrapFrame;
use rustos::multitask::initial_task_rflags;
use rustos::multitask::SavedContext;
use rustos::multitask::CONTEXT_PREFIX_BYTES;
use rustos::multitask::SAVED_CONTEXT_BYTES;
use rustos::paging::PML4;
use rustos::paging::MAX_PAGE_BLOCK;
use rustos::pic::disable_irq;
use rustos::pic::enable_irq;
use rustos::pic::IrqMasks;
use rustos::pic::ALL_IRQS_MASKED;
use rustos::pit::command_byte;
use rustos::pit::divisor_bytes;
use rustos::pit::reload_for_micros;
use rustos::rtc::on_interrupt;
use rustos::rtc::sleep_done;
use rustos::rtc::sleep_target;
use rustos::rtc::sleep_ticks;

#[test]
fn context_record_layout_constants() {
    assert_eq!(CONTEXT_PREFIX_BYTES, 0x178);
    assert_eq!(SAVED_CONTEXT_BYTES, 0x190);
}

#[test]
fn fresh_context_record_resumes_into_the_trampoline() {
    let ctx = SavedContext::for_entry(0xFFFF_8000_0010_0000, 0x08, 0x202);
    assert_eq!(ctx.rip, 0xFFFF_8000_0010_0000);
    assert_eq!(ctx.cs, 0x08);
    assert_eq!(ctx.rflags, 0x202);
    assert_eq!(ctx.rax, 0);
    assert_eq!(ctx.r15, 0);
    assert!(ctx.xmm.iter().all(|lane| lane.iter().all(|&b| b == 0)));

    let empty = SavedContext::empty();
    assert_eq!(empty.rip, 0);
    assert_eq!(empty.rflags, 0);
}

#[test]
fn initial_flags_keep_interrupts_enabled() {
    let flags = initial_task_rflags();
    assert_eq!(flags, 0x202);
    assert_ne!(flags & 0x200, 0);
}

#[test]
fn irq_mask_arithmetic() {
    let mut masks = IrqMasks { master: ALL_IRQS_MASKED, slave: ALL_IRQS_MASKED };

    enable_irq(&mut masks, 0);
    assert_eq!(masks.master, 0xFE);
    assert_eq!(masks.slave, 0xFF);

    // A secondary line opens the cascade line with it.
    enable_irq(&mut masks, 8);
    assert_eq!(masks.master, 0xFA);
    assert_eq!(masks.slave, 0xFE);

    disable_irq(&mut masks, 0);
    assert_eq!(masks.master, 0xFB);
    disable_irq(&mut masks, 8);
    assert_eq!(masks.slave, 0xFF);
    // Disabling a secondary line leaves the cascade line open.
    assert_eq!(masks.master, 0xFB);
}

#[test]
fn timer_reload_values() {
    assert_eq!(reload_for_micros(100), 119);
    assert_eq!(reload_for_micros(1000), 1193);
    assert_eq!(reload_for_micros(54_000), 64431);
    assert_eq!(reload_for_micros(1), 1);

    assert_eq!(command_byte(0), 0x34);
    assert_eq!(command_byte(1), 0x74);
    assert_eq!(command_byte(2), 0xB4);

    assert_eq!(divisor_bytes(0x1234), (0x34, 0x12));
    assert_eq!(divisor_bytes(119), (119, 0));
}

#[test]
fn rtc_tick_arithmetic() {
    let mut ticks = 5u64;
    on_interrupt(&mut ticks);
    assert_eq!(ticks, 6);
    let mut top = u64::MAX;
    on_interrupt(&mut top);
    assert_eq!(top, 0);

    assert_eq!(sleep_ticks(1000), 1024);
    assert_eq!(sleep_ticks(1), 2);
    assert_eq!(sleep_ticks(3), 4);

    assert_eq!(sleep_target(10, 4), 14);
    assert_eq!(sleep_target(u64::MAX - 1, 4), u64::MAX);
    assert!(sleep_done(14, 14));
    assert!(!sleep_done(13, 14));
}

#[test]
fn unhandled_interrupt_reports() {
    let frame = TrapFrame {
        instruction_pointer: 0x1000,
        code_segment: 0x08,
        cpu_flags: 0x202,
        stack_pointer: 0x9000,
        stack_segment: 0x10,
    };
    let r = default_handler(frame, 13, Some(0x18));
    assert_eq!(r.vector, 13);
    assert_eq!(r.error_code, Some(0x18));
    assert_eq!(r.frame, frame);

    let z = zero_division(frame, 0, None);
    assert_eq!(z.vector, 0);
    assert_eq!(z.error_code, None);
}

#[test]
fn identity_paging_and_remap() {
    let mut pml4 = PML4::new_empty();
    pml4.init();

    let two_mib = 2 * 1024 * 1024u64;
    assert!(pml4.block_in_range(MAX_PAGE_BLOCK - 1));
    assert!(!pml4.block_in_range(MAX_PAGE_BLOCK));

    assert_eq!(pml4.pd_indices(0), (0, 0));
    assert_eq!(pml4.pd_indices(513), (1, 1));

    // Identity entry: block's own address, present + writable + huge.
    assert_eq!(pml4.pd_entry(7), 7 * two_mib | 0x83);

    // Remap block 7 onto block 9.
    pml4.map(7, 9, 0x3);
    assert_eq!(pml4.pd_entry(7), 9 * two_mib | 0x83);
    assert_eq!(pml4.pd_entry(8), 8 * two_mib | 0x83);

    pml4.add_flags(7, 0x1000);
    assert_eq!(pml4.pd_entry(7), 9 * two_mib | 0x1083);
}
