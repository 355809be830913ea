use rustos::multitask::init;
use rustos::multitask::SchedError;
use rustos::multitask::Scheduler;
use rustos::multitask::Thread;
use rustos::multitask::MAX_TASK;
use rustos::multitask::SAVED_CONTEXT_BYTES;
use rustos::multitask::TASK_STACK_SIZE;

const STACK_BASE: usize = 0x0100_0000;

fn fresh(capacity: usize) -> Scheduler {
    let mut s = Scheduler::new(STACK_BASE, capacity);
    s.reset();
    s
}

#[test]
fn capacity_minus_one_tasks_start_then_exhausted() {
    // Slot 0 is reserved, so N - 1 tasks fit and one more fails.
    let mut sched = fresh(4);
    let mut a = Thread::new(0x1111, 1);
    let mut b = Thread::new(0x2222, 2);
    let mut c = Thread::new(0x3333, 3);
    let mut d = Thread::new(0x4444, 4);
    assert_eq!(a.start(&mut sched), Ok(()));
    assert_eq!(b.start(&mut sched), Ok(()));
    assert_eq!(c.start(&mut sched), Ok(()));
    assert_eq!(d.start(&mut sched), Err(SchedError::CapacityExhausted));
    assert_eq!(a.slot, Some(1));
    assert_eq!(b.slot, Some(2));
    assert_eq!(c.slot, Some(3));
    assert_eq!(d.slot, None);
}

#[test]
fn default_capacity_holds_max_task_minus_one() {
    let mut sched = fresh(MAX_TASK);
    let mut handles: Vec<Thread> = (0..MAX_TASK as u16 - 1)
        .map(|i| Thread::new(0x1000 + i as usize, i + 1))
        .collect();
    for h in handles.iter_mut() {
        assert_eq!(h.start(&mut sched), Ok(()));
    }
    let mut extra = Thread::new(0x9999, 99);
    assert_eq!(extra.start(&mut sched), Err(SchedError::CapacityExhausted));
}

#[test]
fn start_is_idempotent() {
    // Starting twice without a stop consumes no second slot.
    let mut sched = fresh(4);
    let mut a = Thread::new(0x1111, 1);
    assert_eq!(a.start(&mut sched), Ok(()));
    let first_slot = a.slot;
    assert_eq!(a.start(&mut sched), Ok(()));
    assert_eq!(a.slot, first_slot);

    let mut b = Thread::new(0x2222, 2);
    let mut c = Thread::new(0x3333, 3);
    let mut d = Thread::new(0x4444, 4);
    assert_eq!(b.start(&mut sched), Ok(()));
    assert_eq!(c.start(&mut sched), Ok(()));
    assert_eq!(d.start(&mut sched), Err(SchedError::CapacityExhausted));
}

#[test]
fn started_task_selected_within_capacity_dispatches() {
    let mut sched = fresh(8);
    let mut a = Thread::new(0x1111, 1);
    a.start(&mut sched).unwrap();
    let mut rsp = 0usize;
    let mut selected = false;
    for _ in 0..8 {
        rsp = sched.on_timer_interrupt(rsp);
        if sched.current_slot() == a.slot.unwrap() {
            selected = true;
            break;
        }
    }
    assert!(selected);
}

#[test]
fn round_robin_sequence_three_tasks() {
    // Three tasks in slots 1, 2, 3; the boot continuation's first save is
    // the null handle, so slot 0 leaves the rotation and six decisions
    // cycle 1, 2, 3, 1, 2, 3.
    let mut sched = fresh(4);
    let mut a = Thread::new(0x1111, 1);
    let mut b = Thread::new(0x2222, 2);
    let mut c = Thread::new(0x3333, 3);
    a.start(&mut sched).unwrap();
    b.start(&mut sched).unwrap();
    c.start(&mut sched).unwrap();
    assert_eq!(sched.current_slot(), 0);

    let mut rsp = 0usize;
    let mut seen = Vec::new();
    for _ in 0..6 {
        rsp = sched.on_timer_interrupt(rsp);
        seen.push(sched.current_slot());
    }
    assert_eq!(seen, vec![1, 2, 3, 1, 2, 3]);
}

#[test]
fn stop_removes_task_permanently() {
    let mut sched = fresh(4);
    let mut a = Thread::new(0x1111, 1);
    let mut b = Thread::new(0x2222, 2);
    a.start(&mut sched).unwrap();
    b.start(&mut sched).unwrap();
    let slot_a = a.slot.unwrap();

    let mut rsp = sched.on_timer_interrupt(0);
    assert_eq!(sched.current_slot(), slot_a);
    rsp = sched.on_timer_interrupt(rsp);
    assert_eq!(sched.current_slot(), b.slot.unwrap());

    a.stop(&mut sched);
    assert_eq!(a.slot, None);
    for _ in 0..10 {
        rsp = sched.on_timer_interrupt(rsp);
        assert_ne!(sched.current_slot(), slot_a);
    }
}

#[test]
fn stop_while_other_is_current_reselects_the_survivor() {
    // Scenario: A and B run; while B is current, A stops; the next
    // decision selects B again, never A.
    let mut sched = fresh(4);
    let mut a = Thread::new(0x1111, 1);
    let mut b = Thread::new(0x2222, 2);
    a.start(&mut sched).unwrap();
    b.start(&mut sched).unwrap();

    let rsp_a = sched.on_timer_interrupt(0);
    assert_eq!(sched.current_slot(), 1);
    let rsp_b = sched.on_timer_interrupt(rsp_a);
    assert_eq!(sched.current_slot(), 2);

    a.stop(&mut sched);
    let resumed = sched.on_timer_interrupt(rsp_b);
    assert_eq!(sched.current_slot(), 2);
    assert_eq!(resumed, rsp_b);
}

#[test]
fn exited_task_never_runs_again_and_slot_is_reusable() {
    let mut sched = fresh(4);
    let mut a = Thread::new(0x1111, 1);
    let mut b = Thread::new(0x2222, 2);
    a.start(&mut sched).unwrap();
    b.start(&mut sched).unwrap();

    let mut rsp = sched.on_timer_interrupt(0);
    assert_eq!(sched.current_slot(), 1);

    // The entry function returned: the trampoline frees the running slot.
    sched.exit_current_task();
    assert_eq!(sched.current_task_start(), None);

    for _ in 0..6 {
        rsp = sched.on_timer_interrupt(rsp);
        assert_ne!(sched.current_slot(), 1);
    }

    // The freed slot is the first free one and is claimed again.
    let mut c = Thread::new(0x3333, 3);
    assert_eq!(c.start(&mut sched), Ok(()));
    assert_eq!(c.slot, Some(1));
}

#[test]
fn corrupt_handle_is_skipped() {
    // A slot whose saved handle is misaligned or out of bounds never
    // passes validation; the next valid candidate is chosen instead.
    let mut sched = fresh(4);
    let mut a = Thread::new(0x1111, 1);
    let mut b = Thread::new(0x2222, 2);
    a.start(&mut sched).unwrap();
    b.start(&mut sched).unwrap();

    let rsp_a = sched.on_timer_interrupt(0);
    assert_eq!(sched.current_slot(), 1);
    assert!(sched.is_valid_saved_rsp(1, rsp_a));

    // Preempt A with a handle outside its private stack: A drops out.
    let bogus = STACK_BASE - 64;
    assert!(!sched.is_valid_saved_rsp(1, bogus));
    let mut rsp = sched.on_timer_interrupt(bogus);
    assert_eq!(sched.current_slot(), 2);

    for _ in 0..6 {
        rsp = sched.on_timer_interrupt(rsp);
        assert_eq!(sched.current_slot(), 2);
    }
}

#[test]
fn misaligned_handle_fails_validation() {
    let sched = fresh(4);
    let top = STACK_BASE + 2 * TASK_STACK_SIZE;
    assert!(!sched.is_valid_saved_rsp(1, 0));
    assert!(!sched.is_valid_saved_rsp(1, top - SAVED_CONTEXT_BYTES - 4));
    assert!(!sched.is_valid_saved_rsp(1, top - SAVED_CONTEXT_BYTES + 8));
    assert!(sched.is_valid_saved_rsp(1, top - SAVED_CONTEXT_BYTES - 16));
    // Slot 0 saves on the boot stack: any aligned non-null handle passes.
    assert!(sched.is_valid_saved_rsp(0, 0x8000));
    assert!(!sched.is_valid_saved_rsp(0, 0x8001));
}

#[test]
fn fresh_slot_handle_passes_validation() {
    let mut sched = fresh(4);
    let mut a = Thread::new(0x1111, 1);
    a.start(&mut sched).unwrap();
    let rsp = sched.initial_task_rsp(1);
    assert!(sched.is_valid_saved_rsp(1, rsp));
    assert_eq!(rsp % 8, 0);
    let top = STACK_BASE + 2 * TASK_STACK_SIZE;
    assert!(rsp + SAVED_CONTEXT_BYTES <= top);
    assert!(rsp >= STACK_BASE + TASK_STACK_SIZE);
}

#[test]
fn trampoline_sees_start_info_of_current_task() {
    let mut sched = fresh(4);
    let mut a = Thread::new(0xAB_CDEF, 7);
    a.start(&mut sched).unwrap();
    sched.on_timer_interrupt(0);
    assert_eq!(sched.current_slot(), 1);
    let start = sched.current_task_start().unwrap();
    assert_eq!(start.entry, 0xAB_CDEF);
    assert_eq!(start.id, 7);
}

#[test]
fn init_resets_table_and_computes_timer_reload() {
    let mut sched = fresh(4);
    let mut a = Thread::new(0x1111, 1);
    a.start(&mut sched).unwrap();

    // 100 microseconds at 1.193182 MHz.
    let divisor = init(&mut sched, 100);
    assert_eq!(divisor, 119);
    assert_eq!(sched.current_slot(), 0);
    // The table was cleared: the old task is gone and its slot free.
    let mut b = Thread::new(0x2222, 2);
    assert_eq!(b.start(&mut sched), Ok(()));
    assert_eq!(b.slot, Some(1));
}
