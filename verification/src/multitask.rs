//! Fixed-capacity, round-robin, preemptive task scheduler.
//!
//! The scheduler owns a table of task slots. Each slot remembers the stack
//! handle under which the task's full register context was saved at the last
//! timer interrupt, together with a readiness flag. Slot 0 is reserved for
//! the caller context that was live before the scheduler started; it saves
//! onto the original boot stack rather than one of the per-slot stacks.
//!
//! The hardware side (the interrupt stub that pushes and pops the register
//! record, the timer, the end-of-interrupt acknowledgment) lives outside the
//! library; it hands every dispatch decision the interrupted stack handle and
//! resumes whatever handle the decision returns.

pub mod laws;

use vstd::prelude::*;

verus! {

/// Default number of task slots, slot 0 included.
pub const MAX_TASK: usize = 32;

/// Bytes of private stack owned by each slot.
pub const TASK_STACK_SIZE: usize = 16 * 1024;

/// Bytes of general-purpose registers pushed by the save stub.
pub const SAVED_GPR_BYTES: usize = 15 * 8;

/// Bytes of vector registers pushed by the save stub.
pub const SAVED_XMM_BYTES: usize = 16 * 16;

/// Bytes pushed by software before the hardware return frame.
pub const CONTEXT_PREFIX_BYTES: usize = SAVED_GPR_BYTES + SAVED_XMM_BYTES;

/// Bytes of the hardware interrupt return frame (return address, code
/// selector, flags).
pub const IRET_FRAME_BYTES: usize = 3 * 8;

/// Total bytes of one saved context record.
pub const SAVED_CONTEXT_BYTES: usize = CONTEXT_PREFIX_BYTES + IRET_FRAME_BYTES;

/// Required alignment of a saved context record.
pub const SAVED_CONTEXT_ALIGN: usize = 8;

/// Bytes reserved above a fresh task's entry frame so that the entry function
/// starts with the stack alignment the calling convention expects.
pub const TASK_ENTRY_STACK_RESERVE_BYTES: usize = 24;

/// One slot's saved scheduling state: where its context record was saved,
/// and whether the slot takes part in the rotation.
#[derive(Clone, Copy, PartialEq, Eq, Structural, Debug)]
pub struct TaskContext {
    pub saved_rsp: usize,
    pub ready: bool,
}

/// Start metadata of one slot, kept apart from the context record so the
/// entry trampoline can recover it from a freshly built stack frame.
#[derive(Clone, Copy, PartialEq, Eq, Structural, Debug)]
pub struct TaskStart {
    /// Address of the task's entry function.
    pub entry: usize,
    pub id: u16,
}

/// Errors the task lifecycle can report.
#[derive(Clone, Copy, PartialEq, Eq, Structural, Debug)]
pub enum SchedError {
    /// No free slot was left for a new task; the table never grows.
    CapacityExhausted,
}

/// Reserved bit 1 of the flags register, always set.
pub const RFLAGS_RESERVED_BIT_1: u64 = 0x2;

/// The interrupt-enable bit of the flags register.
pub const RFLAGS_INTERRUPT_FLAG: u64 = 0x200;

/// Model of one saved context record: the fields the save stub pushes, in
/// the order it pushes them, plus the hardware return frame. The byte-exact
/// layout (`repr(C)`, the offsets in the byte constants above) is a binding
/// contract with the save/restore stubs and is asserted where those stubs
/// live; reordering these fields breaks correctness silently.
#[derive(Clone, Copy)]
pub struct SavedContext {
    pub rax: u64,
    pub rbx: u64,
    pub rcx: u64,
    pub rdx: u64,
    pub rsi: u64,
    pub rdi: u64,
    pub rbp: u64,
    pub r8: u64,
    pub r9: u64,
    pub r10: u64,
    pub r11: u64,
    pub r12: u64,
    pub r13: u64,
    pub r14: u64,
    pub r15: u64,
    pub xmm: [[u8; 16]; 16],
    pub rip: u64,
    pub cs: u64,
    pub rflags: u64,
}

impl SavedContext {
    /// Every register and frame field zero.
    pub open spec fn all_zero(self) -> bool {
        &&& self.rax == 0 && self.rbx == 0 && self.rcx == 0 && self.rdx == 0
        &&& self.rsi == 0 && self.rdi == 0 && self.rbp == 0
        &&& self.r8 == 0 && self.r9 == 0 && self.r10 == 0 && self.r11 == 0
        &&& self.r12 == 0 && self.r13 == 0 && self.r14 == 0 && self.r15 == 0
        &&& forall|i: int, j: int| 0 <= i < 16 && 0 <= j < 16 ==> self.xmm[i][j] == 0
        &&& self.rip == 0 && self.cs == 0 && self.rflags == 0
    }

    /// A zeroed record.
    pub fn empty() -> (r: SavedContext)
        ensures
            r.all_zero(),
    {
        SavedContext {
            rax: 0,
            rbx: 0,
            rcx: 0,
            rdx: 0,
            rsi: 0,
            rdi: 0,
            rbp: 0,
            r8: 0,
            r9: 0,
            r10: 0,
            r11: 0,
            r12: 0,
            r13: 0,
            r14: 0,
            r15: 0,
            xmm: [[0u8; 16]; 16],
            rip: 0,
            cs: 0,
            rflags: 0,
        }
    }

    /// The record installed into a freshly allocated slot: everything zero
    /// except the return frame, which resumes into `entry_rip` (the entry
    /// trampoline) with the given code selector and flags.
    pub fn for_entry(entry_rip: u64, cs: u64, rflags: u64) -> (r: SavedContext)
        ensures
            r.rip == entry_rip,
            r.cs == cs,
            r.rflags == rflags,
            r.rax == 0 && r.rbx == 0 && r.rcx == 0 && r.rdx == 0,
            r.rsi == 0 && r.rdi == 0 && r.rbp == 0,
            r.r8 == 0 && r.r9 == 0 && r.r10 == 0 && r.r11 == 0,
            r.r12 == 0 && r.r13 == 0 && r.r14 == 0 && r.r15 == 0,
            forall|i: int, j: int| 0 <= i < 16 && 0 <= j < 16 ==> r.xmm[i][j] == 0,
    {
        let mut r = SavedContext::empty();
        r.rip = entry_rip;
        r.cs = cs;
        r.rflags = rflags;
        r
    }
}

/// The flags value a fresh task starts with: the always-set reserved bit,
/// and the interrupt flag so that the resumed task keeps being preempted.
pub fn initial_task_rflags() -> (r: u64)
    ensures
        r == RFLAGS_RESERVED_BIT_1 | RFLAGS_INTERRUPT_FLAG,
        r & RFLAGS_INTERRUPT_FLAG != 0,
{
    proof {
        assert(0x2u64 | 0x200u64 == 0x202u64 && 0x202u64 & 0x200u64 != 0u64) by (bit_vector);
    }
    RFLAGS_RESERVED_BIT_1 | RFLAGS_INTERRUPT_FLAG
}

/// Mathematical view of the scheduler: the two parallel slot tables, the
/// index of the running slot, and the base address of the stack region.
#[verifier::ext_equal]
pub ghost struct SchedState {
    pub contexts: Seq<Option<TaskContext>>,
    pub starts: Seq<Option<TaskStart>>,
    pub current: int,
    pub stack_base: int,
}

impl SchedState {
    /// Number of slots.
    pub open spec fn cap(self) -> int {
        self.contexts.len() as int
    }

    /// Basic well-formedness: parallel tables, a running slot in range, and
    /// a stack region that fits in the address space.
    pub open spec fn wf(self) -> bool {
        &&& self.contexts.len() == self.starts.len()
        &&& 1 <= self.cap()
        &&& 0 <= self.current < self.cap()
        &&& 0 < self.stack_base
        &&& self.stack_base + self.cap() * TASK_STACK_SIZE <= usize::MAX
    }

    /// First address of `slot`'s private stack.
    pub open spec fn stack_lo(self, slot: int) -> int {
        self.stack_base + slot * TASK_STACK_SIZE
    }

    /// One past the last address of `slot`'s private stack.
    pub open spec fn stack_hi(self, slot: int) -> int {
        self.stack_lo(slot) + TASK_STACK_SIZE
    }

    /// A saved stack handle may be resumed only if it is non-null, aligned
    /// for a context record and, for every slot but the reserved slot 0,
    /// keeps the whole record inside the slot's own stack. Slot 0 saves on
    /// the boot stack, whose bounds the scheduler does not know.
    pub open spec fn handle_ok(self, slot: int, rsp: int) -> bool {
        &&& rsp != 0
        &&& rsp % (SAVED_CONTEXT_ALIGN as int) == 0
        &&& (slot == 0 || {
            &&& self.stack_lo(slot) <= rsp
            &&& rsp + SAVED_CONTEXT_BYTES <= self.stack_hi(slot)
        })
    }

    /// A slot the dispatcher may switch into: occupied, ready, and holding a
    /// saved handle that passes validation.
    pub open spec fn runnable(self, slot: int) -> bool {
        &&& 0 <= slot < self.cap()
        &&& self.contexts[slot] matches Some(c) && c.ready && self.handle_ok(
            slot,
            c.saved_rsp as int,
        )
    }

    /// Smallest rotation offset `o` in `[offset, cap]` such that the slot
    /// `(current + o) % cap` is runnable, if any.
    pub open spec fn first_runnable_offset_from(self, current: int, offset: int) -> Option<int>
        decreases self.cap() + 1 - offset,
    {
        if !(1 <= offset <= self.cap()) {
            None
        } else if self.runnable((current + offset) % self.cap()) {
            Some(offset)
        } else {
            self.first_runnable_offset_from(current, offset + 1)
        }
    }

    /// Smallest positive rotation offset leading to a runnable slot.
    pub open spec fn first_runnable_offset(self, current: int) -> Option<int> {
        self.first_runnable_offset_from(current, 1)
    }

    /// The slot a dispatch decision made at `current` switches to: the first
    /// runnable slot in rotation order starting just after `current`.
    pub open spec fn next_ready(self, current: int) -> Option<int> {
        match self.first_runnable_offset(current) {
            Some(o) => Some((current + o) % self.cap()),
            None => None,
        }
    }

    /// The state after the outgoing slot's context has been persisted: its
    /// saved handle becomes the just-interrupted stack handle, and its
    /// readiness records whether that handle passed validation.
    pub open spec fn with_current_saved(self, rsp: usize) -> SchedState {
        if self.contexts[self.current] is Some {
            SchedState {
                contexts: self.contexts.update(
                    self.current,
                    Some(
                        TaskContext {
                            saved_rsp: rsp,
                            ready: self.handle_ok(self.current, rsp as int),
                        },
                    ),
                ),
                ..self
            }
        } else {
            self
        }
    }

    /// One full dispatch decision: persist the outgoing slot, then move
    /// `current` to the first runnable slot after it, if one exists.
    pub open spec fn step(self, rsp: usize) -> SchedState {
        let mid = self.with_current_saved(rsp);
        match mid.next_ready(self.current) {
            Some(idx) => SchedState { current: idx, ..mid },
            None => mid,
        }
    }

    /// The stack handle the dispatch decision resumes: the chosen slot's
    /// saved handle, or the just-saved handle unchanged when no candidate
    /// passes validation.
    pub open spec fn resume_handle(self, rsp: usize) -> usize {
        let mid = self.with_current_saved(rsp);
        match mid.next_ready(self.current) {
            Some(idx) => match mid.contexts[idx] {
                Some(c) => c.saved_rsp,
                None => rsp,
            },
            None => rsp,
        }
    }

    /// Smallest free slot index in `[slot, cap)`, never slot 0.
    pub open spec fn first_free_from(self, slot: int) -> Option<int>
        decreases self.cap() - slot,
    {
        if !(1 <= slot < self.cap()) {
            None
        } else if self.contexts[slot] is None {
            Some(slot)
        } else {
            self.first_free_from(slot + 1)
        }
    }

    /// The slot `start()` would claim: the first unoccupied slot after the
    /// reserved slot 0.
    pub open spec fn first_free(self) -> Option<int> {
        self.first_free_from(1)
    }

    /// Where a fresh task's context record is placed on its private stack:
    /// just below the aligned stack top, leaving the entry reserve above it.
    pub open spec fn initial_task_rsp(self, slot: int) -> int {
        (self.stack_hi(slot) / 16) * 16 - TASK_ENTRY_STACK_RESERVE_BYTES - SAVED_CONTEXT_BYTES
    }

    /// How `post` relates to `pre` when a task with `entry` and `id` has
    /// been allocated into `slot`: the slot was the first free one, it is
    /// now occupied, ready and runnable with a fresh context record at the
    /// top of its own stack, and nothing else moved.
    pub open spec fn alloc_post(pre: SchedState, post: SchedState, slot: int, entry: usize, id: u16) -> bool {
        &&& pre.first_free() == Some(slot)
        &&& 1 <= slot < pre.cap()
        &&& pre.contexts[slot] is None
        &&& post.cap() == pre.cap()
        &&& post.stack_base == pre.stack_base
        &&& post.current == pre.current
        &&& post.contexts[slot] matches Some(c) && c.ready && c.saved_rsp == pre.initial_task_rsp(
            slot,
        )
        &&& post.starts == pre.starts.update(slot, Some(TaskStart { entry, id }))
        &&& forall|j: int| 0 <= j < pre.cap() && j != slot ==> post.contexts[j] == pre.contexts[j]
        &&& post.runnable(slot)
    }
}

/// The scheduler: the slot tables, the running slot, and the base address of
/// the statically allocated region holding every slot's private stack.
pub struct Scheduler {
    contexts: Vec<Option<TaskContext>>,
    starts: Vec<Option<TaskStart>>,
    current_task: usize,
    stack_base: usize,
}

impl View for Scheduler {
    type V = SchedState;

    closed spec fn view(&self) -> SchedState {
        SchedState {
            contexts: self.contexts@,
            starts: self.starts@,
            current: self.current_task as int,
            stack_base: self.stack_base as int,
        }
    }
}

impl Scheduler {
    /// A scheduler of `capacity` empty slots whose private stacks start at
    /// `stack_base`, each `TASK_STACK_SIZE` bytes.
    pub fn new(stack_base: usize, capacity: usize) -> (s: Scheduler)
        requires
            1 <= capacity,
            0 < stack_base,
            stack_base + capacity * TASK_STACK_SIZE <= usize::MAX,
        ensures
            s@.wf(),
            s@.cap() == capacity,
            s@.stack_base == stack_base,
            s@.current == 0,
            forall|i: int| 0 <= i < capacity ==> s@.contexts[i] is None,
            forall|i: int| 0 <= i < capacity ==> s@.starts[i] is None,
    {
        let mut contexts: Vec<Option<TaskContext>> = Vec::new();
        let mut starts: Vec<Option<TaskStart>> = Vec::new();
        let mut i: usize = 0;
        while i < capacity
            invariant
                i <= capacity,
                contexts.len() == i,
                starts.len() == i,
                forall|j: int| 0 <= j < i ==> contexts[j] is None,
                forall|j: int| 0 <= j < i ==> starts[j] is None,
            decreases capacity - i,
        {
            contexts.push(None);
            starts.push(None);
            i = i + 1;
        }
        Scheduler { contexts, starts, current_task: 0, stack_base }
    }

    /// Empty every slot, then mark slot 0 occupied and ready: it stands for
    /// the caller's own continuation, whose context is first saved at the
    /// first timer interrupt.
    pub fn reset(&mut self)
        requires
            old(self)@.wf(),
        ensures
            final(self)@.wf(),
            final(self)@.cap() == old(self)@.cap(),
            final(self)@.stack_base == old(self)@.stack_base,
            final(self)@.current == 0,
            final(self)@.contexts[0] == Some(TaskContext { saved_rsp: 0, ready: true }),
            forall|i: int| 1 <= i < final(self)@.cap() ==> final(self)@.contexts[i] is None,
            forall|i: int| 0 <= i < final(self)@.cap() ==> final(self)@.starts[i] is None,
    {
        let capacity = self.contexts.len();
        let mut contexts: Vec<Option<TaskContext>> = Vec::new();
        let mut starts: Vec<Option<TaskStart>> = Vec::new();
        let mut i: usize = 0;
        while i < capacity
            invariant
                i <= capacity,
                contexts.len() == i,
                starts.len() == i,
                forall|j: int| 0 <= j < i ==> contexts[j] is None,
                forall|j: int| 0 <= j < i ==> starts[j] is None,
            decreases capacity - i,
        {
            contexts.push(None);
            starts.push(None);
            i = i + 1;
        }
        contexts.set(0, Some(TaskContext { saved_rsp: 0, ready: true }));
        self.contexts = contexts;
        self.starts = starts;
        self.current_task = 0;
    }

    /// Free one slot: both its context and its start metadata go away, and
    /// the slot may be claimed again by a later `start()`.
    pub fn clear_slot(&mut self, slot: usize)
        requires
            old(self)@.wf(),
            slot < old(self)@.cap(),
        ensures
            final(self)@.wf(),
            final(self)@.contexts == old(self)@.contexts.update(slot as int, None::<TaskContext>),
            final(self)@.starts == old(self)@.starts.update(slot as int, None::<TaskStart>),
            final(self)@.current == old(self)@.current,
            final(self)@.stack_base == old(self)@.stack_base,
    {
        self.contexts.set(slot, None);
        self.starts.set(slot, None);
    }

    /// Bounds of `slot`'s private stack inside the stack region.
    pub fn stack_bounds(&self, slot: usize) -> (r: (usize, usize))
        requires
            self@.wf(),
            slot < self@.cap(),
        ensures
            r.0 == self@.stack_lo(slot as int),
            r.1 == self@.stack_hi(slot as int),
    {
        proof {
            assert((slot + 1) * TASK_STACK_SIZE <= self@.cap() * TASK_STACK_SIZE) by (
            nonlinear_arith)
                requires
                    slot + 1 <= self@.cap(),
            ;
            assert(slot * TASK_STACK_SIZE + TASK_STACK_SIZE == (slot + 1) * TASK_STACK_SIZE) by (
            nonlinear_arith);
        }
        let base = self.stack_base + slot * TASK_STACK_SIZE;
        (base, base + TASK_STACK_SIZE)
    }

    /// Validate a saved stack handle for `slot`, exactly as the dispatcher
    /// does before switching into the slot.
    pub fn is_valid_saved_rsp(&self, slot: usize, saved_rsp: usize) -> (r: bool)
        requires
            self@.wf(),
            slot < self@.cap(),
        ensures
            r == self@.handle_ok(slot as int, saved_rsp as int),
    {
        if saved_rsp == 0 {
            return false;
        }
        let align_mask = SAVED_CONTEXT_ALIGN - 1;
        if (saved_rsp & align_mask) != 0 {
            proof {
                assert((saved_rsp as u64) & 7 == (saved_rsp as u64) % 8) by (bit_vector);
            }
            return false;
        }
        proof {
            assert((saved_rsp as u64) & 7 == (saved_rsp as u64) % 8) by (bit_vector);
        }

        // Slot 0 resumes on the inherited boot stack.
        if slot == 0 {
            return true;
        }

        let (base, top) = self.stack_bounds(slot);
        if saved_rsp > usize::MAX - SAVED_CONTEXT_BYTES {
            return false;
        }
        let frame_end = saved_rsp + SAVED_CONTEXT_BYTES;

        saved_rsp >= base && frame_end <= top
    }

    /// The first runnable slot in rotation order after `current`, wrapping
    /// through all slots exactly once; `None` when no slot passes.
    pub fn next_ready_task_index(&self, current: usize) -> (r: Option<usize>)
        requires
            self@.wf(),
            current < self@.cap(),
        ensures
            match r {
                Some(i) => {
                    &&& self@.next_ready(current as int) == Some(i as int)
                    &&& i < self@.cap()
                    &&& self@.runnable(i as int)
                },
                None => self@.next_ready(current as int) is None,
            },
    {
        let cap = self.contexts.len();
        proof {
            assert(2 * cap <= cap * TASK_STACK_SIZE) by (nonlinear_arith)
                requires
                    1 <= cap,
            ;
        }
        let mut offset: usize = 1;
        while offset <= cap
            invariant
                self@.wf(),
                current < cap,
                cap == self@.cap(),
                2 * cap <= cap * TASK_STACK_SIZE,
                1 <= offset <= cap + 1,
                self@.first_runnable_offset(current as int) == self@.first_runnable_offset_from(
                    current as int,
                    offset as int,
                ),
            decreases cap + 1 - offset,
        {
            let idx = (current + offset) % cap;
            let c = self.contexts[idx];
            let mut hit = false;
            if let Some(ctx) = c {
                if ctx.ready && self.is_valid_saved_rsp(idx, ctx.saved_rsp) {
                    hit = true;
                }
            }
            if hit {
                proof {
                    assert(self@.runnable(idx as int));
                    assert(self@.first_runnable_offset_from(current as int, offset as int)
                        == Some(offset as int));
                }
                return Some(idx);
            }
            proof {
                assert(!self@.runnable(idx as int));
                assert(self@.first_runnable_offset_from(current as int, offset as int)
                    == self@.first_runnable_offset_from(current as int, offset as int + 1));
            }
            offset = offset + 1;
        }
        proof {
            assert(self@.first_runnable_offset_from(current as int, offset as int) is None);
        }
        None
    }

    /// Where a fresh task's context record starts on `slot`'s private stack:
    /// below the 16-byte-aligned stack top and the entry reserve. The result
    /// always passes handle validation for `slot`.
    pub fn initial_task_rsp(&self, slot: usize) -> (r: usize)
        requires
            self@.wf(),
            1 <= slot < self@.cap(),
        ensures
            r == self@.initial_task_rsp(slot as int),
            self@.handle_ok(slot as int, r as int),
    {
        let (base, top) = self.stack_bounds(slot);
        let stack_top = top & !0xF;
        proof {
            assert(top & !0xF == (top / 16) * 16 && top & !0xF <= top && top < (top & !0xF) + 16)
                by (bit_vector);
            assert((top / 16) * 16 % 8 == 0) by (nonlinear_arith);
        }
        let task_rsp = stack_top - TASK_ENTRY_STACK_RESERVE_BYTES;
        let r = task_rsp - SAVED_CONTEXT_BYTES;
        proof {
            assert(r % 8 == 0) by (nonlinear_arith)
                requires
                    stack_top % 8 == 0,
                    r + TASK_ENTRY_STACK_RESERVE_BYTES + SAVED_CONTEXT_BYTES == stack_top,
            ;
        }
        r
    }

    /// Claim the first free slot after slot 0 for a new task: install a
    /// fresh, ready context whose record sits at the top of the slot's own
    /// stack, and remember the task's entry and id. Returns `None`, changing
    /// nothing, exactly when every slot is occupied.
    pub fn allocate_slot(&mut self, entry: usize, id: u16) -> (r: Option<usize>)
        requires
            old(self)@.wf(),
        ensures
            final(self)@.wf(),
            final(self)@.cap() == old(self)@.cap(),
            final(self)@.stack_base == old(self)@.stack_base,
            final(self)@.current == old(self)@.current,
            match r {
                Some(slot) => SchedState::alloc_post(old(self)@, final(self)@, slot as int, entry, id),
                None => {
                    &&& old(self)@.first_free() is None
                    &&& final(self)@ == old(self)@
                },
            },
    {
        let cap = self.contexts.len();
        let mut slot: usize = 1;
        while slot < cap
            invariant
                self@.wf(),
                self@ == old(self)@,
                cap == self@.cap(),
                1 <= slot <= cap,
                self@.first_free() == self@.first_free_from(slot as int),
            decreases cap - slot,
        {
            let c = self.contexts[slot];
            if c.is_none() {
                proof {
                    assert(self@.first_free_from(slot as int) == Some(slot as int));
                }
                let rsp = self.initial_task_rsp(slot);
                self.contexts.set(slot, Some(TaskContext { saved_rsp: rsp, ready: true }));
                self.starts.set(slot, Some(TaskStart { entry, id }));
                return Some(slot);
            }
            proof {
                assert(self@.first_free_from(slot as int) == self@.first_free_from(slot as int + 1));
            }
            slot = slot + 1;
        }
        proof {
            assert(self@.first_free_from(slot as int) is None);
        }
        None
    }

    /// One dispatch decision, made once per timer interrupt with the stack
    /// handle under which the running task was just saved. Persists the
    /// outgoing slot, rotates to the first runnable slot, and returns the
    /// stack handle to resume — the incoming handle unchanged when no
    /// candidate passes validation, so the dispatcher never switches into an
    /// invalid context.
    pub fn on_timer_interrupt(&mut self, current_rsp: usize) -> (r: usize)
        requires
            old(self)@.wf(),
        ensures
            final(self)@.wf(),
            final(self)@ == old(self)@.step(current_rsp),
            r == old(self)@.resume_handle(current_rsp),
            r == current_rsp || final(self)@.runnable(final(self)@.current),
    {
        let current_slot = self.current_task;
        let current_ready = self.is_valid_saved_rsp(current_slot, current_rsp);
        let c = self.contexts[current_slot];
        if c.is_some() {
            self.contexts.set(
                current_slot,
                Some(TaskContext { saved_rsp: current_rsp, ready: current_ready }),
            );
        }
        proof {
            assert(self@ =~= old(self)@.with_current_saved(current_rsp));
        }

        let next = self.next_ready_task_index(current_slot);
        match next {
            Some(idx) => {
                let ctx = self.contexts[idx];
                self.current_task = idx;
                proof {
                    assert(final(self)@ =~= old(self)@.step(current_rsp));
                }
                ctx.unwrap().saved_rsp
            },
            None => {
                proof {
                    assert(final(self)@ =~= old(self)@.step(current_rsp));
                }
                current_rsp
            },
        }
    }

    /// Start metadata of the running slot, as the entry trampoline looks it
    /// up on first dispatch into a fresh task.
    pub fn current_task_start(&self) -> (r: Option<TaskStart>)
        requires
            self@.wf(),
        ensures
            r == self@.starts[self@.current],
    {
        self.starts[self.current_task]
    }

    /// Free the running slot, as the entry trampoline does when a task's
    /// entry function returns; the slot leaves the rotation for good and may
    /// be reused by a later `start()`.
    pub fn exit_current_task(&mut self)
        requires
            old(self)@.wf(),
        ensures
            final(self)@.wf(),
            final(self)@.contexts == old(self)@.contexts.update(
                old(self)@.current,
                None::<TaskContext>,
            ),
            final(self)@.starts == old(self)@.starts.update(old(self)@.current, None::<TaskStart>),
            final(self)@.current == old(self)@.current,
            final(self)@.stack_base == old(self)@.stack_base,
    {
        let cur = self.current_task;
        self.clear_slot(cur);
    }

    /// Index of the running slot.
    pub fn current_slot(&self) -> (r: usize)
        ensures
            r == self@.current,
    {
        self.current_task
    }

    /// Number of slots in the table.
    pub fn capacity(&self) -> (r: usize)
        ensures
            r == self@.cap(),
    {
        self.contexts.len()
    }
}

/// A user-facing handle over one task: its entry function's address, its
/// numeric id, and — once started — the slot it registered. The handle does
/// not own the slot; it merely remembers which one it claimed.
pub struct Thread {
    pub entry: usize,
    pub id: u16,
    pub slot: Option<usize>,
}

impl Thread {
    /// Pure construction; the task is not yet registered anywhere.
    pub fn new(entry: usize, id: u16) -> (t: Thread)
        ensures
            t.entry == entry,
            t.id == id,
            t.slot is None,
    {
        Thread { entry, id, slot: None }
    }

    /// Register the task in the first free slot. Idempotent: a handle that
    /// already holds a slot changes nothing and succeeds. Fails with
    /// `CapacityExhausted`, changing nothing, exactly when the handle is
    /// unregistered and every slot is occupied.
    pub fn start(&mut self, sched: &mut Scheduler) -> (r: Result<(), SchedError>)
        requires
            old(sched)@.wf(),
        ensures
            final(sched)@.wf(),
            final(self).entry == old(self).entry,
            final(self).id == old(self).id,
            old(self).slot is Some ==> {
                &&& final(self).slot == old(self).slot
                &&& final(sched)@ == old(sched)@
                &&& r is Ok
            },
            old(self).slot is None ==> match r {
                Ok(_) => {
                    &&& final(self).slot matches Some(s) && SchedState::alloc_post(
                        old(sched)@,
                        final(sched)@,
                        s as int,
                        old(self).entry,
                        old(self).id,
                    )
                },
                Err(e) => {
                    &&& e == SchedError::CapacityExhausted
                    &&& old(sched)@.first_free() is None
                    &&& final(sched)@ == old(sched)@
                    &&& final(self).slot is None
                },
            },
    {
        if self.slot.is_some() {
            return Ok(());
        }
        match sched.allocate_slot(self.entry, self.id) {
            Some(slot) => {
                self.slot = Some(slot);
                Ok(())
            },
            None => Err(SchedError::CapacityExhausted),
        }
    }

    /// Unregister the task: its slot, if any, is cleared and immediately
    /// free for reuse. A handle that never started changes nothing.
    pub fn stop(&mut self, sched: &mut Scheduler)
        requires
            old(sched)@.wf(),
            old(self).slot matches Some(s) ==> s < old(sched)@.cap(),
        ensures
            final(sched)@.wf(),
            final(self).entry == old(self).entry,
            final(self).id == old(self).id,
            final(self).slot is None,
            match old(self).slot {
                Some(s) => {
                    &&& final(sched)@.contexts == old(sched)@.contexts.update(
                        s as int,
                        None::<TaskContext>,
                    )
                    &&& final(sched)@.starts == old(sched)@.starts.update(
                        s as int,
                        None::<TaskStart>,
                    )
                    &&& final(sched)@.current == old(sched)@.current
                    &&& final(sched)@.stack_base == old(sched)@.stack_base
                },
                None => final(sched)@ == old(sched)@,
            },
    {
        match self.slot {
            Some(slot) => {
                self.slot = None;
                sched.clear_slot(slot);
            },
            None => {},
        }
    }
}

/// Prepare the scheduler for preemption: empty every slot, mark slot 0 as
/// the caller's own ready continuation, and compute the reload value under
/// which the hardware timer fires every `interval_us` microseconds. Arming
/// the timer with that value, and routing its interrupt to the save/restore
/// stub, is the hardware side's part.
pub fn init(sched: &mut Scheduler, interval_us: u64) -> (divisor: u16)
    requires
        old(sched)@.wf(),
        1 <= interval_us <= crate::pit::MAX_INTERVAL_US,
    ensures
        final(sched)@.wf(),
        final(sched)@.cap() == old(sched)@.cap(),
        final(sched)@.stack_base == old(sched)@.stack_base,
        final(sched)@.current == 0,
        final(sched)@.contexts[0] == Some(TaskContext { saved_rsp: 0, ready: true }),
        forall|i: int| 1 <= i < final(sched)@.cap() ==> final(sched)@.contexts[i] is None,
        forall|i: int| 0 <= i < final(sched)@.cap() ==> final(sched)@.starts[i] is None,
        divisor == crate::pit::BASE_FREQUENCY_HZ * interval_us / 1_000_000,
{
    sched.reset();
    crate::pit::reload_for_micros(interval_us)
}

} // verus!
