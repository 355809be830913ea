//! Fatal-interrupt reporting. A vector without a dedicated handler halts
//! the machine; what is reported — the vector number, the optional error
//! code, and the captured frame — is assembled here, and the shell that
//! owns the processor prints it and halts.

use vstd::prelude::*;

verus! {

/// The hardware frame captured when an interrupt fired.
#[derive(Clone, Copy, Debug, PartialEq, Eq, Structural)]
pub struct TrapFrame {
    pub instruction_pointer: u64,
    pub code_segment: u64,
    pub cpu_flags: u64,
    pub stack_pointer: u64,
    pub stack_segment: u64,
}

/// Everything a fatal interrupt reports before the machine halts.
#[derive(Clone, Copy, Debug, PartialEq, Eq, Structural)]
pub struct InterruptReport {
    pub vector: u8,
    pub error_code: Option<u64>,
    pub frame: TrapFrame,
}

/// The report for a vector no specific handler claims. The condition is
/// fatal: the shell prints the report and halts; there is no recovery path.
pub fn default_handler(stack_frame: TrapFrame, index: u8, error_code: Option<u64>) -> (r:
    InterruptReport)
    ensures
        r.vector == index,
        r.error_code == error_code,
        r.frame == stack_frame,
{
    InterruptReport { vector: index, error_code, frame: stack_frame }
}

/// The report for a division fault; fatal like every unhandled exception.
pub fn zero_division(stack_frame: TrapFrame, index: u8, error_code: Option<u64>) -> (r:
    InterruptReport)
    ensures
        r.vector == index,
        r.error_code == error_code,
        r.frame == stack_frame,
{
    InterruptReport { vector: index, error_code, frame: stack_frame }
}

} // verus!
