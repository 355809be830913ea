//! Core of a small bare-metal kernel: a fixed-capacity, round-robin,
//! preemptive task scheduler together with the table-driven pieces of the
//! kernel that surround it (disk sector adapters, framebuffer geometry,
//! identity page tables, interrupt-controller masks and timers).
//!
//! Everything here works on plain values; the hardware edges (port I/O,
//! descriptor tables, the context save/restore stubs) live with the
//! unverified shell that drives this library.

pub mod elf_loader;
pub mod fat;
pub mod gui;
pub mod handlers;
pub mod multitask;
pub mod paging;
pub mod pic;
pub mod pit;
pub mod rtc;

use vstd::prelude::*;

verus! {

} // verus!
