//! Identity page tables with 2 MiB huge pages. The page-directory level —
//! one entry per 2 MiB block over the first 512 GiB — is what the kernel
//! edits at run time; that level's entries are held and updated here. The
//! two upper table levels only point at the lower tables by their machine
//! addresses, and wiring them, like loading the table root into the
//! processor, belongs to the hardware side.

use vstd::prelude::*;

verus! {

/// Bytes covered by one huge page.
pub const HUGE_2MIB: u64 = 2 * 1024 * 1024;

/// Entries per hardware page table.
pub const ENTRIES_PER_TABLE: usize = 512;

/// Bytes of address space the directory covers.
pub const ADDRESS_SPACE_LIMIT: u64 = 512 * 1024 * 1024 * 1024;

/// Number of 2 MiB blocks the directory covers.
pub const MAX_PAGE_BLOCK: u64 = 512 * 512;

/// Entry bit: the mapping is present.
pub const PAGE_PRESENT: u64 = 1;

/// Entry bit: the mapping is writable.
pub const PAGE_WRITABLE: u64 = 2;

/// Entry bit: the entry maps a huge page rather than a further table.
pub const PAGE_HUGE: u64 = 0x80;

/// A 2 MiB huge-page entry uses bit 12 as its memory-type selector; set,
/// it picks the write-combining slot of the type table.
pub const WRITE_COMBINE_BIT: u64 = 0x1000;

/// The bits of an entry that hold the mapped physical address.
pub const PAGE_ADDR_MASK: u64 = 0x000F_FFFF_FFFF_F000;

/// The bits of an entry the hardware defines as flags.
pub const PAGE_FLAGS_MASK: u64 = 0xFFF0_0000_0000_0FFF;

/// The page-directory level of the kernel's identity mapping: one entry
/// per 2 MiB block, indexed by block number.
pub struct PML4 {
    pd: Vec<u64>,
}

impl View for PML4 {
    type V = Seq<u64>;

    closed spec fn view(&self) -> Seq<u64> {
        self.pd@
    }
}

/// The identity entry for one block: its own address, present, writable,
/// huge.
pub open spec fn identity_entry(block: int) -> u64 {
    ((block * HUGE_2MIB) as u64) | PAGE_PRESENT | PAGE_WRITABLE | PAGE_HUGE
}

/// The entry mapping `virt` to `phys_block` with `flags`.
pub open spec fn huge_entry(phys_block: u64, flags: u64) -> u64 {
    ((phys_block * HUGE_2MIB) as u64) | flags | PAGE_HUGE
}

impl PML4 {
    /// The directory holds one entry per covered block.
    pub open spec fn wf(&self) -> bool {
        self@.len() == MAX_PAGE_BLOCK
    }

    /// A fresh identity mapping: every block maps to itself, present,
    /// writable, huge.
    pub fn init(&mut self)
        ensures
            final(self).wf(),
            forall|b: int| 0 <= b < MAX_PAGE_BLOCK ==> final(self)@[b] == identity_entry(b),
    {
        let mut pd: Vec<u64> = Vec::new();
        let mut block: u64 = 0;
        while block < MAX_PAGE_BLOCK
            invariant
                block <= MAX_PAGE_BLOCK,
                pd.len() == block,
                forall|b: int| 0 <= b < block ==> pd[b] == identity_entry(b),
            decreases MAX_PAGE_BLOCK - block,
        {
            proof {
                assert(block * HUGE_2MIB < 0x8000000000) by (nonlinear_arith)
                    requires
                        block < 0x40000u64,
                ;
            }
            let entry = block * HUGE_2MIB | PAGE_PRESENT | PAGE_WRITABLE | PAGE_HUGE;
            pd.push(entry);
            block = block + 1;
        }
        self.pd = pd;
    }

    /// An empty directory; `init` fills it.
    pub fn new_empty() -> (r: PML4)
        ensures
            r@.len() == 0,
    {
        PML4 { pd: Vec::new() }
    }

    /// Whether a block number is inside the covered address space.
    pub fn block_in_range(&self, page_block: u64) -> (r: bool)
        ensures
            r == (page_block < MAX_PAGE_BLOCK),
    {
        page_block < MAX_PAGE_BLOCK
    }

    /// The table indices a block number splits into: which page-directory
    /// table, and which entry within it.
    pub fn pd_indices(&self, page_block: u64) -> (r: (usize, usize))
        requires
            page_block < MAX_PAGE_BLOCK,
        ensures
            r.0 == page_block as int / (ENTRIES_PER_TABLE as int),
            r.1 == page_block as int % (ENTRIES_PER_TABLE as int),
            r.0 * ENTRIES_PER_TABLE + r.1 == page_block,
    {
        proof {
            vstd::arithmetic::div_mod::lemma_fundamental_div_mod(page_block as int, 512);
        }
        ((page_block as usize) / ENTRIES_PER_TABLE, (page_block as usize) % ENTRIES_PER_TABLE)
    }

    /// One block's directory entry.
    pub fn pd_entry(&self, page_block: u64) -> (r: u64)
        requires
            self.wf(),
            page_block < MAX_PAGE_BLOCK,
        ensures
            r == self@[page_block as int],
    {
        self.pd[page_block as usize]
    }

    /// Map one 2 MiB block of the virtual address space onto a physical
    /// block; the entry gets the given flags plus the huge-page bit, and
    /// every other entry stays.
    pub fn map(&mut self, virt_block: u64, phys_block: u64, flags: u64)
        requires
            old(self).wf(),
            virt_block < MAX_PAGE_BLOCK,
            phys_block < MAX_PAGE_BLOCK,
        ensures
            final(self).wf(),
            final(self)@ == old(self)@.update(virt_block as int, huge_entry(phys_block, flags)),
    {
        proof {
            assert(phys_block * HUGE_2MIB < 0x8000000000) by (nonlinear_arith)
                requires
                    phys_block < 0x40000u64,
            ;
        }
        let entry = phys_block * HUGE_2MIB | flags | PAGE_HUGE;
        self.pd.set(virt_block as usize, entry);
    }

    /// Add flags to one block's existing mapping: the entry keeps its
    /// physical address and hardware flag bits and gains `flags`. The
    /// memory-type selector sits among the address bits, so a previously
    /// set selector does not survive this rewrite — exactly as remapping
    /// through the flags mask behaves.
    pub fn add_flags(&mut self, virt_block: u64, flags: u64)
        requires
            old(self).wf(),
            virt_block < MAX_PAGE_BLOCK,
            (old(self)@[virt_block as int] & PAGE_ADDR_MASK) / HUGE_2MIB < MAX_PAGE_BLOCK,
        ensures
            final(self).wf(),
            final(self)@ == old(self)@.update(
                virt_block as int,
                huge_entry(
                    (old(self)@[virt_block as int] & PAGE_ADDR_MASK) / HUGE_2MIB,
                    (old(self)@[virt_block as int] & PAGE_FLAGS_MASK) | flags,
                ),
            ),
    {
        let entry = self.pd[virt_block as usize];
        let phys_block = (entry & PAGE_ADDR_MASK) / HUGE_2MIB;
        let merged_flags = (entry & PAGE_FLAGS_MASK) | flags;
        self.map(virt_block, phys_block, merged_flags);
    }
}

} // verus!
