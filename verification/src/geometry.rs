//! Geometry of the chip's array: pure arithmetic between byte offsets
//! and sector/page/block coordinates, and the planners that pick the
//! next unit for the range write and erase engines.

use vstd::prelude::*;
use vstd::arithmetic::div_mod::{
    lemma_add_mod_noop, lemma_fundamental_div_mod, lemma_mod_self_0, lemma_small_mod,
};

use crate::{BLOCK32_SIZE, BLOCK64_SIZE, PAGE_SIZE, SECTOR_SIZE};

verus! {

/// A program location addressed as a sector index and a page index
/// within that sector.
#[derive(Debug, Clone, Copy, PartialEq, Eq, Structural)]
pub struct Address {
    /// Index of the 4096-byte sector.
    pub sector: u16,
    /// Index of the 256-byte page within the sector (0..=15).
    pub page: u8,
}

impl Address {
    /// Pairs a sector index with a page index.
    pub fn new(sector: u16, page: u8) -> (a: Address)
        ensures
            a.sector == sector,
            a.page == page,
    {
        Address { sector, page }
    }

    /// The byte offset this address denotes.
    pub open spec fn spec_offset(self) -> int {
        self.sector * SECTOR_SIZE + self.page * PAGE_SIZE
    }

    /// Computes the byte offset of this address.
    pub fn offset(self) -> (o: u32)
        ensures
            o == self.spec_offset(),
    {
        self.sector as u32 * SECTOR_SIZE + self.page as u32 * PAGE_SIZE
    }
}

/// Computes the byte offset of a byte within a page within a sector.
pub fn to_offset(sector: u16, page: u8, byte_in_page: u8) -> (o: u32)
    requires
        page < 16,
    ensures
        o == sector * SECTOR_SIZE + page * PAGE_SIZE + byte_in_page,
{
    sector as u32 * SECTOR_SIZE + page as u32 * PAGE_SIZE + byte_in_page as u32
}

/// The index of the 4096-byte sector containing `addr`.
pub fn sector_of(addr: u32) -> (s: u32)
    ensures
        s == addr / SECTOR_SIZE,
{
    addr / SECTOR_SIZE
}

/// The index, within its sector, of the 256-byte page containing
/// `addr`.
pub fn page_of(addr: u32) -> (p: u32)
    ensures
        p == (addr % SECTOR_SIZE) / PAGE_SIZE,
        p < 16,
{
    (addr % SECTOR_SIZE) / PAGE_SIZE
}

/// The index of the 32 KiB block containing `addr`.
pub fn block32_of(addr: u32) -> (b: u32)
    ensures
        b == addr / BLOCK32_SIZE,
{
    addr / BLOCK32_SIZE
}

/// The index of the 64 KiB block containing `addr`.
pub fn block64_of(addr: u32) -> (b: u32)
    ensures
        b == addr / BLOCK64_SIZE,
{
    addr / BLOCK64_SIZE
}

/// How many of the `remaining` bytes the next program command may
/// carry: as many as are left in the page containing `offset`, and no
/// more than remain.  A command this long can never cross a page
/// boundary.
pub fn page_chunk_len(offset: u32, remaining: usize) -> (n: usize)
    requires
        remaining > 0,
    ensures
        1 <= n <= remaining,
        offset % PAGE_SIZE + n <= PAGE_SIZE,
        n == PAGE_SIZE - offset % PAGE_SIZE || (n == remaining && n <= PAGE_SIZE - offset % PAGE_SIZE),
{
    let page_room = (PAGE_SIZE - offset % PAGE_SIZE) as usize;
    if remaining < page_room {
        remaining
    } else {
        page_room
    }
}

/// The largest erase granularity that is aligned at `from` and fits
/// inside `[from, to)`: a 64 KiB block when possible, else a 32 KiB
/// block, else one 4 KiB sector.
pub fn largest_erase_unit(from: u32, to: u32) -> (sz: u32)
    requires
        from < to,
        from % SECTOR_SIZE == 0,
        to % SECTOR_SIZE == 0,
    ensures
        sz == SECTOR_SIZE || sz == BLOCK32_SIZE || sz == BLOCK64_SIZE,
        from % sz == 0,
        from + sz <= to,
        sz == (if from % BLOCK64_SIZE == 0 && to - from >= BLOCK64_SIZE {
            BLOCK64_SIZE
        } else if from % BLOCK32_SIZE == 0 && to - from >= BLOCK32_SIZE {
            BLOCK32_SIZE
        } else {
            SECTOR_SIZE
        }),
{
    proof {
        lemma_sector_gap(from, to);
    }
    if from % BLOCK64_SIZE == 0 && to - from >= BLOCK64_SIZE {
        BLOCK64_SIZE
    } else if from % BLOCK32_SIZE == 0 && to - from >= BLOCK32_SIZE {
        BLOCK32_SIZE
    } else {
        SECTOR_SIZE
    }
}

/// Two distinct sector-aligned offsets lie at least one sector apart.
pub proof fn lemma_sector_gap(from: u32, to: u32)
    requires
        from < to,
        from % SECTOR_SIZE == 0,
        to % SECTOR_SIZE == 0,
    ensures
        from + SECTOR_SIZE <= to,
{
    let gap = to - from;
    lemma_add_mod_noop(from as int, gap as int, SECTOR_SIZE as int);
    lemma_mod_self_0(SECTOR_SIZE as int);
    if gap < SECTOR_SIZE {
        lemma_small_mod(gap as nat, SECTOR_SIZE as nat);
    }
}

/// An offset aligned to its unit is its own aligned-down value.
pub proof fn lemma_aligned_down(a: int, sz: int)
    requires
        sz > 0,
        0 <= a,
        a % sz == 0,
    ensures
        (a / sz) * sz == a,
{
    lemma_fundamental_div_mod(a, sz);
    assert((a / sz) * sz == sz * (a / sz)) by (nonlinear_arith);
}

} // verus!
