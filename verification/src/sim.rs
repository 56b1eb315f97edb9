//! A verified in-memory chip.
//!
//! [`SimTransport`] implements [`Transport`] by interpreting every
//! frame exactly as the chip model prescribes, against a byte vector
//! and plain register fields.  It is the reference implementation the
//! driver is exercised on: tests drive the full stack through it, and
//! its transaction counters let them observe how many frames an
//! operation really sent.
//!
//! A fresh chip comes up erased and idle.  Each accepted mutating
//! command keeps the chip busy for a configurable number of polls, and
//! a fault fuse can be armed to make transactions fail, so that both
//! the busy handshake and the fault paths of the driver can be
//! exercised.

use vstd::prelude::*;

use crate::chip::{erased_mem, mem_erase, mem_store, ChipState, ERASED_BYTE};
use crate::register::{
    decode_configuration, decode_status, encode_configuration1, encode_configuration2,
    encode_status, PowerMode, ProtectedArea, StatusRegister,
};
use crate::transport::Transport;
use crate::{BLOCK32_SIZE, BLOCK64_SIZE, PAGE_SIZE, SECTOR_SIZE};

verus! {

/// The fault the simulated transport injects when its fuse runs out.
#[derive(Debug, Clone, Copy, PartialEq, Eq, Structural)]
pub struct SimFault;

/// Erases `mem[from..to]` in place.
fn fill_erased(mem: &mut Vec<u8>, from: usize, to: usize)
    requires
        from <= to,
        to <= old(mem)@.len(),
    ensures
        final(mem)@ == mem_erase(old(mem)@, from as int, to as int),
{
    proof {
        assert(mem@ =~= mem_erase(mem@, from as int, from as int));
    }
    let mut j = from;
    while j < to
        invariant
            from <= j <= to,
            to <= mem@.len(),
            mem@ == mem_erase(old(mem)@, from as int, j as int),
        decreases to - j,
    {
        mem.set(j, ERASED_BYTE);
        proof {
            assert(mem@ =~= mem_erase(old(mem)@, from as int, j as int + 1));
        }
        j += 1;
    }
}

/// Stores `frame[start..]` at `addr` in place.
fn store_bytes(mem: &mut Vec<u8>, addr: usize, frame: &[u8], start: usize)
    requires
        start <= frame@.len(),
        addr + (frame@.len() - start) <= old(mem)@.len(),
    ensures
        final(mem)@ == mem_store(old(mem)@, addr as int, frame@.skip(start as int)),
{
    let flen = frame.len();
    let mlen = mem.len();
    proof {
        assert(mem@ =~= mem_store(mem@, addr as int, frame@.subrange(start as int, start as int)));
    }
    let mut k: usize = 0;
    while k < flen - start
        invariant
            k <= flen - start,
            start <= flen,
            flen == frame@.len(),
            mlen == mem@.len(),
            addr + (flen - start) <= mem@.len(),
            mem@ == mem_store(
                old(mem)@,
                addr as int,
                frame@.subrange(start as int, start as int + k as int),
            ),
        decreases flen - start - k,
    {
        mem.set(addr + k, frame[start + k]);
        proof {
            assert(mem@ =~= mem_store(
                old(mem)@,
                addr as int,
                frame@.subrange(start as int, start as int + k as int + 1),
            ));
        }
        k += 1;
    }
    proof {
        assert(frame@.subrange(start as int, flen as int) =~= frame@.skip(start as int));
    }
}

/// Builds `n` copies of one byte.
fn repeat_byte(b: u8, n: usize) -> (v: Vec<u8>)
    ensures
        v@ == Seq::new(n as nat, |i: int| b),
{
    let mut v: Vec<u8> = Vec::new();
    let mut i: usize = 0;
    while i < n
        invariant
            i <= n,
            v@ == Seq::new(i as nat, |j: int| b),
        decreases n - i,
    {
        v.push(b);
        proof {
            assert(v@ =~= Seq::new(i as nat + 1, |j: int| b));
        }
        i += 1;
    }
    v
}

/// Builds two register bytes followed by `n - 2` zeros.
fn two_then_zeros(b0: u8, b1: u8, n: usize) -> (v: Vec<u8>)
    ensures
        v@ == Seq::new(n as nat, |i: int| if i == 0 { b0 } else if i == 1 { b1 } else { 0u8 }),
{
    let mut v: Vec<u8> = Vec::new();
    let mut i: usize = 0;
    while i < n
        invariant
            i <= n,
            v@ == Seq::new(i as nat, |j: int| if j == 0 { b0 } else if j == 1 { b1 } else { 0u8 }),
        decreases n - i,
    {
        if i == 0 {
            v.push(b0);
        } else if i == 1 {
            v.push(b1);
        } else {
            v.push(0);
        }
        proof {
            assert(v@ =~= Seq::new(
                i as nat + 1,
                |j: int| if j == 0 { b0 } else if j == 1 { b1 } else { 0u8 },
            ));
        }
        i += 1;
    }
    v
}

/// Builds three register bytes followed by `n - 3` zeros.
fn three_then_zeros(b0: u8, b1: u8, b2: u8, n: usize) -> (v: Vec<u8>)
    ensures
        v@ == Seq::new(
            n as nat,
            |i: int| if i == 0 { b0 } else if i == 1 { b1 } else if i == 2 { b2 } else { 0u8 },
        ),
{
    let mut v: Vec<u8> = Vec::new();
    let mut i: usize = 0;
    while i < n
        invariant
            i <= n,
            v@ == Seq::new(
                i as nat,
                |j: int| if j == 0 { b0 } else if j == 1 { b1 } else if j == 2 { b2 } else { 0u8 },
            ),
        decreases n - i,
    {
        if i == 0 {
            v.push(b0);
        } else if i == 1 {
            v.push(b1);
        } else if i == 2 {
            v.push(b2);
        } else {
            v.push(0);
        }
        proof {
            assert(v@ =~= Seq::new(
                i as nat + 1,
                |j: int| if j == 0 { b0 } else if j == 1 { b1 } else if j == 2 { b2 } else { 0u8 },
            ));
        }
        i += 1;
    }
    v
}

/// Copies `src[addr..addr + n]` out.
fn copy_range(src: &Vec<u8>, addr: usize, n: usize) -> (v: Vec<u8>)
    requires
        addr + n <= src@.len(),
    ensures
        v@ == src@.subrange(addr as int, addr as int + n as int),
{
    let slen = src.len();
    let mut v: Vec<u8> = Vec::new();
    let mut i: usize = 0;
    while i < n
        invariant
            i <= n,
            slen == src@.len(),
            addr + n <= src@.len(),
            v@ == src@.subrange(addr as int, addr as int + i as int),
        decreases n - i,
    {
        v.push(src[addr + i]);
        proof {
            assert(v@ =~= src@.subrange(addr as int, addr as int + i as int + 1));
        }
        i += 1;
    }
    v
}

/// The simulated chip and its transport, in one object.
pub struct SimTransport {
    mem: Vec<u8>,
    wel: bool,
    busy_left: u8,
    protected_block: u8,
    quad_enable: bool,
    status_write_disable: bool,
    dummy_cycle: bool,
    protected_area: ProtectedArea,
    power_mode: PowerMode,
    locked_down: bool,
    reset_armed: bool,
    id_manufacturer: u8,
    id_memory_type: u8,
    id_density: u8,
    id_electronic: u8,
    id_device: u8,
    sfdp: Vec<u8>,
    busy_polls: u8,
    fuse: u64,
    txns: u64,
    programs: u64,
    frames: Ghost<Seq<Seq<u8>>>,
}

impl SimTransport {
    /// The number of transactions attempted so far (saturating).
    pub closed spec fn spec_txn_count(self) -> u64 {
        self.txns
    }

    /// The number of page-program frames attempted so far (saturating).
    pub closed spec fn spec_program_count(self) -> u64 {
        self.programs
    }

    /// How many polls each accepted mutating command stays busy for.
    pub closed spec fn spec_busy_polls(self) -> u8 {
        self.busy_polls
    }

    /// Transactions left until the fault fuse blows; `u64::MAX` means
    /// it never does.
    pub closed spec fn spec_fuse(self) -> u64 {
        self.fuse
    }

    /// A fresh, erased, idle chip of the given capacity.  It stays
    /// busy for two polls after each mutating command, answers the
    /// identification commands with fixed bytes, and carries no SFDP
    /// table.
    pub fn new(capacity: usize) -> (t: SimTransport)
        ensures
            t.chip() == (ChipState {
                mem: erased_mem(capacity as nat),
                wel: false,
                wip: false,
                protected_block: 0,
                quad_enable: false,
                status_write_disable: false,
                dummy_cycle: false,
                protected_area: ProtectedArea::Top,
                power_mode: PowerMode::UltraLowPower,
                locked_down: false,
                reset_armed: false,
                id_manufacturer: 0xC2,
                id_memory_type: 0x28,
                id_density: 0x17,
                id_electronic: 0x17,
                id_device: 0x17,
                sfdp: Seq::<u8>::empty(),
            }),
            t.chip().wf(),
            t.hist() == Seq::<Seq<u8>>::empty(),
            t.spec_txn_count() == 0,
            t.spec_program_count() == 0,
    {
        let mut mem: Vec<u8> = Vec::new();
        let mut i: usize = 0;
        while i < capacity
            invariant
                i <= capacity,
                mem@ == erased_mem(i as nat),
            decreases capacity - i,
        {
            mem.push(ERASED_BYTE);
            proof {
                assert(mem@ =~= erased_mem(i as nat + 1));
            }
            i += 1;
        }
        let t = SimTransport {
            mem,
            wel: false,
            busy_left: 0,
            protected_block: 0,
            quad_enable: false,
            status_write_disable: false,
            dummy_cycle: false,
            protected_area: ProtectedArea::Top,
            power_mode: PowerMode::UltraLowPower,
            locked_down: false,
            reset_armed: false,
            id_manufacturer: 0xC2,
            id_memory_type: 0x28,
            id_density: 0x17,
            id_electronic: 0x17,
            id_device: 0x17,
            sfdp: Vec::new(),
            busy_polls: 2,
            fuse: u64::MAX,
            txns: 0,
            programs: 0,
            frames: Ghost(Seq::empty()),
        };
        proof {
            assert(t.chip() =~= (ChipState {
                mem: erased_mem(capacity as nat),
                wel: false,
                wip: false,
                protected_block: 0,
                quad_enable: false,
                status_write_disable: false,
                dummy_cycle: false,
                protected_area: ProtectedArea::Top,
                power_mode: PowerMode::UltraLowPower,
                locked_down: false,
                reset_armed: false,
                id_manufacturer: 0xC2,
                id_memory_type: 0x28,
                id_density: 0x17,
                id_electronic: 0x17,
                id_device: 0x17,
                sfdp: Seq::<u8>::empty(),
            }));
        }
        t
    }

    /// How many polls each accepted mutating command stays busy for
    /// (at least one).
    pub fn set_busy_polls(&mut self, polls: u8)
        ensures
            final(self).spec_busy_polls() == polls,
            final(self).chip() == old(self).chip(),
            final(self).hist() == old(self).hist(),
            final(self).busy_bound() == old(self).busy_bound(),
            final(self).spec_fuse() == old(self).spec_fuse(),
            final(self).spec_txn_count() == old(self).spec_txn_count(),
            final(self).spec_program_count() == old(self).spec_program_count(),
    {
        self.busy_polls = polls;
    }

    /// Makes every transaction after the next `n` fail with
    /// [`SimFault`], forever.
    pub fn fail_after(&mut self, n: u64)
        requires
            n < u64::MAX,
        ensures
            final(self).spec_fuse() == n,
            final(self).chip() == old(self).chip(),
            final(self).hist() == old(self).hist(),
            final(self).busy_bound() == old(self).busy_bound(),
            final(self).spec_busy_polls() == old(self).spec_busy_polls(),
            final(self).spec_txn_count() == old(self).spec_txn_count(),
            final(self).spec_program_count() == old(self).spec_program_count(),
    {
        self.fuse = n;
    }

    /// The number of transactions attempted so far.
    pub fn txn_count(&self) -> (n: u64)
        ensures
            n == self.spec_txn_count(),
    {
        self.txns
    }

    /// The number of page-program frames attempted so far.
    pub fn program_count(&self) -> (n: u64)
        ensures
            n == self.spec_program_count(),
    {
        self.programs
    }

    /// A view of the chip's array, for inspection by tests.
    pub fn memory(&self) -> (m: &Vec<u8>)
        ensures
            m@ == self.chip().mem,
    {
        &self.mem
    }
}


impl SimTransport {
    /// Applies one erase frame of granularity `sz` to an idle chip,
    /// exactly as [`crate::chip::erase_step`] prescribes.
    fn apply_erase(&mut self, frame: &[u8], sz: u32)
        requires
            old(self).busy_left == 0,
            old(self).busy_polls >= 0,
            sz == SECTOR_SIZE || sz == BLOCK32_SIZE || sz == BLOCK64_SIZE,
        ensures
            final(self).chip() == crate::chip::erase_step(old(self).chip(), frame@, sz),
            final(self).hist() == old(self).hist(),
            final(self).txns == old(self).txns,
            final(self).programs == old(self).programs,
    {
        let ghost c0 = self.chip();
        let busy = if self.busy_polls == 0 { 1 } else { self.busy_polls };
        if frame.len() == 4 && self.wel {
            let a: u32 = (frame[1] as u32) * 0x10000 + (frame[2] as u32) * 0x100
                + (frame[3] as u32);
            proof {
                assert(a as int == crate::command::frame_addr(frame@));
            }
            if (a as usize) < self.mem.len() {
                proof {
                    vstd::arithmetic::div_mod::lemma_fundamental_div_mod(a as int, sz as int);
                    assert((a as int / sz as int) * (sz as int) == (sz as int) * (a as int / sz as int))
                        by (nonlinear_arith);
                }
                let start = (a / sz) * sz;
                let cap = self.mem.len();
                let end = if (start + sz) as usize <= cap { (start + sz) as usize } else { cap };
                fill_erased(&mut self.mem, start as usize, end);
                proof {
                    assert(mem_erase(c0.mem, start as int, end as int) =~= mem_erase(
                        c0.mem,
                        start as int,
                        start as int + sz as int,
                    ));
                }
                self.wel = false;
                self.busy_left = busy;
            }
        }
        self.reset_armed = false;
        proof {
            assert(self.chip() =~= crate::chip::erase_step(c0, frame@, sz));
        }
    }

    /// Applies one page-program frame to an idle chip, exactly as
    /// [`crate::chip::program_step`] prescribes.
    fn apply_program(&mut self, frame: &[u8])
        requires
            old(self).busy_left == 0,
        ensures
            final(self).chip() == crate::chip::program_step(old(self).chip(), frame@),
            final(self).hist() == old(self).hist(),
            final(self).txns == old(self).txns,
            final(self).programs == old(self).programs,
    {
        let ghost c0 = self.chip();
        let busy = if self.busy_polls == 0 { 1 } else { self.busy_polls };
        if frame.len() >= 4 && self.wel {
            let a: u32 = (frame[1] as u32) * 0x10000 + (frame[2] as u32) * 0x100
                + (frame[3] as u32);
            proof {
                assert(a as int == crate::command::frame_addr(frame@));
            }
            let dlen = frame.len() - 4;
            if a as usize <= self.mem.len() && dlen <= self.mem.len() - a as usize
                && (a % PAGE_SIZE) as usize + dlen <= PAGE_SIZE as usize {
                store_bytes(&mut self.mem, a as usize, frame, 4);
                self.wel = false;
                self.busy_left = busy;
            }
        }
        self.reset_armed = false;
        proof {
            assert(self.chip() =~= crate::chip::program_step(c0, frame@));
        }
    }

    /// Applies one write-status frame to an idle chip, exactly as
    /// [`crate::chip::write_status_step`] prescribes.
    fn apply_write_status(&mut self, frame: &[u8])
        requires
            old(self).busy_left == 0,
        ensures
            final(self).chip() == crate::chip::write_status_step(old(self).chip(), frame@),
            final(self).hist() == old(self).hist(),
            final(self).txns == old(self).txns,
            final(self).programs == old(self).programs,
    {
        let ghost c0 = self.chip();
        let busy = if self.busy_polls == 0 { 1 } else { self.busy_polls };
        if frame.len() == 4 && self.wel {
            let sr = decode_status(frame[1]);
            let cr = decode_configuration(frame[2], frame[3]);
            self.protected_block = sr.protected_block;
            self.quad_enable = sr.quad_enable;
            self.status_write_disable = sr.write_protect_disable;
            self.dummy_cycle = cr.dummy_cycle;
            self.protected_area = cr.protected_section;
            self.power_mode = cr.power_mode;
            self.wel = false;
            self.busy_left = busy;
        }
        self.reset_armed = false;
        proof {
            assert(self.chip() =~= crate::chip::write_status_step(c0, frame@));
        }
    }

    /// Applies any frame whose opcode is not an array-mutating one to
    /// an idle chip, exactly as [`crate::chip::step_write`] prescribes.
    fn apply_other(&mut self, frame: &[u8])
        requires
            old(self).busy_left == 0,
            frame@.len() >= 1,
            frame@[0] != 0x20 && frame@[0] != 0x52 && frame@[0] != 0xD8,
            frame@[0] != 0x02 && frame@[0] != 0x01,
        ensures
            final(self).chip() == crate::chip::step_write(old(self).chip(), frame@),
            final(self).hist() == old(self).hist(),
            final(self).txns == old(self).txns,
            final(self).programs == old(self).programs,
    {
        let ghost c0 = self.chip();
        let busy = if self.busy_polls == 0 { 1 } else { self.busy_polls };
        let op = frame[0];
        if op == 0x06 {
            self.wel = true;
            self.reset_armed = false;
        } else if op == 0x04 {
            self.wel = false;
            self.reset_armed = false;
        } else if op == 0x66 {
            self.reset_armed = true;
        } else if op == 0x99 {
            if self.reset_armed {
                self.wel = false;
                self.reset_armed = false;
            }
        } else if op == 0x60 {
            if self.wel {
                let cap = self.mem.len();
                fill_erased(&mut self.mem, 0, cap);
                proof {
                    assert(mem_erase(c0.mem, 0, c0.mem.len() as int) =~= erased_mem(c0.mem.len()));
                }
                self.wel = false;
                self.busy_left = busy;
            }
            self.reset_armed = false;
        } else if op == 0x2F {
            if self.wel {
                self.locked_down = true;
                self.wel = false;
                self.busy_left = busy;
            }
            self.reset_armed = false;
        } else {
            self.reset_armed = false;
        }
        proof {
            assert(self.chip() =~= crate::chip::step_write(c0, frame@));
        }
    }

    /// The bytes the chip answers to `frame` in its current state,
    /// exactly as [`crate::chip::read_resp`] prescribes.
    #[verifier::rlimit(100)]
    fn build_response(&self, frame: &[u8], n: usize) -> (v: Vec<u8>)
        ensures
            v@ == crate::chip::read_resp(self.chip(), frame@, n as nat),
            v@.len() == n,
    {
        let ghost c = self.chip();
        if frame.len() == 0 {
            return repeat_byte(0, n);
        }
        let op = frame[0];
        let v: Vec<u8> = if op == 0x03 || op == 0x0B {
            let want: usize = if op == 0x03 { 4 } else { 5 };
            if frame.len() == want {
                let a: u32 = (frame[1] as u32) * 0x10000 + (frame[2] as u32) * 0x100
                    + (frame[3] as u32);
                if self.busy_left == 0 && a as usize <= self.mem.len()
                    && n <= self.mem.len() - a as usize {
                    copy_range(&self.mem, a as usize, n)
                } else {
                    repeat_byte(0, n)
                }
            } else {
                repeat_byte(0, n)
            }
        } else if op == 0x5A {
            if frame.len() == 5 {
                let a: u32 = (frame[1] as u32) * 0x10000 + (frame[2] as u32) * 0x100
                    + (frame[3] as u32);
                if self.busy_left == 0 && a as usize <= self.sfdp.len()
                    && n <= self.sfdp.len() - a as usize {
                    copy_range(&self.sfdp, a as usize, n)
                } else {
                    repeat_byte(0, n)
                }
            } else {
                repeat_byte(0, n)
            }
        } else if op == 0x05 {
            let b = encode_status(StatusRegister {
                write_protect_disable: self.status_write_disable,
                quad_enable: self.quad_enable,
                protected_block: self.protected_block,
                write_enable_latch: self.wel,
                wip_bit: self.busy_left > 0,
            });
            repeat_byte(b, n)
        } else if op == 0x15 {
            let b1 = encode_configuration1(self.protected_area, self.dummy_cycle);
            let b2 = encode_configuration2(self.power_mode);
            two_then_zeros(b1, b2, n)
        } else if op == 0x2B {
            let b = if self.locked_down { 0x02 } else { 0x00 };
            repeat_byte(b, n)
        } else if op == 0x9F {
            three_then_zeros(self.id_manufacturer, self.id_memory_type, self.id_density, n)
        } else if op == 0xAB {
            repeat_byte(self.id_electronic, n)
        } else if op == 0x90 {
            two_then_zeros(self.id_manufacturer, self.id_device, n)
        } else {
            repeat_byte(0, n)
        };
        proof {
            assert(v@ =~= crate::chip::read_resp(c, frame@, n as nat));
        }
        v
    }
}

impl Transport for SimTransport {
    type Fault = SimFault;

    closed spec fn chip(&self) -> ChipState {
        ChipState {
            mem: self.mem@,
            wel: self.wel,
            wip: self.busy_left > 0,
            protected_block: self.protected_block,
            quad_enable: self.quad_enable,
            status_write_disable: self.status_write_disable,
            dummy_cycle: self.dummy_cycle,
            protected_area: self.protected_area,
            power_mode: self.power_mode,
            locked_down: self.locked_down,
            reset_armed: self.reset_armed,
            id_manufacturer: self.id_manufacturer,
            id_memory_type: self.id_memory_type,
            id_density: self.id_density,
            id_electronic: self.id_electronic,
            id_device: self.id_device,
            sfdp: self.sfdp@,
        }
    }

    closed spec fn hist(&self) -> Seq<Seq<u8>> {
        self.frames@
    }

    closed spec fn busy_bound(&self) -> nat {
        self.busy_left as nat
    }

    #[verifier::rlimit(100)]
    fn transact_write(&mut self, frame: &[u8]) -> (r: Result<(), SimFault>) {
        proof {
            assert(self.chip() =~= old(self).chip());
        }
        self.frames = Ghost(self.frames@.push(frame@));
        if self.txns < u64::MAX {
            self.txns = self.txns + 1;
        }
        if frame.len() > 0 && frame[0] == 0x02 && self.programs < u64::MAX {
            self.programs = self.programs + 1;
        }
        if self.fuse == 0 {
            return Err(SimFault);
        }
        if self.fuse != u64::MAX {
            self.fuse = self.fuse - 1;
        }
        let ghost c0 = self.chip();
        if frame.len() == 0 || self.busy_left > 0 {
            return Ok(());
        }
        let op = frame[0];
        if op == 0x20 {
            self.apply_erase(frame, SECTOR_SIZE);
        } else if op == 0x52 {
            self.apply_erase(frame, BLOCK32_SIZE);
        } else if op == 0xD8 {
            self.apply_erase(frame, BLOCK64_SIZE);
        } else if op == 0x02 {
            self.apply_program(frame);
        } else if op == 0x01 {
            self.apply_write_status(frame);
        } else {
            self.apply_other(frame);
        }
        Ok(())
    }

    fn transact_write_read(&mut self, frame: &[u8], n: usize) -> (r: Result<Vec<u8>, SimFault>) {
        self.frames = Ghost(self.frames@.push(frame@));
        if self.txns < u64::MAX {
            self.txns = self.txns + 1;
        }
        if self.busy_left > 0 {
            self.busy_left = self.busy_left - 1;
            proof {
                if self.busy_left > 0 {
                    assert(self.chip() =~= old(self).chip());
                } else {
                    assert(self.chip() =~= crate::chip::clear_wip(old(self).chip()));
                }
            }
        } else {
            proof {
                assert(self.chip() =~= old(self).chip());
            }
        }
        if self.fuse == 0 {
            return Err(SimFault);
        }
        if self.fuse != u64::MAX {
            self.fuse = self.fuse - 1;
        }
        Ok(self.build_response(frame, n))
    }
}

} // verus!
