//! Abstract model of the flash chip.
//!
//! A [`ChipState`] is the ghost view of one chip: the byte array, the
//! write-enable latch (WEL), the work-in-progress flag (WIP), the
//! decoded status/configuration fields, and the small amount of
//! volatile command state (the reset-enable arming flag).  The step
//! functions below interpret every wire frame against this state,
//! exactly as the transport contract promises
//! ([`crate::transport::Transport`]).
//!
//! Modeling conventions, fixed here once for the whole crate:
//! - A mutating command executes its effect on the array immediately
//!   and raises WIP; WIP then clears at some later poll (the transport
//!   contract leaves the moment open).  While WIP is raised the chip
//!   ignores further command frames, and array reads return the
//!   neutral byte `0`.
//! - A program or erase command is honored only while WEL is set, and
//!   completing one clears WEL, as the hardware auto-clears the latch.
//! - A program frame whose payload would cross a page boundary or run
//!   past the end of the array is ignored; the verified driver never
//!   builds one.
//! - The secured-OTP array and the SFDP table are out of scope: the
//!   modeled chip treats the OTP entry/exit commands as plain no-ops
//!   and answers SFDP reads with zero bytes.

use vstd::prelude::*;

use crate::command::{frame_addr, Command};
use crate::register::{
    spec_decode_configuration, spec_decode_status, spec_encode_configuration1,
    spec_encode_configuration2, spec_encode_status, PowerMode, ProtectedArea, StatusRegister,
};
use crate::{BLOCK32_SIZE, BLOCK64_SIZE, PAGE_SIZE, SECTOR_SIZE};

verus! {

/// The value every byte of an erased range reads back as.
pub const ERASED_BYTE: u8 = 0xFF;

/// Ghost state of one chip.
#[verifier::ext_equal]
pub struct ChipState {
    /// The byte array, of length equal to the chip's capacity.
    pub mem: Seq<u8>,
    /// The write-enable latch (status bit 1).
    pub wel: bool,
    /// Work in progress (status bit 0).
    pub wip: bool,
    /// Protected-block index (status bits 2..=5, always below 16).
    pub protected_block: u8,
    /// Quad-enable flag (status bit 6).
    pub quad_enable: bool,
    /// Status-write-disable flag (status bit 7).
    pub status_write_disable: bool,
    /// Dummy-cycle flag (configuration byte 1, bit 6).
    pub dummy_cycle: bool,
    /// Protected-area selection (configuration byte 1, bit 3).
    pub protected_area: ProtectedArea,
    /// Power mode (configuration byte 2, bit 1).
    pub power_mode: PowerMode,
    /// The security register is locked down.
    pub locked_down: bool,
    /// A reset-enable command arms the next reset command.
    pub reset_armed: bool,
    /// Manufacturer identification byte.
    pub id_manufacturer: u8,
    /// Memory-type identification byte.
    pub id_memory_type: u8,
    /// Memory-density identification byte.
    pub id_density: u8,
    /// Electronic-signature byte.
    pub id_electronic: u8,
    /// Device identification byte.
    pub id_device: u8,
    /// The chip's read-only SFDP descriptor table (possibly empty).
    pub sfdp: Seq<u8>,
}

impl ChipState {
    /// Well-formedness: the protected-block index fits its 4-bit field.
    pub open spec fn wf(self) -> bool {
        self.protected_block < 16
    }
}

/// An array of `n` erased bytes.
pub open spec fn erased_mem(n: nat) -> Seq<u8> {
    Seq::new(n, |i: int| ERASED_BYTE)
}

/// `mem` with `data` stored at `off`; indices outside the array are
/// dropped (the step functions never store out of bounds).
pub open spec fn mem_store(mem: Seq<u8>, off: int, data: Seq<u8>) -> Seq<u8> {
    Seq::new(mem.len(), |i: int| if off <= i < off + data.len() { data[i - off] } else { mem[i] })
}

/// `mem` with every byte in `[from, to)` erased.
pub open spec fn mem_erase(mem: Seq<u8>, from: int, to: int) -> Seq<u8> {
    Seq::new(mem.len(), |i: int| if from <= i < to { ERASED_BYTE } else { mem[i] })
}

/// The largest multiple of `sz` at or below `a`.
pub open spec fn align_down(a: int, sz: int) -> int {
    (a / sz) * sz
}

/// The chip with WIP cleared; a poll may observe this at any time.
pub open spec fn clear_wip(c: ChipState) -> ChipState {
    ChipState { wip: false, ..c }
}

/// The chip after any command other than reset-enable: the reset
/// arming is dropped.
pub open spec fn spec_disarm(c: ChipState) -> ChipState {
    ChipState { reset_armed: false, ..c }
}

/// The chip right after accepting a mutating command: the array takes
/// its new value, WEL auto-clears and WIP is raised.
pub open spec fn spec_mutation_start(c: ChipState, mem: Seq<u8>) -> ChipState {
    ChipState { mem, wel: false, wip: true, reset_armed: false, ..c }
}

/// The status byte the chip reports in state `c`.
pub open spec fn status_byte(c: ChipState) -> u8 {
    spec_encode_status(StatusRegister {
        write_protect_disable: c.status_write_disable,
        quad_enable: c.quad_enable,
        protected_block: c.protected_block,
        write_enable_latch: c.wel,
        wip_bit: c.wip,
    })
}

/// The first configuration byte the chip reports in state `c`.
pub open spec fn config1_byte(c: ChipState) -> u8 {
    spec_encode_configuration1(c.protected_area, c.dummy_cycle)
}

/// The second configuration byte the chip reports in state `c`.
pub open spec fn config2_byte(c: ChipState) -> u8 {
    spec_encode_configuration2(c.power_mode)
}

/// The security byte the chip reports in state `c`.  Only the
/// lock-down bit is modeled; failure and suspension never occur in
/// the modeled chip.
pub open spec fn security_byte(c: ChipState) -> u8 {
    if c.locked_down { 0x02u8 } else { 0u8 }
}

/// Effect of an erase command of granularity `sz` carried by frame
/// `f`: the unit containing the addressed byte is erased.  The frame
/// is ignored without the write-enable latch, with a malformed length,
/// or with an address beyond the array.
pub open spec fn erase_step(c: ChipState, f: Seq<u8>, sz: u32) -> ChipState {
    if f.len() == 4 && c.wel && frame_addr(f) < c.mem.len() {
        let start = align_down(frame_addr(f), sz as int);
        spec_mutation_start(c, mem_erase(c.mem, start, start + sz))
    } else {
        spec_disarm(c)
    }
}

/// Whether a program of `n` bytes at `addr` stays inside the array and
/// inside one page.  The chip corrupts data on programs that cross a
/// page boundary, so the model refuses to represent them.
pub open spec fn page_fits(addr: int, n: int, cap: int) -> bool {
    &&& 0 <= addr
    &&& addr + n <= cap
    &&& addr % (PAGE_SIZE as int) + n <= PAGE_SIZE as int
}

/// Effect of a page-program frame: the payload (frame bytes 4..) is
/// stored at the carried address.  Ignored without the write-enable
/// latch or when the payload does not fit its page.
pub open spec fn program_step(c: ChipState, f: Seq<u8>) -> ChipState {
    if f.len() >= 4 && c.wel && page_fits(frame_addr(f), f.len() - 4, c.mem.len() as int) {
        spec_mutation_start(c, mem_store(c.mem, frame_addr(f), f.skip(4)))
    } else {
        spec_disarm(c)
    }
}

/// Effect of a write-status frame: the three payload bytes are decoded
/// by the register codecs and become the new status/configuration
/// fields.  Ignored without the write-enable latch.
pub open spec fn write_status_step(c: ChipState, f: Seq<u8>) -> ChipState {
    if f.len() == 4 && c.wel {
        let sr = spec_decode_status(f[1]);
        let cr = spec_decode_configuration(f[2], f[3]);
        ChipState {
            protected_block: sr.protected_block,
            quad_enable: sr.quad_enable,
            status_write_disable: sr.write_protect_disable,
            dummy_cycle: cr.dummy_cycle,
            protected_area: cr.protected_section,
            power_mode: cr.power_mode,
            wel: false,
            wip: true,
            reset_armed: false,
            ..c
        }
    } else {
        spec_disarm(c)
    }
}

/// Interpretation of a write-only transaction: how the chip state
/// changes when frame `f` is clocked in.  A busy chip ignores every
/// command frame; an idle one dispatches on the opcode.  Commands the
/// model does not give an effect to (suspension, power-down, burst
/// length, OTP entry/exit) only drop the reset arming, as any command
/// other than reset-enable does.
pub open spec fn step_write(c: ChipState, f: Seq<u8>) -> ChipState {
    if f.len() == 0 || c.wip {
        c
    } else {
        let op = f[0];
        if op == Command::WriteEnable.spec_opcode() {
            ChipState { wel: true, reset_armed: false, ..c }
        } else if op == Command::WriteDisable.spec_opcode() {
            ChipState { wel: false, reset_armed: false, ..c }
        } else if op == Command::ResetEnable.spec_opcode() {
            ChipState { reset_armed: true, ..c }
        } else if op == Command::ResetMemory.spec_opcode() {
            if c.reset_armed {
                ChipState { wel: false, reset_armed: false, ..c }
            } else {
                c
            }
        } else if op == Command::ChipErase.spec_opcode() {
            if c.wel {
                spec_mutation_start(c, erased_mem(c.mem.len()))
            } else {
                spec_disarm(c)
            }
        } else if op == Command::SectorErase.spec_opcode() {
            erase_step(c, f, SECTOR_SIZE)
        } else if op == Command::BlockErase32.spec_opcode() {
            erase_step(c, f, BLOCK32_SIZE)
        } else if op == Command::BlockErase.spec_opcode() {
            erase_step(c, f, BLOCK64_SIZE)
        } else if op == Command::ProgramPage.spec_opcode() {
            program_step(c, f)
        } else if op == Command::WriteStatus.spec_opcode() {
            write_status_step(c, f)
        } else if op == Command::WriteSecurityRegister.spec_opcode() {
            if c.wel {
                ChipState { locked_down: true, wel: false, wip: true, reset_armed: false, ..c }
            } else {
                spec_disarm(c)
            }
        } else {
            spec_disarm(c)
        }
    }
}

/// A sequence of `n` zero bytes, the neutral answer of the modeled
/// chip to reads it cannot serve.
pub open spec fn zeros(n: nat) -> Seq<u8> {
    Seq::new(n, |i: int| 0u8)
}

/// The bytes an array read returns: the addressed range while the chip
/// is idle and the range lies inside the array, zeros otherwise.
pub open spec fn mem_read(c: ChipState, addr: int, n: nat) -> Seq<u8> {
    if !c.wip && 0 <= addr && addr + n <= c.mem.len() {
        c.mem.subrange(addr, addr + n)
    } else {
        zeros(n)
    }
}

/// The bytes an SFDP read returns: the addressed range of the
/// descriptor table while it lies inside the table, zeros otherwise.
pub open spec fn sfdp_read(c: ChipState, addr: int, n: nat) -> Seq<u8> {
    if !c.wip && 0 <= addr && addr + n <= c.sfdp.len() {
        c.sfdp.subrange(addr, addr + n)
    } else {
        zeros(n)
    }
}

/// The registers, identification bytes and descriptor table that no
/// array operation changes: everything but the array, the two
/// handshake flags and the reset arming.
pub open spec fn same_regs(a: ChipState, b: ChipState) -> bool {
    &&& a.protected_block == b.protected_block
    &&& a.quad_enable == b.quad_enable
    &&& a.status_write_disable == b.status_write_disable
    &&& a.dummy_cycle == b.dummy_cycle
    &&& a.protected_area == b.protected_area
    &&& a.power_mode == b.power_mode
    &&& a.locked_down == b.locked_down
    &&& a.id_manufacturer == b.id_manufacturer
    &&& a.id_memory_type == b.id_memory_type
    &&& a.id_density == b.id_density
    &&& a.id_electronic == b.id_electronic
    &&& a.id_device == b.id_device
    &&& a.sfdp == b.sfdp
}

/// Interpretation of the read phase of a write-then-read transaction:
/// the `n` bytes the chip answers to frame `f` in state `c`.  Register
/// reads repeat their register byte on every clock; multi-byte
/// register answers are padded with zeros past their defined bytes.
pub open spec fn read_resp(c: ChipState, f: Seq<u8>, n: nat) -> Seq<u8> {
    if f.len() == 0 {
        zeros(n)
    } else {
        let op = f[0];
        if op == Command::Read.spec_opcode() {
            if f.len() == 4 { mem_read(c, frame_addr(f), n) } else { zeros(n) }
        } else if op == Command::ReadF.spec_opcode() {
            if f.len() == 5 { mem_read(c, frame_addr(f), n) } else { zeros(n) }
        } else if op == Command::ReadStatus.spec_opcode() {
            Seq::new(n, |i: int| status_byte(c))
        } else if op == Command::ReadConfig.spec_opcode() {
            Seq::new(n, |i: int| if i == 0 { config1_byte(c) } else if i == 1 { config2_byte(c) } else { 0u8 })
        } else if op == Command::ReadSecurityRegister.spec_opcode() {
            Seq::new(n, |i: int| security_byte(c))
        } else if op == Command::ReadIdentification.spec_opcode() {
            Seq::new(n, |i: int| if i == 0 { c.id_manufacturer } else if i == 1 { c.id_memory_type } else if i == 2 { c.id_density } else { 0u8 })
        } else if op == Command::ReadElectronicId.spec_opcode() {
            Seq::new(n, |i: int| c.id_electronic)
        } else if op == Command::ReadManufacturerId.spec_opcode() {
            Seq::new(n, |i: int| if i == 0 { c.id_manufacturer } else if i == 1 { c.id_device } else { 0u8 })
        } else if op == Command::ReadSfdp.spec_opcode() {
            if f.len() == 5 { sfdp_read(c, frame_addr(f), n) } else { zeros(n) }
        } else {
            zeros(n)
        }
    }
}

/// Every write step preserves the array length and well-formedness.
pub proof fn lemma_step_write_preserves(c: ChipState, f: Seq<u8>)
    requires
        c.wf(),
    ensures
        step_write(c, f).wf(),
        step_write(c, f).mem.len() == c.mem.len(),
{
    if f.len() != 0 && !c.wip && f[0] == Command::WriteStatus.spec_opcode() && f.len() == 4
        && c.wel {
        let b = f[1];
        assert((b >> 2) & 0x0F < 16) by (bit_vector);
    }
}

/// Writing bytes at a valid offset makes exactly those bytes read
/// back, and no byte outside the written range changes.
pub proof fn lemma_write_read_back(mem: Seq<u8>, off: int, data: Seq<u8>)
    requires
        0 <= off,
        off + data.len() <= mem.len(),
    ensures
        mem_store(mem, off, data).subrange(off, off + data.len()) == data,
        forall|i: int| 0 <= i < mem.len() && !(off <= i < off + data.len())
            ==> mem_store(mem, off, data)[i] == mem[i],
{
    assert(mem_store(mem, off, data).subrange(off, off + data.len()) =~= data);
}

/// After erasing `[from, to)`, that whole range reads back as erased
/// bytes, and no byte outside it changes.
pub proof fn lemma_erase_reads_erased(mem: Seq<u8>, from: int, to: int)
    requires
        0 <= from <= to <= mem.len(),
    ensures
        mem_erase(mem, from, to).subrange(from, to) == erased_mem((to - from) as nat),
        forall|i: int| 0 <= i < mem.len() && !(from <= i < to) ==> mem_erase(mem, from, to)[i] == mem[i],
{
    assert(mem_erase(mem, from, to).subrange(from, to) =~= erased_mem((to - from) as nat));
}

/// Erasing a range that is already erased leaves the array unchanged.
pub proof fn lemma_erase_idempotent(mem: Seq<u8>, from: int, to: int)
    requires
        forall|i: int| from <= i < to && 0 <= i < mem.len() ==> mem[i] == ERASED_BYTE,
    ensures
        mem_erase(mem, from, to) == mem,
{
    assert(mem_erase(mem, from, to) =~= mem);
}

/// Two adjacent stores compose into one store of the concatenation.
pub proof fn lemma_store_append(mem: Seq<u8>, off: int, d1: Seq<u8>, d2: Seq<u8>)
    requires
        0 <= off,
    ensures
        mem_store(mem_store(mem, off, d1), off + d1.len(), d2) == mem_store(mem, off, d1 + d2),
{
    let lhs = mem_store(mem_store(mem, off, d1), off + d1.len(), d2);
    let rhs = mem_store(mem, off, d1 + d2);
    assert forall|i: int| 0 <= i < mem.len() implies lhs[i] == rhs[i] by {
        if off <= i < off + d1.len() {
            assert((d1 + d2)[i - off] == d1[i - off]);
        } else if off + d1.len() <= i < off + d1.len() + d2.len() {
            assert((d1 + d2)[i - off] == d2[i - off - d1.len()]);
        }
    }
    assert(lhs =~= rhs);
}

/// Two adjacent erases compose into one erase of the union.
pub proof fn lemma_erase_append(mem: Seq<u8>, a: int, b: int, c: int)
    requires
        a <= b <= c,
    ensures
        mem_erase(mem_erase(mem, a, b), b, c) == mem_erase(mem, a, c),
{
    assert(mem_erase(mem_erase(mem, a, b), b, c) =~= mem_erase(mem, a, c));
}

} // verus!
