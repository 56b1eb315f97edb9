//! Command opcodes and wire-frame construction.
//!
//! Every chip operation is framed as one opcode byte, optionally
//! followed by a 3-byte big-endian address, an optional dummy byte and
//! payload bytes.  The builders here produce those exact byte
//! sequences; the spec functions state them, and `frame_addr` recovers
//! the address that a frame carries.

use vstd::prelude::*;
use vstd::arithmetic::div_mod::lemma_fundamental_div_mod;

use crate::{BLOCK32_SIZE, BLOCK64_SIZE, PAGE_SIZE, SECTOR_SIZE};

verus! {

/// The byte clocked out while the chip drives the line (dummy cycles).
pub const DUMMY: u8 = 0xFF;

/// Instruction opcodes of the MX25R command set.
#[derive(Debug, PartialEq, Eq, Structural, Copy, Clone)]
pub enum Command {
    Read,
    ReadF,
    Read2,
    ReadD,
    Read4,
    ReadQ,
    ProgramPage,
    ProgramPage4,
    SectorErase,
    BlockErase32,
    BlockErase,
    ChipErase,
    ReadSfdp,
    WriteEnable,
    WriteDisable,
    ReadStatus,
    ReadConfig,
    WriteStatus,
    ProgramEraseSuspend,
    ProgramEraseResume,
    DeepPowerDown,
    SetBurstLength,
    ReadIdentification,
    ReadManufacturerId,
    ReadElectronicId,
    EnterSecureOTP,
    ExitSecureOTP,
    ReadSecurityRegister,
    WriteSecurityRegister,
    Nop,
    ResetEnable,
    ResetMemory,
}

impl Command {
    /// The opcode byte of this command, as the hardware defines it.
    pub open spec fn spec_opcode(self) -> u8 {
        match self {
            Command::Read => 0x03,
            Command::ReadF => 0x0B,
            Command::Read2 => 0xBB,
            Command::ReadD => 0x3B,
            Command::Read4 => 0xEB,
            Command::ReadQ => 0x6B,
            Command::ProgramPage => 0x02,
            Command::ProgramPage4 => 0x38,
            Command::SectorErase => 0x20,
            Command::BlockErase32 => 0x52,
            Command::BlockErase => 0xD8,
            Command::ChipErase => 0x60,
            Command::ReadSfdp => 0x5A,
            Command::WriteEnable => 0x06,
            Command::WriteDisable => 0x04,
            Command::ReadStatus => 0x05,
            Command::ReadConfig => 0x15,
            Command::WriteStatus => 0x01,
            Command::ProgramEraseSuspend => 0xB0,
            Command::ProgramEraseResume => 0x30,
            Command::DeepPowerDown => 0xB9,
            Command::SetBurstLength => 0xC0,
            Command::ReadIdentification => 0x9F,
            Command::ReadManufacturerId => 0x90,
            Command::ReadElectronicId => 0xAB,
            Command::EnterSecureOTP => 0xB1,
            Command::ExitSecureOTP => 0xC1,
            Command::ReadSecurityRegister => 0x2B,
            Command::WriteSecurityRegister => 0x2F,
            Command::Nop => 0x00,
            Command::ResetEnable => 0x66,
            Command::ResetMemory => 0x99,
        }
    }

    /// Returns the opcode byte of this command.
    pub fn opcode(self) -> (b: u8)
        ensures
            b == self.spec_opcode(),
    {
        match self {
            Command::Read => 0x03,
            Command::ReadF => 0x0B,
            Command::Read2 => 0xBB,
            Command::ReadD => 0x3B,
            Command::Read4 => 0xEB,
            Command::ReadQ => 0x6B,
            Command::ProgramPage => 0x02,
            Command::ProgramPage4 => 0x38,
            Command::SectorErase => 0x20,
            Command::BlockErase32 => 0x52,
            Command::BlockErase => 0xD8,
            Command::ChipErase => 0x60,
            Command::ReadSfdp => 0x5A,
            Command::WriteEnable => 0x06,
            Command::WriteDisable => 0x04,
            Command::ReadStatus => 0x05,
            Command::ReadConfig => 0x15,
            Command::WriteStatus => 0x01,
            Command::ProgramEraseSuspend => 0xB0,
            Command::ProgramEraseResume => 0x30,
            Command::DeepPowerDown => 0xB9,
            Command::SetBurstLength => 0xC0,
            Command::ReadIdentification => 0x9F,
            Command::ReadManufacturerId => 0x90,
            Command::ReadElectronicId => 0xAB,
            Command::EnterSecureOTP => 0xB1,
            Command::ExitSecureOTP => 0xC1,
            Command::ReadSecurityRegister => 0x2B,
            Command::WriteSecurityRegister => 0x2F,
            Command::Nop => 0x00,
            Command::ResetEnable => 0x66,
            Command::ResetMemory => 0x99,
        }
    }
}

/// High byte of a 24-bit address.
pub open spec fn addr_hi(addr: u32) -> u8 {
    (addr / 0x10000) as u8
}

/// Middle byte of a 24-bit address.
pub open spec fn addr_mid(addr: u32) -> u8 {
    ((addr % 0x10000) / 0x100) as u8
}

/// Low byte of a 24-bit address.
pub open spec fn addr_lo(addr: u32) -> u8 {
    (addr % 0x100) as u8
}

/// The 4-byte frame of an addressed command: opcode then the address,
/// big-endian.
pub open spec fn spec_addr_frame(cmd: Command, addr: u32) -> Seq<u8> {
    seq![cmd.spec_opcode(), addr_hi(addr), addr_mid(addr), addr_lo(addr)]
}

/// The address carried by an addressed frame (bytes 1..4, big-endian).
pub open spec fn frame_addr(f: Seq<u8>) -> int {
    f[1] * 0x10000 + f[2] * 0x100 + f[3]
}

/// Splitting a 24-bit address into three bytes and recombining them
/// big-endian yields the address back.
pub proof fn lemma_frame_addr_roundtrip(cmd: Command, addr: u32)
    requires
        addr < 0x1000000,
    ensures
        frame_addr(spec_addr_frame(cmd, addr)) == addr,
{
    lemma_fundamental_div_mod(addr as int, 0x10000);
    lemma_fundamental_div_mod(addr as int % 0x10000, 0x100);
}

/// Builds the 1-byte frame of a simple command.
pub fn simple_frame(cmd: Command) -> (f: Vec<u8>)
    ensures
        f@ == seq![cmd.spec_opcode()],
{
    let mut f: Vec<u8> = Vec::new();
    f.push(cmd.opcode());
    assert(f@ =~= seq![cmd.spec_opcode()]);
    f
}

/// Builds the 4-byte frame of an addressed command.
pub fn addr_frame(cmd: Command, addr: u32) -> (f: Vec<u8>)
    requires
        addr < 0x1000000,
    ensures
        f@ == spec_addr_frame(cmd, addr),
        f@.len() == 4,
        frame_addr(f@) == addr,
        f@[0] == cmd.spec_opcode(),
{
    let mut f: Vec<u8> = Vec::new();
    f.push(cmd.opcode());
    f.push((addr / 0x10000) as u8);
    f.push(((addr % 0x10000) / 0x100) as u8);
    f.push((addr % 0x100) as u8);
    assert(f@ =~= spec_addr_frame(cmd, addr));
    proof {
        lemma_frame_addr_roundtrip(cmd, addr);
    }
    f
}

/// The one-byte status-poll frame, which the busy-wait repeats.
pub open spec fn status_poll_frame() -> Seq<u8> {
    seq![Command::ReadStatus.spec_opcode()]
}

/// The one-byte write-enable frame, the preamble of every mutation.
pub open spec fn we_frame() -> Seq<u8> {
    seq![Command::WriteEnable.spec_opcode()]
}

/// Whether a frame is anything but a status poll.
pub open spec fn is_command_frame(f: Seq<u8>) -> bool {
    f != status_poll_frame()
}

/// The frames of a history that are not status polls: the commands.
pub open spec fn non_poll_frames(h: Seq<Seq<u8>>) -> Seq<Seq<u8>> {
    h.filter(|f: Seq<u8>| is_command_frame(f))
}

/// The command frames a call appended to a frame history: the history
/// after the call, less the history before it, without the status
/// polls of the busy-waits.  Meaningful when the old history is a
/// prefix of the new one, which every operation ensures.
pub open spec fn commands_sent(before: Seq<Seq<u8>>, after: Seq<Seq<u8>>) -> Seq<Seq<u8>> {
    non_poll_frames(after.skip(before.len() as int))
}

/// A call that left the history alone appended no command.
pub proof fn lemma_commands_sent_none(h: Seq<Seq<u8>>)
    ensures
        h.is_prefix_of(h),
        commands_sent(h, h) == Seq::<Seq<u8>>::empty(),
{
    reveal(Seq::filter);
    assert(h.skip(h.len() as int) =~= Seq::<Seq<u8>>::empty());
    assert(h.subrange(0, h.len() as int) =~= h);
}

/// Appending one frame to the history appends it to the commands sent,
/// unless it is a status poll.
pub proof fn lemma_commands_sent_push(h0: Seq<Seq<u8>>, h1: Seq<Seq<u8>>, f: Seq<u8>)
    requires
        h0.is_prefix_of(h1),
    ensures
        h0.is_prefix_of(h1.push(f)),
        commands_sent(h0, h1.push(f)) == (if f == status_poll_frame() {
            commands_sent(h0, h1)
        } else {
            commands_sent(h0, h1).push(f)
        }),
{
    broadcast use Seq::lemma_filter_push;

    let l0 = h0.len() as int;
    assert(h1.push(f).subrange(0, l0) =~= h0);
    assert(h1.push(f).skip(l0) =~= h1.skip(l0).push(f));
}

/// The commands sent across two calls are those of the first followed
/// by those of the second.
pub proof fn lemma_commands_sent_trans(h0: Seq<Seq<u8>>, h1: Seq<Seq<u8>>, h2: Seq<Seq<u8>>)
    requires
        h0.is_prefix_of(h1),
        h1.is_prefix_of(h2),
    ensures
        h0.is_prefix_of(h2),
        commands_sent(h0, h2) == commands_sent(h0, h1) + commands_sent(h1, h2),
{
    broadcast use Seq::filter_distributes_over_add;

    let l0 = h0.len() as int;
    let l1 = h1.len() as int;
    assert(h2.subrange(0, l0) =~= h0);
    assert(h2.skip(l0) =~= h1.skip(l0) + h2.skip(l1));
}

/// The page-program frame at `addr` carrying `payload`.
pub open spec fn spec_program_frame(addr: u32, payload: Seq<u8>) -> Seq<u8> {
    spec_addr_frame(Command::ProgramPage, addr) + payload
}

/// The erase frame of granularity `sz` at `addr`.
pub open spec fn spec_erase_frame(addr: u32, sz: u32) -> Seq<u8> {
    spec_addr_frame(
        if sz == BLOCK64_SIZE {
            Command::BlockErase
        } else if sz == BLOCK32_SIZE {
            Command::BlockErase32
        } else {
            Command::SectorErase
        },
        addr,
    )
}

/// The command frames a range write at `addr` issues: one write-enable
/// and one program frame per chunk, in ascending address order, where
/// each chunk runs at most to the end of the page containing its
/// address.
pub open spec fn spec_write_frames(addr: u32, data: Seq<u8>) -> Seq<Seq<u8>>
    decreases data.len(),
{
    if data.len() == 0 {
        Seq::empty()
    } else {
        let room = PAGE_SIZE - addr % PAGE_SIZE;
        let n: int = if data.len() <= room { data.len() as int } else { room };
        seq![we_frame(), spec_program_frame(addr, data.take(n))]
            + spec_write_frames((addr + n) as u32, data.skip(n))
    }
}

/// The granularity the range erase engine picks at `from` within
/// `[from, to)`: the largest unit aligned at `from` that fits.
pub open spec fn spec_erase_unit(from: u32, to: u32) -> u32 {
    if from % BLOCK64_SIZE == 0 && to - from >= BLOCK64_SIZE {
        BLOCK64_SIZE
    } else if from % BLOCK32_SIZE == 0 && to - from >= BLOCK32_SIZE {
        BLOCK32_SIZE
    } else {
        SECTOR_SIZE
    }
}

/// The command frames a range erase of `[from, to)` issues: one
/// write-enable and one erase frame per unit, eating the largest
/// aligned unit first.
pub open spec fn spec_erase_seq(from: u32, to: u32) -> Seq<Seq<u8>>
    decreases to - from,
{
    if from >= to {
        Seq::empty()
    } else {
        let sz = spec_erase_unit(from, to);
        if from + sz <= to {
            seq![we_frame(), spec_erase_frame(from, sz)] + spec_erase_seq((from + sz) as u32, to)
        } else {
            seq![we_frame(), spec_erase_frame(from, sz)]
        }
    }
}

/// Builds the 5-byte frame of an addressed command followed by one
/// dummy byte, as fast reads require.
pub fn addr_dummy_frame(cmd: Command, addr: u32) -> (f: Vec<u8>)
    requires
        addr < 0x1000000,
    ensures
        f@ == spec_addr_frame(cmd, addr).push(DUMMY),
        f@.len() == 5,
        frame_addr(f@) == addr,
        f@[0] == cmd.spec_opcode(),
{
    let mut f = addr_frame(cmd, addr);
    f.push(DUMMY);
    assert(f@ =~= spec_addr_frame(cmd, addr).push(DUMMY));
    f
}

} // verus!
