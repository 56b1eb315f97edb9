//! The synchronous driver handle.
//!
//! [`MX25R`] owns a transport and translates the byte-level interface
//! (read at offset, write at offset, erase a range) into the chip's
//! fixed-granularity commands.  Every operation is specified against
//! the chip model: what frame it sends, how the chip's array and flags
//! change, and exactly which inputs are rejected with which error
//! before any frame is sent.
//!
//! Mutating operations are guarded by a write permission on the
//! handle: they are rejected unless [`MX25R::write_enable`] was called
//! first, and every completed (or attempted) mutation drops the
//! permission again.

use vstd::prelude::*;

use crate::chip::{
    clear_wip, erased_mem, mem_erase, mem_store, same_regs, spec_disarm, step_write,
    lemma_erase_append, lemma_step_write_preserves, lemma_store_append, ChipState,
};
use crate::command::{
    addr_dummy_frame, addr_frame, commands_sent, lemma_commands_sent_none,
    lemma_commands_sent_push, lemma_commands_sent_trans, simple_frame, spec_addr_frame,
    spec_erase_frame, spec_erase_seq, spec_erase_unit, spec_program_frame, spec_write_frames,
    status_poll_frame, we_frame, Command, DUMMY,
};
use crate::error::Error;
use crate::geometry::{largest_erase_unit, page_chunk_len};
use vstd::arithmetic::div_mod::lemma_add_mod_noop;
use crate::register::{
    decode_configuration, decode_security, decode_status, encode_configuration1,
    encode_configuration2, encode_status, lemma_configuration_decode_encode,
    lemma_status_decode_encode, spec_encode_configuration1, spec_encode_configuration2,
    spec_encode_status, ConfigurationRegister, DeviceId, ElectronicId, ManufacturerId,
    MemoryDensity, MemoryType, PowerMode, ProtectedArea, SecurityRegister, StatusRegister,
};
use crate::transport::Transport;
use crate::{check_erase, check_write, BLOCK32_SIZE, BLOCK64_SIZE, PAGE_SIZE, SECTOR_SIZE};

verus! {

/// The handle's write-permission tag: mutating operations are only
/// honored while it is `Enabled`.
#[derive(Debug, Clone, Copy, PartialEq, Eq, Structural)]
pub enum WritePermission {
    /// Program and erase operations are rejected.
    Disabled,
    /// One mutating operation may proceed; it drops the permission.
    Enabled,
}

/// The generic driver handle over a chip of `SIZE + 1` bytes.
pub struct MX25R<const SIZE: u32, T: Transport> {
    spi: T,
    permission: WritePermission,
}

/// Driver for the MX25R512F (64 KiB).
pub type MX25R512F<T> = MX25R<0x00FFFF, T>;

/// Driver for the MX25R1035F (128 KiB).
pub type MX25R1035F<T> = MX25R<0x01FFFF, T>;

/// Driver for the MX25R2035F (256 KiB).
pub type MX25R2035F<T> = MX25R<0x03FFFF, T>;

/// Driver for the MX25R4035F (512 KiB).
pub type MX25R4035F<T> = MX25R<0x07FFFF, T>;

/// Driver for the MX25R8035F (1 MiB).
pub type MX25R8035F<T> = MX25R<0x0FFFFF, T>;

/// Driver for the MX25R1635F (2 MiB).
pub type MX25R1635F<T> = MX25R<0x1FFFFF, T>;

/// Driver for the MX25R3235F (4 MiB).
pub type MX25R3235F<T> = MX25R<0x3FFFFF, T>;

/// Driver for the MX25R6435F (8 MiB).
pub type MX25R6435F<T> = MX25R<0x7FFFFF, T>;

impl<const SIZE: u32, T: Transport> MX25R<SIZE, T> {
    /// Ghost view of the chip behind this handle.
    pub closed spec fn chip(&self) -> ChipState {
        self.spi.chip()
    }

    /// Ghost history of the frames this handle has sent.
    pub closed spec fn hist(&self) -> Seq<Seq<u8>> {
        self.spi.hist()
    }

    /// The handle's current write permission.
    pub closed spec fn permission(&self) -> WritePermission {
        self.permission
    }

    /// Ghost bound on the polls that may still find the chip busy.
    pub closed spec fn busy_fuel(&self) -> nat {
        self.spi.busy_bound()
    }

    /// Well-formedness: the chip behind the handle has exactly the
    /// capacity the type promises, addressable in 24 bits, and its
    /// state is well formed.
    pub closed spec fn inv(&self) -> bool {
        &&& self.spi.chip().mem.len() == SIZE as int + 1
        &&& SIZE < 0x1000000
        &&& self.spi.chip().wf()
    }

    /// What the handle invariant guarantees to callers: the chip's
    /// array has exactly the capacity the type promises, the capacity
    /// is addressable in 24 bits, and the chip state is well formed.
    pub proof fn lemma_inv_facts(&self)
        requires
            self.inv(),
        ensures
            self.chip().mem.len() == SIZE as int + 1,
            SIZE < 0x1000000,
            self.chip().wf(),
    {
    }

    /// Wraps a transport whose chip has this driver's capacity.  The
    /// handle starts without write permission.
    pub fn new(spi: T) -> (d: Self)
        requires
            spi.chip().mem.len() == SIZE as int + 1,
            spi.chip().wf(),
            SIZE < 0x1000000,
        ensures
            d.inv(),
            d.chip() == spi.chip(),
            d.hist() == spi.hist(),
            d.permission() is Disabled,
    {
        MX25R { spi, permission: WritePermission::Disabled }
    }

    /// Gives the transport back, consuming the handle.
    pub fn release(self) -> (t: T)
        ensures
            t.chip() == self.chip(),
            t.hist() == self.hist(),
    {
        let MX25R { spi, permission: _ } = self;
        spi
    }

    /// The chip's capacity in bytes.
    pub fn capacity(&self) -> (c: usize)
        requires
            self.inv(),
        ensures
            c == SIZE as usize + 1,
    {
        SIZE as usize + 1
    }

    /// Accepts an address below the capacity and rejects any other as
    /// out of bounds.
    pub fn verify_addr(addr: u32) -> (r: Result<u32, Error<T::Fault>>)
        ensures
            r == if addr <= SIZE {
                Ok::<u32, Error<T::Fault>>(addr)
            } else {
                Err::<u32, Error<T::Fault>>(Error::OutOfBounds)
            },
    {
        if addr > SIZE {
            return Err(Error::OutOfBounds);
        }
        Ok(addr)
    }

    /// Sends a one-byte command frame, without waiting for readiness.
    fn command(&mut self, cmd: Command) -> (r: Result<(), Error<T::Fault>>)
        requires
            old(self).inv(),
        ensures
            final(self).inv(),
            final(self).permission() == old(self).permission(),
            final(self).hist() == old(self).hist().push(seq![cmd.spec_opcode()]),
            match r {
                Ok(()) => final(self).chip() == step_write(old(self).chip(), seq![cmd.spec_opcode()]),
                Err(e) => (e matches Error::Spi(_)) && final(self).chip() == old(self).chip(),
            },
    {
        let f = simple_frame(cmd);
        proof {
            lemma_step_write_preserves(self.spi.chip(), f@);
        }
        match self.spi.transact_write(f.as_slice()) {
            Ok(()) => Ok(()),
            Err(e) => Err(Error::Spi(e)),
        }
    }

    /// Reads the status register: one register-transfer transaction,
    /// decoded by the status codec.  Never changes the chip beyond a
    /// possible completion of an ongoing operation.
    pub fn read_status(&mut self) -> (r: Result<StatusRegister, Error<T::Fault>>)
        requires
            old(self).inv(),
        ensures
            final(self).inv(),
            final(self).permission() == old(self).permission(),
            final(self).chip() == old(self).chip()
                || final(self).chip() == clear_wip(old(self).chip()),
            final(self).hist() == old(self).hist().push(seq![Command::ReadStatus.spec_opcode()]),
            final(self).chip().wip ==> final(self).busy_fuel() < old(self).busy_fuel(),
            match r {
                Ok(sr) => sr == (StatusRegister {
                    write_protect_disable: final(self).chip().status_write_disable,
                    quad_enable: final(self).chip().quad_enable,
                    protected_block: final(self).chip().protected_block,
                    write_enable_latch: final(self).chip().wel,
                    wip_bit: final(self).chip().wip,
                }),
                Err(e) => e matches Error::Spi(_),
            },
    {
        let f = simple_frame(Command::ReadStatus);
        match self.spi.transact_write_read(f.as_slice(), 1) {
            Ok(data) => {
                let b = data[0];
                proof {
                    lemma_status_decode_encode(StatusRegister {
                        write_protect_disable: self.spi.chip().status_write_disable,
                        quad_enable: self.spi.chip().quad_enable,
                        protected_block: self.spi.chip().protected_block,
                        write_enable_latch: self.spi.chip().wel,
                        wip_bit: self.spi.chip().wip,
                    });
                }
                Ok(decode_status(b))
            }
            Err(e) => Err(Error::Spi(e)),
        }
    }

    /// Polls the work-in-progress bit once: `Busy` exactly when the
    /// chip still reports an operation in progress.
    pub fn poll_wip(&mut self) -> (r: Result<(), Error<T::Fault>>)
        requires
            old(self).inv(),
        ensures
            final(self).inv(),
            final(self).permission() == old(self).permission(),
            final(self).chip() == old(self).chip()
                || final(self).chip() == clear_wip(old(self).chip()),
            final(self).hist() == old(self).hist().push(seq![Command::ReadStatus.spec_opcode()]),
            final(self).chip().wip ==> final(self).busy_fuel() < old(self).busy_fuel(),
            match r {
                Ok(()) => !final(self).chip().wip,
                Err(e) => (e == Error::<T::Fault>::Busy && final(self).chip().wip)
                    || (e matches Error::Spi(_)),
            },
    {
        match self.read_status() {
            Ok(sr) => {
                if sr.wip_bit {
                    Err(Error::Busy)
                } else {
                    Ok(())
                }
            }
            Err(e) => Err(e),
        }
    }

    /// Polls until the chip reports ready, spinning on `Busy`.  Only a
    /// transport fault can end the wait otherwise; a chip that never
    /// clears its work-in-progress bit is waited on forever.
    pub fn wait_wip(&mut self) -> (r: Result<(), Error<T::Fault>>)
        requires
            old(self).inv(),
        ensures
            final(self).inv(),
            final(self).permission() == old(self).permission(),
            final(self).chip() == old(self).chip()
                || final(self).chip() == clear_wip(old(self).chip()),
            old(self).hist().is_prefix_of(final(self).hist()),
            commands_sent(old(self).hist(), final(self).hist()) == Seq::<Seq<u8>>::empty(),
            match r {
                Ok(()) => !final(self).chip().wip,
                Err(e) => e matches Error::Spi(_),
            },
    {
        proof {
            lemma_commands_sent_none(self.hist());
        }
        loop
            invariant
                self.inv(),
                self.permission() == old(self).permission(),
                self.chip() == old(self).chip() || self.chip() == clear_wip(old(self).chip()),
                old(self).hist().is_prefix_of(self.hist()),
                commands_sent(old(self).hist(), self.hist()) == Seq::<Seq<u8>>::empty(),
            decreases self.busy_fuel(),
        {
            let ghost polled = self.hist();
            let r = self.poll_wip();
            proof {
                lemma_commands_sent_push(old(self).hist(), polled, status_poll_frame());
            }
            match r {
                Ok(()) => {
                    return Ok(());
                }
                Err(Error::Busy) => {
                    // The chip is mid-cycle; poll again.
                }
                Err(e) => {
                    return Err(e);
                }
            }
        }
    }

    /// Issues the write-enable command and grants the handle its write
    /// permission; the chip's write-enable latch is set afterwards.
    pub fn write_enable(&mut self) -> (r: Result<(), Error<T::Fault>>)
        requires
            old(self).inv(),
        ensures
            final(self).inv(),
            match r {
                Ok(()) => final(self).permission() is Enabled
                    && final(self).chip() == (ChipState {
                        wel: true,
                        wip: false,
                        reset_armed: false,
                        ..old(self).chip()
                    })
                    && old(self).hist().is_prefix_of(final(self).hist())
                    && commands_sent(old(self).hist(), final(self).hist()) == seq![we_frame()],
                Err(e) => (e matches Error::Spi(_))
                    && final(self).permission() == old(self).permission()
                    && (final(self).chip() == old(self).chip()
                        || final(self).chip() == clear_wip(old(self).chip())),
            },
    {
        match self.wait_wip() {
            Ok(()) => {}
            Err(e) => {
                return Err(e);
            }
        }
        let ghost waited = self.hist();
        match self.command(Command::WriteEnable) {
            Ok(()) => {
                self.permission = WritePermission::Enabled;
                proof {
                    lemma_commands_sent_push(old(self).hist(), waited, we_frame());
                    assert(commands_sent(old(self).hist(), self.hist()) =~= seq![we_frame()]);
                }
                Ok(())
            }
            Err(e) => Err(e),
        }
    }

    /// Issues the write-disable command and drops the handle's write
    /// permission; the chip's write-enable latch is clear afterwards.
    pub fn write_disable(&mut self) -> (r: Result<(), Error<T::Fault>>)
        requires
            old(self).inv(),
        ensures
            final(self).inv(),
            final(self).permission() is Disabled,
            match r {
                Ok(()) => final(self).chip() == (ChipState {
                    wel: false,
                    wip: false,
                    reset_armed: false,
                    ..old(self).chip()
                }) && old(self).hist().is_prefix_of(final(self).hist())
                    && commands_sent(old(self).hist(), final(self).hist()) == seq![
                        seq![Command::WriteDisable.spec_opcode()],
                    ],
                Err(e) => (e matches Error::Spi(_))
                    && (final(self).chip() == old(self).chip()
                        || final(self).chip() == clear_wip(old(self).chip())),
            },
    {
        self.permission = WritePermission::Disabled;
        match self.wait_wip() {
            Ok(()) => {}
            Err(e) => {
                return Err(e);
            }
        }
        let ghost waited = self.hist();
        let r = self.command(Command::WriteDisable);
        proof {
            lemma_commands_sent_push(
                old(self).hist(),
                waited,
                seq![Command::WriteDisable.spec_opcode()],
            );
            assert(commands_sent(old(self).hist(), self.hist())
                =~= seq![seq![Command::WriteDisable.spec_opcode()]]);
        }
        r
    }

    /// Waits for readiness, then sets the chip's write-enable latch:
    /// the mandatory preamble before every program or erase command.
    fn prepare_write(&mut self) -> (r: Result<(), Error<T::Fault>>)
        requires
            old(self).inv(),
        ensures
            final(self).inv(),
            final(self).permission() == old(self).permission(),
            match r {
                Ok(()) => final(self).chip() == (ChipState {
                    wel: true,
                    wip: false,
                    reset_armed: false,
                    ..old(self).chip()
                }) && old(self).hist().is_prefix_of(final(self).hist())
                    && commands_sent(old(self).hist(), final(self).hist()) == seq![we_frame()],
                Err(e) => (e matches Error::Spi(_))
                    && (final(self).chip() == old(self).chip()
                        || final(self).chip() == clear_wip(old(self).chip())),
            },
    {
        match self.wait_wip() {
            Ok(()) => {}
            Err(e) => {
                return Err(e);
            }
        }
        let ghost waited = self.hist();
        let r = self.command(Command::WriteEnable);
        proof {
            assert(we_frame()[0] == 0x06 && status_poll_frame()[0] == 0x05);
            lemma_commands_sent_push(old(self).hist(), waited, we_frame());
            assert(commands_sent(old(self).hist(), self.hist())
                =~= Seq::<Seq<u8>>::empty().push(we_frame()));
        }
        r
    }

    /// Reads `len` bytes starting at `addr`.  The whole range must lie
    /// below the capacity; a rejected range sends no frame.  The chip
    /// is waited ready first, so the bytes are the durable array
    /// contents.
    pub fn read(&mut self, addr: u32, len: usize) -> (r: Result<Vec<u8>, Error<T::Fault>>)
        requires
            old(self).inv(),
        ensures
            final(self).inv(),
            final(self).permission() == old(self).permission(),
            final(self).chip() == old(self).chip()
                || final(self).chip() == clear_wip(old(self).chip()),
            match r {
                Ok(data) => {
                    &&& addr as int + len as int <= SIZE as int + 1
                    &&& data@.len() == len
                    &&& len > 0 ==> !final(self).chip().wip && data@ == final(self).chip()
                        .mem.subrange(addr as int, addr as int + len as int)
                    &&& len > 0 ==> old(self).hist().is_prefix_of(final(self).hist())
                        && commands_sent(old(self).hist(), final(self).hist()) == seq![
                            spec_addr_frame(Command::Read, addr),
                        ]
                    &&& len == 0 ==> final(self).chip() == old(self).chip()
                        && final(self).hist() == old(self).hist()
                },
                Err(e) => match e {
                    Error::OutOfBounds => addr as int + len as int > SIZE as int + 1
                        && final(self).chip() == old(self).chip()
                        && final(self).hist() == old(self).hist(),
                    Error::Spi(_) => addr as int + len as int <= SIZE as int + 1 && len > 0,
                    _ => false,
                },
            },
    {
        let capacity = self.capacity();
        match check_write(capacity, addr, len) {
            Ok(()) => {}
            Err(e) => {
                return Err(e);
            }
        }
        if len == 0 {
            return Ok(Vec::new());
        }
        match self.wait_wip() {
            Ok(()) => {}
            Err(e) => {
                return Err(e);
            }
        }
        let f = addr_frame(Command::Read, addr);
        let ghost waited = self.hist();
        match self.spi.transact_write_read(f.as_slice(), len) {
            Ok(data) => {
                proof {
                    lemma_commands_sent_push(old(self).hist(), waited, f@);
                    assert(commands_sent(old(self).hist(), self.hist()) =~= seq![f@]);
                }
                Ok(data)
            }
            Err(e) => Err(Error::Spi(e)),
        }
    }

    /// Reads `len` bytes starting at `addr` with the fast-read
    /// command, which inserts one dummy byte before the data phase.
    /// Same contract as [`Self::read`].
    pub fn read_fast(&mut self, addr: u32, len: usize) -> (r: Result<Vec<u8>, Error<T::Fault>>)
        requires
            old(self).inv(),
        ensures
            final(self).inv(),
            final(self).permission() == old(self).permission(),
            final(self).chip() == old(self).chip()
                || final(self).chip() == clear_wip(old(self).chip()),
            match r {
                Ok(data) => {
                    &&& addr as int + len as int <= SIZE as int + 1
                    &&& data@.len() == len
                    &&& len > 0 ==> !final(self).chip().wip && data@ == final(self).chip()
                        .mem.subrange(addr as int, addr as int + len as int)
                    &&& len > 0 ==> old(self).hist().is_prefix_of(final(self).hist())
                        && commands_sent(old(self).hist(), final(self).hist()) == seq![
                            spec_addr_frame(Command::ReadF, addr).push(DUMMY),
                        ]
                    &&& len == 0 ==> final(self).chip() == old(self).chip()
                        && final(self).hist() == old(self).hist()
                },
                Err(e) => match e {
                    Error::OutOfBounds => addr as int + len as int > SIZE as int + 1
                        && final(self).chip() == old(self).chip()
                        && final(self).hist() == old(self).hist(),
                    Error::Spi(_) => addr as int + len as int <= SIZE as int + 1 && len > 0,
                    _ => false,
                },
            },
    {
        let capacity = self.capacity();
        match check_write(capacity, addr, len) {
            Ok(()) => {}
            Err(e) => {
                return Err(e);
            }
        }
        if len == 0 {
            return Ok(Vec::new());
        }
        match self.wait_wip() {
            Ok(()) => {}
            Err(e) => {
                return Err(e);
            }
        }
        let f = addr_dummy_frame(Command::ReadF, addr);
        let ghost waited = self.hist();
        match self.spi.transact_write_read(f.as_slice(), len) {
            Ok(data) => {
                proof {
                    lemma_commands_sent_push(old(self).hist(), waited, f@);
                    assert(commands_sent(old(self).hist(), self.hist()) =~= seq![f@]);
                }
                Ok(data)
            }
            Err(e) => Err(Error::Spi(e)),
        }
    }

    /// Reads `len` bytes of the SFDP descriptor table starting at
    /// `addr`.  Bytes beyond the table read as zero; the address is
    /// still held to the array bound, as every addressed frame is.
    pub fn read_sfdp(&mut self, addr: u32, len: usize) -> (r: Result<Vec<u8>, Error<T::Fault>>)
        requires
            old(self).inv(),
        ensures
            final(self).inv(),
            final(self).permission() == old(self).permission(),
            final(self).chip() == old(self).chip()
                || final(self).chip() == clear_wip(old(self).chip()),
            match r {
                Ok(data) => {
                    &&& addr as int + len as int <= SIZE as int + 1
                    &&& data@.len() == len
                    &&& len > 0 ==> !final(self).chip().wip
                        && data@ == crate::chip::sfdp_read(final(self).chip(), addr as int, len as nat)
                    &&& len > 0 ==> old(self).hist().is_prefix_of(final(self).hist())
                        && commands_sent(old(self).hist(), final(self).hist()) == seq![
                            spec_addr_frame(Command::ReadSfdp, addr).push(DUMMY),
                        ]
                    &&& len == 0 ==> final(self).chip() == old(self).chip()
                        && final(self).hist() == old(self).hist()
                },
                Err(e) => match e {
                    Error::OutOfBounds => addr as int + len as int > SIZE as int + 1
                        && final(self).chip() == old(self).chip()
                        && final(self).hist() == old(self).hist(),
                    Error::Spi(_) => addr as int + len as int <= SIZE as int + 1 && len > 0,
                    _ => false,
                },
            },
    {
        let capacity = self.capacity();
        match check_write(capacity, addr, len) {
            Ok(()) => {}
            Err(e) => {
                return Err(e);
            }
        }
        if len == 0 {
            return Ok(Vec::new());
        }
        match self.wait_wip() {
            Ok(()) => {}
            Err(e) => {
                return Err(e);
            }
        }
        let f = addr_dummy_frame(Command::ReadSfdp, addr);
        let ghost waited = self.hist();
        match self.spi.transact_write_read(f.as_slice(), len) {
            Ok(data) => {
                proof {
                    lemma_commands_sent_push(old(self).hist(), waited, f@);
                    assert(commands_sent(old(self).hist(), self.hist()) =~= seq![f@]);
                }
                Ok(data)
            }
            Err(e) => Err(Error::Spi(e)),
        }
    }

    /// Reads the configuration register: two bytes, decoded by the
    /// configuration codec.
    pub fn read_configuration(&mut self) -> (r: Result<ConfigurationRegister, Error<T::Fault>>)
        requires
            old(self).inv(),
        ensures
            final(self).inv(),
            final(self).permission() == old(self).permission(),
            final(self).chip() == old(self).chip()
                || final(self).chip() == clear_wip(old(self).chip()),
            final(self).hist() == old(self).hist().push(seq![Command::ReadConfig.spec_opcode()]),
            match r {
                Ok(cr) => cr == (ConfigurationRegister {
                    dummy_cycle: final(self).chip().dummy_cycle,
                    protected_section: final(self).chip().protected_area,
                    power_mode: final(self).chip().power_mode,
                }),
                Err(e) => e matches Error::Spi(_),
            },
    {
        let f = simple_frame(Command::ReadConfig);
        match self.spi.transact_write_read(f.as_slice(), 2) {
            Ok(data) => {
                let b1 = data[0];
                let b2 = data[1];
                proof {
                    lemma_configuration_decode_encode(
                        self.spi.chip().protected_area,
                        self.spi.chip().dummy_cycle,
                        self.spi.chip().power_mode,
                    );
                }
                Ok(decode_configuration(b1, b2))
            }
            Err(e) => Err(Error::Spi(e)),
        }
    }

    /// Reads the security register, decoded by the security codec.
    pub fn read_security_register(&mut self) -> (r: Result<SecurityRegister, Error<T::Fault>>)
        requires
            old(self).inv(),
        ensures
            final(self).inv(),
            final(self).permission() == old(self).permission(),
            final(self).chip() == old(self).chip()
                || final(self).chip() == clear_wip(old(self).chip()),
            final(self).hist() == old(self).hist()
                .push(seq![Command::ReadSecurityRegister.spec_opcode()]),
            match r {
                Ok(sr) => sr == (SecurityRegister {
                    erase_failed: false,
                    program_failed: false,
                    erase_suspended: false,
                    program_suspended: false,
                    locked_down: final(self).chip().locked_down,
                    secured_otp: false,
                }),
                Err(e) => e matches Error::Spi(_),
            },
    {
        let f = simple_frame(Command::ReadSecurityRegister);
        match self.spi.transact_write_read(f.as_slice(), 1) {
            Ok(data) => {
                let b = data[0];
                proof {
                    assert(((0x02u8 & 0x40u8) == 0) && ((0x02u8 & 0x20u8) == 0)
                        && ((0x02u8 & 0x08u8) == 0) && ((0x02u8 & 0x04u8) == 0)
                        && ((0x02u8 & 0x02u8) != 0) && ((0x02u8 & 0x01u8) == 0)
                        && ((0x00u8 & 0x40u8) == 0) && ((0x00u8 & 0x20u8) == 0)
                        && ((0x00u8 & 0x08u8) == 0) && ((0x00u8 & 0x04u8) == 0)
                        && ((0x00u8 & 0x02u8) == 0) && ((0x00u8 & 0x01u8) == 0)) by (bit_vector);
                }
                Ok(decode_security(b))
            }
            Err(e) => Err(Error::Spi(e)),
        }
    }

    /// Reads the three identification bytes: manufacturer, memory type
    /// and memory density.
    pub fn read_identification(
        &mut self,
    ) -> (r: Result<(ManufacturerId, MemoryType, MemoryDensity), Error<T::Fault>>)
        requires
            old(self).inv(),
        ensures
            final(self).inv(),
            final(self).permission() == old(self).permission(),
            final(self).chip() == old(self).chip()
                || final(self).chip() == clear_wip(old(self).chip()),
            final(self).hist() == old(self).hist()
                .push(seq![Command::ReadIdentification.spec_opcode()]),
            match r {
                Ok((m, t, d)) => m.0 == final(self).chip().id_manufacturer
                    && t.0 == final(self).chip().id_memory_type
                    && d.0 == final(self).chip().id_density,
                Err(e) => e matches Error::Spi(_),
            },
    {
        let f = simple_frame(Command::ReadIdentification);
        match self.spi.transact_write_read(f.as_slice(), 3) {
            Ok(data) => Ok((ManufacturerId(data[0]), MemoryType(data[1]), MemoryDensity(data[2]))),
            Err(e) => Err(Error::Spi(e)),
        }
    }

    /// Reads the electronic-signature byte.
    pub fn read_electronic_id(&mut self) -> (r: Result<ElectronicId, Error<T::Fault>>)
        requires
            old(self).inv(),
        ensures
            final(self).inv(),
            final(self).permission() == old(self).permission(),
            final(self).chip() == old(self).chip()
                || final(self).chip() == clear_wip(old(self).chip()),
            final(self).hist() == old(self).hist().push(
                seq![Command::ReadElectronicId.spec_opcode(), DUMMY, DUMMY, DUMMY],
            ),
            match r {
                Ok(id) => id.0 == final(self).chip().id_electronic,
                Err(e) => e matches Error::Spi(_),
            },
    {
        let mut f = simple_frame(Command::ReadElectronicId);
        f.push(DUMMY);
        f.push(DUMMY);
        f.push(DUMMY);
        assert(f@ =~= seq![Command::ReadElectronicId.spec_opcode(), DUMMY, DUMMY, DUMMY]);
        match self.spi.transact_write_read(f.as_slice(), 1) {
            Ok(data) => Ok(ElectronicId(data[0])),
            Err(e) => Err(Error::Spi(e)),
        }
    }

    /// Reads the manufacturer and device identification bytes.
    pub fn read_manufacturer_id(
        &mut self,
    ) -> (r: Result<(ManufacturerId, DeviceId), Error<T::Fault>>)
        requires
            old(self).inv(),
        ensures
            final(self).inv(),
            final(self).permission() == old(self).permission(),
            final(self).chip() == old(self).chip()
                || final(self).chip() == clear_wip(old(self).chip()),
            final(self).hist() == old(self).hist().push(
                seq![Command::ReadManufacturerId.spec_opcode(), DUMMY, DUMMY, 0x00u8],
            ),
            match r {
                Ok((m, d)) => m.0 == final(self).chip().id_manufacturer
                    && d.0 == final(self).chip().id_device,
                Err(e) => e matches Error::Spi(_),
            },
    {
        let mut f = simple_frame(Command::ReadManufacturerId);
        f.push(DUMMY);
        f.push(DUMMY);
        f.push(0x00);
        assert(f@ =~= seq![Command::ReadManufacturerId.spec_opcode(), DUMMY, DUMMY, 0x00u8]);
        match self.spi.transact_write_read(f.as_slice(), 2) {
            Ok(data) => Ok((ManufacturerId(data[0]), DeviceId(data[1]))),
            Err(e) => Err(Error::Spi(e)),
        }
    }

    /// Suspends an ongoing program or erase.  The modeled chip keeps
    /// its state; only the frame is sent.
    pub fn suspend_program_erase(&mut self) -> (r: Result<(), Error<T::Fault>>)
        requires
            old(self).inv(),
        ensures
            final(self).inv(),
            final(self).permission() == old(self).permission(),
            final(self).hist() == old(self).hist()
                .push(seq![Command::ProgramEraseSuspend.spec_opcode()]),
            match r {
                Ok(()) => final(self).chip() == if old(self).chip().wip {
                    old(self).chip()
                } else {
                    spec_disarm(old(self).chip())
                },
                Err(e) => (e matches Error::Spi(_)) && final(self).chip() == old(self).chip(),
            },
    {
        self.command(Command::ProgramEraseSuspend)
    }

    /// Resumes a suspended program or erase.  The modeled chip keeps
    /// its state; only the frame is sent.
    pub fn resume_program_erase(&mut self) -> (r: Result<(), Error<T::Fault>>)
        requires
            old(self).inv(),
        ensures
            final(self).inv(),
            final(self).permission() == old(self).permission(),
            final(self).hist() == old(self).hist()
                .push(seq![Command::ProgramEraseResume.spec_opcode()]),
            match r {
                Ok(()) => final(self).chip() == if old(self).chip().wip {
                    old(self).chip()
                } else {
                    spec_disarm(old(self).chip())
                },
                Err(e) => (e matches Error::Spi(_)) && final(self).chip() == old(self).chip(),
            },
    {
        self.command(Command::ProgramEraseResume)
    }

    /// Sends the chip into deep power-down.  The modeled chip keeps
    /// its state; only the frame is sent.
    pub fn deep_power_down(&mut self) -> (r: Result<(), Error<T::Fault>>)
        requires
            old(self).inv(),
        ensures
            final(self).inv(),
            final(self).permission() == old(self).permission(),
            final(self).hist() == old(self).hist().push(seq![Command::DeepPowerDown.spec_opcode()]),
            match r {
                Ok(()) => final(self).chip() == if old(self).chip().wip {
                    old(self).chip()
                } else {
                    spec_disarm(old(self).chip())
                },
                Err(e) => (e matches Error::Spi(_)) && final(self).chip() == old(self).chip(),
            },
    {
        self.command(Command::DeepPowerDown)
    }

    /// Enters the secured-OTP region.  The OTP array is out of the
    /// model's scope; only the frame is sent.
    pub fn enter_secure_opt(&mut self) -> (r: Result<(), Error<T::Fault>>)
        requires
            old(self).inv(),
        ensures
            final(self).inv(),
            final(self).permission() == old(self).permission(),
            final(self).hist() == old(self).hist().push(seq![Command::EnterSecureOTP.spec_opcode()]),
            match r {
                Ok(()) => final(self).chip() == if old(self).chip().wip {
                    old(self).chip()
                } else {
                    spec_disarm(old(self).chip())
                },
                Err(e) => (e matches Error::Spi(_)) && final(self).chip() == old(self).chip(),
            },
    {
        self.command(Command::EnterSecureOTP)
    }

    /// Leaves the secured-OTP region.  The OTP array is out of the
    /// model's scope; only the frame is sent.
    pub fn exit_secure_opt(&mut self) -> (r: Result<(), Error<T::Fault>>)
        requires
            old(self).inv(),
        ensures
            final(self).inv(),
            final(self).permission() == old(self).permission(),
            final(self).hist() == old(self).hist().push(seq![Command::ExitSecureOTP.spec_opcode()]),
            match r {
                Ok(()) => final(self).chip() == if old(self).chip().wip {
                    old(self).chip()
                } else {
                    spec_disarm(old(self).chip())
                },
                Err(e) => (e matches Error::Spi(_)) && final(self).chip() == old(self).chip(),
            },
    {
        self.command(Command::ExitSecureOTP)
    }

    /// Sets the wrap-around burst length.  The modeled chip keeps its
    /// state; only the frame is sent.
    pub fn set_burst_length(&mut self, burst_length: u8) -> (r: Result<(), Error<T::Fault>>)
        requires
            old(self).inv(),
        ensures
            final(self).inv(),
            final(self).permission() == old(self).permission(),
            final(self).hist() == old(self).hist().push(
                seq![Command::SetBurstLength.spec_opcode(), burst_length],
            ),
            match r {
                Ok(()) => final(self).chip() == if old(self).chip().wip {
                    old(self).chip()
                } else {
                    spec_disarm(old(self).chip())
                },
                Err(e) => (e matches Error::Spi(_)) && final(self).chip() == old(self).chip(),
            },
    {
        let mut f = simple_frame(Command::SetBurstLength);
        f.push(burst_length);
        assert(f@ =~= seq![Command::SetBurstLength.spec_opcode(), burst_length]);
        proof {
            lemma_step_write_preserves(self.spi.chip(), f@);
        }
        match self.spi.transact_write(f.as_slice()) {
            Ok(()) => Ok(()),
            Err(e) => Err(Error::Spi(e)),
        }
    }

    /// No operation; in particular it disarms a pending reset-enable.
    pub fn nop(&mut self) -> (r: Result<(), Error<T::Fault>>)
        requires
            old(self).inv(),
        ensures
            final(self).inv(),
            final(self).permission() == old(self).permission(),
            final(self).hist() == old(self).hist().push(seq![Command::Nop.spec_opcode()]),
            match r {
                Ok(()) => final(self).chip() == if old(self).chip().wip {
                    old(self).chip()
                } else {
                    spec_disarm(old(self).chip())
                },
                Err(e) => (e matches Error::Spi(_)) && final(self).chip() == old(self).chip(),
            },
    {
        self.command(Command::Nop)
    }

    /// Arms the next reset command.
    pub fn reset_enable(&mut self) -> (r: Result<(), Error<T::Fault>>)
        requires
            old(self).inv(),
        ensures
            final(self).inv(),
            final(self).permission() == old(self).permission(),
            final(self).hist() == old(self).hist().push(seq![Command::ResetEnable.spec_opcode()]),
            match r {
                Ok(()) => final(self).chip() == if old(self).chip().wip {
                    old(self).chip()
                } else {
                    ChipState { reset_armed: true, ..old(self).chip() }
                },
                Err(e) => (e matches Error::Spi(_)) && final(self).chip() == old(self).chip(),
            },
    {
        self.command(Command::ResetEnable)
    }

    /// Resets the chip's volatile command state: arms and issues the
    /// reset command.  An idle chip ends with its write-enable latch
    /// clear; a busy one ignores the sequence.
    pub fn reset(&mut self) -> (r: Result<(), Error<T::Fault>>)
        requires
            old(self).inv(),
        ensures
            final(self).inv(),
            final(self).permission() == old(self).permission(),
            match r {
                Ok(()) => final(self).chip() == (if old(self).chip().wip {
                    old(self).chip()
                } else {
                    ChipState { wel: false, reset_armed: false, ..old(self).chip() }
                }) && final(self).hist() == old(self).hist()
                    .push(seq![Command::ResetEnable.spec_opcode()])
                    .push(seq![Command::ResetMemory.spec_opcode()]),
                Err(e) => e matches Error::Spi(_),
            },
    {
        match self.reset_enable() {
            Ok(()) => {}
            Err(e) => {
                return Err(e);
            }
        }
        self.command(Command::ResetMemory)
    }

    /// Write-enables the chip, sends one program frame carrying
    /// `data[start..start + n]` at `addr`, and waits for completion.
    fn program_at(&mut self, addr: u32, data: &[u8], start: usize, n: usize) -> (r: Result<
        (),
        Error<T::Fault>,
    >)
        requires
            old(self).inv(),
            start + n <= data@.len(),
            addr <= SIZE,
            addr as int + n <= SIZE as int + 1,
            addr % PAGE_SIZE + n <= PAGE_SIZE,
        ensures
            final(self).inv(),
            final(self).permission() == old(self).permission(),
            same_regs(final(self).chip(), old(self).chip()),
            match r {
                Ok(()) => final(self).chip() == (ChipState {
                    mem: mem_store(
                        old(self).chip().mem,
                        addr as int,
                        data@.subrange(start as int, start as int + n as int),
                    ),
                    wel: false,
                    wip: false,
                    reset_armed: false,
                    ..old(self).chip()
                }) && old(self).hist().is_prefix_of(final(self).hist())
                    && commands_sent(old(self).hist(), final(self).hist()) == seq![
                        we_frame(),
                        spec_program_frame(addr, data@.subrange(start as int, start as int + n as int)),
                    ],
                Err(e) => (e matches Error::Spi(_)) && (final(self).chip().mem == old(self).chip().mem
                    || final(self).chip().mem == mem_store(
                        old(self).chip().mem,
                        addr as int,
                        data@.subrange(start as int, start as int + n as int),
                    )),
            },
    {
        let ghost payload = data@.subrange(start as int, start as int + n as int);
        match self.prepare_write() {
            Ok(()) => {}
            Err(e) => {
                return Err(e);
            }
        }
        let mut f = addr_frame(Command::ProgramPage, addr);
        let ghost head = f@;
        let dlen = data.len();
        let mut k: usize = 0;
        while k < n
            invariant
                k <= n,
                start + n <= dlen,
                dlen == data@.len(),
                f@ == head + data@.subrange(start as int, start as int + k as int),
            decreases n - k,
        {
            f.push(data[start + k]);
            proof {
                assert(f@ =~= head + data@.subrange(start as int, start as int + k as int + 1));
            }
            k += 1;
        }
        proof {
            assert(f@.skip(4) =~= payload);
            assert(f@[0] == Command::ProgramPage.spec_opcode());
            assert(f@[1] == head[1] && f@[2] == head[2] && f@[3] == head[3]);
            assert(f@ =~= spec_program_frame(addr, payload));
            lemma_step_write_preserves(self.spi.chip(), f@);
        }
        let ghost prepared = self.hist();
        match self.spi.transact_write(f.as_slice()) {
            Ok(()) => {}
            Err(e) => {
                return Err(Error::Spi(e));
            }
        }
        proof {
            lemma_commands_sent_push(old(self).hist(), prepared, f@);
        }
        let ghost programmed = self.hist();
        match self.wait_wip() {
            Ok(()) => {}
            Err(e) => {
                return Err(e);
            }
        }
        proof {
            lemma_commands_sent_trans(old(self).hist(), programmed, self.hist());
            assert(commands_sent(old(self).hist(), self.hist())
                =~= seq![we_frame(), spec_program_frame(addr, payload)]);
        }
        Ok(())
    }

    /// Write-enables the chip, sends one erase frame of granularity
    /// `sz` at the aligned address `addr`, and waits for completion.
    fn erase_unit_at(&mut self, addr: u32, sz: u32) -> (r: Result<(), Error<T::Fault>>)
        requires
            old(self).inv(),
            sz == SECTOR_SIZE || sz == BLOCK32_SIZE || sz == BLOCK64_SIZE,
            addr % sz == 0,
            addr <= SIZE,
        ensures
            final(self).inv(),
            final(self).permission() == old(self).permission(),
            same_regs(final(self).chip(), old(self).chip()),
            match r {
                Ok(()) => final(self).chip() == (ChipState {
                    mem: mem_erase(old(self).chip().mem, addr as int, addr as int + sz as int),
                    wel: false,
                    wip: false,
                    reset_armed: false,
                    ..old(self).chip()
                }) && old(self).hist().is_prefix_of(final(self).hist())
                    && commands_sent(old(self).hist(), final(self).hist()) == seq![
                        we_frame(),
                        spec_erase_frame(addr, sz),
                    ],
                Err(e) => (e matches Error::Spi(_)) && (final(self).chip().mem == old(self).chip().mem
                    || final(self).chip().mem == mem_erase(
                        old(self).chip().mem,
                        addr as int,
                        addr as int + sz as int,
                    )),
            },
    {
        match self.prepare_write() {
            Ok(()) => {}
            Err(e) => {
                return Err(e);
            }
        }
        let cmd = if sz == BLOCK64_SIZE {
            Command::BlockErase
        } else if sz == BLOCK32_SIZE {
            Command::BlockErase32
        } else {
            Command::SectorErase
        };
        let f = addr_frame(cmd, addr);
        proof {
            assert(f@ == spec_erase_frame(addr, sz));
            lemma_step_write_preserves(self.spi.chip(), f@);
            crate::geometry::lemma_aligned_down(addr as int, sz as int);
        }
        let ghost prepared = self.hist();
        match self.spi.transact_write(f.as_slice()) {
            Ok(()) => {}
            Err(e) => {
                return Err(Error::Spi(e));
            }
        }
        proof {
            lemma_commands_sent_push(old(self).hist(), prepared, f@);
        }
        let ghost sent = self.hist();
        match self.wait_wip() {
            Ok(()) => {}
            Err(e) => {
                return Err(e);
            }
        }
        proof {
            lemma_commands_sent_trans(old(self).hist(), sent, self.hist());
            assert(commands_sent(old(self).hist(), self.hist())
                =~= seq![we_frame(), spec_erase_frame(addr, sz)]);
        }
        Ok(())
    }

    /// Programs `buff` at `addr` as one page-program command.  The
    /// payload must lie below the capacity and inside the page
    /// containing `addr`; a request crossing a page boundary is
    /// rejected, since the chip would corrupt it.  Needs the write
    /// permission and drops it.
    pub fn write_page(&mut self, addr: u32, buff: &[u8]) -> (r: Result<(), Error<T::Fault>>)
        requires
            old(self).inv(),
        ensures
            final(self).inv(),
            same_regs(final(self).chip(), old(self).chip()),
            match r {
                Ok(()) => {
                    &&& old(self).permission() is Enabled
                    &&& final(self).permission() is Disabled
                    &&& addr <= SIZE
                    &&& addr as int + buff@.len() <= SIZE as int + 1
                    &&& addr % PAGE_SIZE + buff@.len() <= PAGE_SIZE
                    &&& final(self).chip() == (ChipState {
                        mem: mem_store(old(self).chip().mem, addr as int, buff@),
                        wel: false,
                        wip: false,
                        reset_armed: false,
                        ..old(self).chip()
                    })
                    &&& old(self).hist().is_prefix_of(final(self).hist())
                    &&& commands_sent(old(self).hist(), final(self).hist()) == seq![
                        we_frame(),
                        spec_program_frame(addr, buff@),
                    ]
                },
                Err(e) => match e {
                    Error::OutOfBounds => (addr > SIZE
                        || addr as int + buff@.len() > SIZE as int + 1)
                        && final(self).chip() == old(self).chip()
                        && final(self).hist() == old(self).hist()
                        && final(self).permission() == old(self).permission(),
                    Error::NotAligned => addr <= SIZE
                        && addr as int + buff@.len() <= SIZE as int + 1
                        && addr % PAGE_SIZE + buff@.len() > PAGE_SIZE
                        && final(self).chip() == old(self).chip()
                        && final(self).hist() == old(self).hist()
                        && final(self).permission() == old(self).permission(),
                    Error::Permission => addr <= SIZE
                        && addr as int + buff@.len() <= SIZE as int + 1
                        && addr % PAGE_SIZE + buff@.len() <= PAGE_SIZE
                        && old(self).permission() is Disabled
                        && final(self).chip() == old(self).chip()
                        && final(self).hist() == old(self).hist()
                        && final(self).permission() == old(self).permission(),
                    Error::Spi(_) => addr <= SIZE
                        && addr as int + buff@.len() <= SIZE as int + 1
                        && addr % PAGE_SIZE + buff@.len() <= PAGE_SIZE
                        && old(self).permission() is Enabled
                        && final(self).permission() is Disabled,
                    _ => false,
                },
            },
    {
        if addr > SIZE {
            return Err(Error::OutOfBounds);
        }
        let capacity = self.capacity();
        match check_write(capacity, addr, buff.len()) {
            Ok(()) => {}
            Err(e) => {
                return Err(e);
            }
        }
        if (addr % PAGE_SIZE) as usize + buff.len() > PAGE_SIZE as usize {
            return Err(Error::NotAligned);
        }
        match self.permission {
            WritePermission::Enabled => {}
            WritePermission::Disabled => {
                return Err(Error::Permission);
            }
        }
        self.permission = WritePermission::Disabled;
        let n = buff.len();
        let r = self.program_at(addr, buff, 0, n);
        proof {
            assert(buff@.subrange(0, buff@.len() as int) =~= buff@);
        }
        r
    }

    /// Erases the 4 KiB sector starting at the sector-aligned `addr`.
    /// Needs the write permission and drops it.
    pub fn erase_sector(&mut self, addr: u32) -> (r: Result<(), Error<T::Fault>>)
        requires
            old(self).inv(),
        ensures
            final(self).inv(),
            same_regs(final(self).chip(), old(self).chip()),
            match r {
                Ok(()) => {
                    &&& old(self).permission() is Enabled
                    &&& final(self).permission() is Disabled
                    &&& addr % SECTOR_SIZE == 0 && addr <= SIZE
                    &&& final(self).chip() == (ChipState {
                        mem: mem_erase(
                            old(self).chip().mem,
                            addr as int,
                            addr as int + SECTOR_SIZE as int,
                        ),
                        wel: false,
                        wip: false,
                        reset_armed: false,
                        ..old(self).chip()
                    })
                    &&& old(self).hist().is_prefix_of(final(self).hist())
                    &&& commands_sent(old(self).hist(), final(self).hist()) == seq![
                        we_frame(),
                        spec_addr_frame(Command::SectorErase, addr),
                    ]
                },
                Err(e) => match e {
                    Error::NotAligned => addr % SECTOR_SIZE != 0
                        && final(self).chip() == old(self).chip()
                        && final(self).hist() == old(self).hist()
                        && final(self).permission() == old(self).permission(),
                    Error::OutOfBounds => addr % SECTOR_SIZE == 0 && addr > SIZE
                        && final(self).chip() == old(self).chip()
                        && final(self).hist() == old(self).hist()
                        && final(self).permission() == old(self).permission(),
                    Error::Permission => addr % SECTOR_SIZE == 0 && addr <= SIZE
                        && old(self).permission() is Disabled
                        && final(self).chip() == old(self).chip()
                        && final(self).hist() == old(self).hist()
                        && final(self).permission() == old(self).permission(),
                    Error::Spi(_) => addr % SECTOR_SIZE == 0 && addr <= SIZE
                        && old(self).permission() is Enabled
                        && final(self).permission() is Disabled,
                    _ => false,
                },
            },
    {
        if addr % SECTOR_SIZE != 0 {
            return Err(Error::NotAligned);
        }
        if addr > SIZE {
            return Err(Error::OutOfBounds);
        }
        match self.permission {
            WritePermission::Enabled => {}
            WritePermission::Disabled => {
                return Err(Error::Permission);
            }
        }
        self.permission = WritePermission::Disabled;
        self.erase_unit_at(addr, SECTOR_SIZE)
    }

    /// Erases the 32 KiB block starting at the block-aligned `addr`.
    /// Needs the write permission and drops it.
    pub fn erase_block32(&mut self, addr: u32) -> (r: Result<(), Error<T::Fault>>)
        requires
            old(self).inv(),
        ensures
            final(self).inv(),
            same_regs(final(self).chip(), old(self).chip()),
            match r {
                Ok(()) => {
                    &&& old(self).permission() is Enabled
                    &&& final(self).permission() is Disabled
                    &&& addr % BLOCK32_SIZE == 0 && addr <= SIZE
                    &&& final(self).chip() == (ChipState {
                        mem: mem_erase(
                            old(self).chip().mem,
                            addr as int,
                            addr as int + BLOCK32_SIZE as int,
                        ),
                        wel: false,
                        wip: false,
                        reset_armed: false,
                        ..old(self).chip()
                    })
                    &&& old(self).hist().is_prefix_of(final(self).hist())
                    &&& commands_sent(old(self).hist(), final(self).hist()) == seq![
                        we_frame(),
                        spec_addr_frame(Command::BlockErase32, addr),
                    ]
                },
                Err(e) => match e {
                    Error::NotAligned => addr % BLOCK32_SIZE != 0
                        && final(self).chip() == old(self).chip()
                        && final(self).hist() == old(self).hist()
                        && final(self).permission() == old(self).permission(),
                    Error::OutOfBounds => addr % BLOCK32_SIZE == 0 && addr > SIZE
                        && final(self).chip() == old(self).chip()
                        && final(self).hist() == old(self).hist()
                        && final(self).permission() == old(self).permission(),
                    Error::Permission => addr % BLOCK32_SIZE == 0 && addr <= SIZE
                        && old(self).permission() is Disabled
                        && final(self).chip() == old(self).chip()
                        && final(self).hist() == old(self).hist()
                        && final(self).permission() == old(self).permission(),
                    Error::Spi(_) => addr % BLOCK32_SIZE == 0 && addr <= SIZE
                        && old(self).permission() is Enabled
                        && final(self).permission() is Disabled,
                    _ => false,
                },
            },
    {
        if addr % BLOCK32_SIZE != 0 {
            return Err(Error::NotAligned);
        }
        if addr > SIZE {
            return Err(Error::OutOfBounds);
        }
        match self.permission {
            WritePermission::Enabled => {}
            WritePermission::Disabled => {
                return Err(Error::Permission);
            }
        }
        self.permission = WritePermission::Disabled;
        self.erase_unit_at(addr, BLOCK32_SIZE)
    }

    /// Erases the 64 KiB block starting at the block-aligned `addr`.
    /// Needs the write permission and drops it.
    pub fn erase_block64(&mut self, addr: u32) -> (r: Result<(), Error<T::Fault>>)
        requires
            old(self).inv(),
        ensures
            final(self).inv(),
            same_regs(final(self).chip(), old(self).chip()),
            match r {
                Ok(()) => {
                    &&& old(self).permission() is Enabled
                    &&& final(self).permission() is Disabled
                    &&& addr % BLOCK64_SIZE == 0 && addr <= SIZE
                    &&& final(self).chip() == (ChipState {
                        mem: mem_erase(
                            old(self).chip().mem,
                            addr as int,
                            addr as int + BLOCK64_SIZE as int,
                        ),
                        wel: false,
                        wip: false,
                        reset_armed: false,
                        ..old(self).chip()
                    })
                    &&& old(self).hist().is_prefix_of(final(self).hist())
                    &&& commands_sent(old(self).hist(), final(self).hist()) == seq![
                        we_frame(),
                        spec_addr_frame(Command::BlockErase, addr),
                    ]
                },
                Err(e) => match e {
                    Error::NotAligned => addr % BLOCK64_SIZE != 0
                        && final(self).chip() == old(self).chip()
                        && final(self).hist() == old(self).hist()
                        && final(self).permission() == old(self).permission(),
                    Error::OutOfBounds => addr % BLOCK64_SIZE == 0 && addr > SIZE
                        && final(self).chip() == old(self).chip()
                        && final(self).hist() == old(self).hist()
                        && final(self).permission() == old(self).permission(),
                    Error::Permission => addr % BLOCK64_SIZE == 0 && addr <= SIZE
                        && old(self).permission() is Disabled
                        && final(self).chip() == old(self).chip()
                        && final(self).hist() == old(self).hist()
                        && final(self).permission() == old(self).permission(),
                    Error::Spi(_) => addr % BLOCK64_SIZE == 0 && addr <= SIZE
                        && old(self).permission() is Enabled
                        && final(self).permission() is Disabled,
                    _ => false,
                },
            },
    {
        if addr % BLOCK64_SIZE != 0 {
            return Err(Error::NotAligned);
        }
        if addr > SIZE {
            return Err(Error::OutOfBounds);
        }
        match self.permission {
            WritePermission::Enabled => {}
            WritePermission::Disabled => {
                return Err(Error::Permission);
            }
        }
        self.permission = WritePermission::Disabled;
        self.erase_unit_at(addr, BLOCK64_SIZE)
    }

    /// Erases the whole array.  Needs the write permission and drops
    /// it.
    pub fn erase_chip(&mut self) -> (r: Result<(), Error<T::Fault>>)
        requires
            old(self).inv(),
        ensures
            final(self).inv(),
            same_regs(final(self).chip(), old(self).chip()),
            match r {
                Ok(()) => {
                    &&& old(self).permission() is Enabled
                    &&& final(self).permission() is Disabled
                    &&& final(self).chip() == (ChipState {
                        mem: erased_mem((SIZE as int + 1) as nat),
                        wel: false,
                        wip: false,
                        reset_armed: false,
                        ..old(self).chip()
                    })
                    &&& old(self).hist().is_prefix_of(final(self).hist())
                    &&& commands_sent(old(self).hist(), final(self).hist()) == seq![
                        we_frame(),
                        seq![Command::ChipErase.spec_opcode()],
                    ]
                },
                Err(e) => match e {
                    Error::Permission => old(self).permission() is Disabled
                        && final(self).chip() == old(self).chip()
                        && final(self).hist() == old(self).hist()
                        && final(self).permission() == old(self).permission(),
                    Error::Spi(_) => old(self).permission() is Enabled
                        && final(self).permission() is Disabled,
                    _ => false,
                },
            },
    {
        match self.permission {
            WritePermission::Enabled => {}
            WritePermission::Disabled => {
                return Err(Error::Permission);
            }
        }
        self.permission = WritePermission::Disabled;
        match self.prepare_write() {
            Ok(()) => {}
            Err(e) => {
                return Err(e);
            }
        }
        let ghost prepared = self.hist();
        match self.command(Command::ChipErase) {
            Ok(()) => {}
            Err(e) => {
                return Err(e);
            }
        }
        proof {
            lemma_commands_sent_push(old(self).hist(), prepared, seq![Command::ChipErase.spec_opcode()]);
        }
        let ghost sent = self.hist();
        let r = self.wait_wip();
        proof {
            lemma_commands_sent_trans(old(self).hist(), sent, self.hist());
            assert(commands_sent(old(self).hist(), self.hist())
                =~= seq![we_frame(), seq![Command::ChipErase.spec_opcode()]]);
        }
        r
    }

    /// Writes the status and configuration registers from the given
    /// fields.  A protected-block index above `0x0F` is rejected as a
    /// value error.  Needs the write permission and drops it.
    pub fn write_configuration(
        &mut self,
        block_protected: u8,
        quad_enable: bool,
        status_write_disable: bool,
        dummy_cycle: bool,
        protected_section: ProtectedArea,
        power_mode: PowerMode,
    ) -> (r: Result<(), Error<T::Fault>>)
        requires
            old(self).inv(),
        ensures
            final(self).inv(),
            match r {
                Ok(()) => {
                    &&& block_protected <= 0x0F
                    &&& old(self).permission() is Enabled
                    &&& final(self).permission() is Disabled
                    &&& final(self).chip() == (ChipState {
                        protected_block: block_protected,
                        quad_enable: quad_enable,
                        status_write_disable: status_write_disable,
                        dummy_cycle: dummy_cycle,
                        protected_area: protected_section,
                        power_mode: power_mode,
                        wel: false,
                        wip: false,
                        reset_armed: false,
                        ..old(self).chip()
                    })
                    &&& old(self).hist().is_prefix_of(final(self).hist())
                    &&& commands_sent(old(self).hist(), final(self).hist()) == seq![
                        we_frame(),
                        seq![
                            Command::WriteStatus.spec_opcode(),
                            spec_encode_status(StatusRegister {
                                write_protect_disable: status_write_disable,
                                quad_enable: quad_enable,
                                protected_block: block_protected,
                                write_enable_latch: false,
                                wip_bit: false,
                            }),
                            spec_encode_configuration1(protected_section, dummy_cycle),
                            spec_encode_configuration2(power_mode),
                        ],
                    ]
                },
                Err(e) => match e {
                    Error::Value => block_protected > 0x0F
                        && final(self).chip() == old(self).chip()
                        && final(self).hist() == old(self).hist()
                        && final(self).permission() == old(self).permission(),
                    Error::Permission => block_protected <= 0x0F
                        && old(self).permission() is Disabled
                        && final(self).chip() == old(self).chip()
                        && final(self).hist() == old(self).hist()
                        && final(self).permission() == old(self).permission(),
                    Error::Spi(_) => block_protected <= 0x0F
                        && old(self).permission() is Enabled
                        && final(self).permission() is Disabled,
                    _ => false,
                },
            },
    {
        if block_protected > 0x0F {
            return Err(Error::Value);
        }
        match self.permission {
            WritePermission::Enabled => {}
            WritePermission::Disabled => {
                return Err(Error::Permission);
            }
        }
        self.permission = WritePermission::Disabled;
        match self.prepare_write() {
            Ok(()) => {}
            Err(e) => {
                return Err(e);
            }
        }
        let b1 = encode_status(StatusRegister {
            write_protect_disable: status_write_disable,
            quad_enable: quad_enable,
            protected_block: block_protected,
            write_enable_latch: false,
            wip_bit: false,
        });
        let b2 = encode_configuration1(protected_section, dummy_cycle);
        let b3 = encode_configuration2(power_mode);
        let mut f = simple_frame(Command::WriteStatus);
        f.push(b1);
        f.push(b2);
        f.push(b3);
        proof {
            assert(f@ =~= seq![Command::WriteStatus.spec_opcode(), b1, b2, b3]);
            lemma_status_decode_encode(StatusRegister {
                write_protect_disable: status_write_disable,
                quad_enable: quad_enable,
                protected_block: block_protected,
                write_enable_latch: false,
                wip_bit: false,
            });
            lemma_configuration_decode_encode(protected_section, dummy_cycle, power_mode);
            lemma_step_write_preserves(self.spi.chip(), f@);
        }
        let ghost prepared = self.hist();
        match self.spi.transact_write(f.as_slice()) {
            Ok(()) => {}
            Err(e) => {
                return Err(Error::Spi(e));
            }
        }
        proof {
            lemma_commands_sent_push(old(self).hist(), prepared, f@);
        }
        let ghost sent = self.hist();
        let r = self.wait_wip();
        proof {
            lemma_commands_sent_trans(old(self).hist(), sent, self.hist());
            assert(commands_sent(old(self).hist(), self.hist())
                =~= seq![we_frame(), f@]);
        }
        r
    }

    /// Locks the security register down; this is not reversible on
    /// real hardware.  Needs the write permission and drops it.
    pub fn write_security_register(&mut self) -> (r: Result<(), Error<T::Fault>>)
        requires
            old(self).inv(),
        ensures
            final(self).inv(),
            match r {
                Ok(()) => {
                    &&& old(self).permission() is Enabled
                    &&& final(self).permission() is Disabled
                    &&& final(self).chip() == (ChipState {
                        locked_down: true,
                        wel: false,
                        wip: false,
                        reset_armed: false,
                        ..old(self).chip()
                    })
                    &&& old(self).hist().is_prefix_of(final(self).hist())
                    &&& commands_sent(old(self).hist(), final(self).hist()) == seq![
                        we_frame(),
                        seq![Command::WriteSecurityRegister.spec_opcode()],
                    ]
                },
                Err(e) => match e {
                    Error::Permission => old(self).permission() is Disabled
                        && final(self).chip() == old(self).chip()
                        && final(self).hist() == old(self).hist()
                        && final(self).permission() == old(self).permission(),
                    Error::Spi(_) => old(self).permission() is Enabled
                        && final(self).permission() is Disabled,
                    _ => false,
                },
            },
    {
        match self.permission {
            WritePermission::Enabled => {}
            WritePermission::Disabled => {
                return Err(Error::Permission);
            }
        }
        self.permission = WritePermission::Disabled;
        match self.prepare_write() {
            Ok(()) => {}
            Err(e) => {
                return Err(e);
            }
        }
        let ghost prepared = self.hist();
        match self.command(Command::WriteSecurityRegister) {
            Ok(()) => {}
            Err(e) => {
                return Err(e);
            }
        }
        proof {
            lemma_commands_sent_push(
                old(self).hist(),
                prepared,
                seq![Command::WriteSecurityRegister.spec_opcode()],
            );
        }
        let ghost sent = self.hist();
        let r = self.wait_wip();
        proof {
            lemma_commands_sent_trans(old(self).hist(), sent, self.hist());
            assert(commands_sent(old(self).hist(), self.hist())
                =~= seq![we_frame(), seq![Command::WriteSecurityRegister.spec_opcode()]]);
        }
        r
    }

    /// Writes `bytes` starting at `offset`, splitting the request into
    /// program commands that each stay inside one 256-byte page, with
    /// the write-enable handshake before each and a busy-wait after
    /// each.  A range beyond the capacity is rejected before any frame
    /// is sent; a zero-length write succeeds without sending any.
    /// Needs the write permission and drops it.
    pub fn write(&mut self, offset: u32, bytes: &[u8]) -> (r: Result<(), Error<T::Fault>>)
        requires
            old(self).inv(),
        ensures
            final(self).inv(),
            same_regs(final(self).chip(), old(self).chip()),
            match r {
                Ok(()) => {
                    &&& old(self).permission() is Enabled
                    &&& final(self).permission() is Disabled
                    &&& offset as int + bytes@.len() <= SIZE as int + 1
                    &&& final(self).chip().mem == mem_store(
                        old(self).chip().mem,
                        offset as int,
                        bytes@,
                    )
                    &&& bytes@.len() > 0 ==> final(self).chip() == (ChipState {
                        mem: mem_store(old(self).chip().mem, offset as int, bytes@),
                        wel: false,
                        wip: false,
                        reset_armed: false,
                        ..old(self).chip()
                    })
                    &&& bytes@.len() == 0 ==> final(self).chip() == old(self).chip()
                        && final(self).hist() == old(self).hist()
                    &&& old(self).hist().is_prefix_of(final(self).hist())
                    &&& commands_sent(old(self).hist(), final(self).hist())
                        == spec_write_frames(offset, bytes@)
                },
                Err(e) => match e {
                    Error::OutOfBounds => offset as int + bytes@.len() > SIZE as int + 1
                        && final(self).chip() == old(self).chip()
                        && final(self).hist() == old(self).hist()
                        && final(self).permission() == old(self).permission(),
                    Error::Permission => offset as int + bytes@.len() <= SIZE as int + 1
                        && old(self).permission() is Disabled
                        && final(self).chip() == old(self).chip()
                        && final(self).hist() == old(self).hist()
                        && final(self).permission() == old(self).permission(),
                    Error::Spi(_) => offset as int + bytes@.len() <= SIZE as int + 1
                        && bytes@.len() > 0
                        && old(self).permission() is Enabled
                        && final(self).permission() is Disabled
                        && exists|k: int|
                            0 <= k <= bytes@.len() && final(self).chip().mem == mem_store(
                                old(self).chip().mem,
                                offset as int,
                                #[trigger] bytes@.take(k),
                            ),
                    _ => false,
                },
            },
    {
        let capacity = self.capacity();
        match check_write(capacity, offset, bytes.len()) {
            Ok(()) => {}
            Err(e) => {
                return Err(e);
            }
        }
        match self.permission {
            WritePermission::Enabled => {}
            WritePermission::Disabled => {
                return Err(Error::Permission);
            }
        }
        self.permission = WritePermission::Disabled;
        if bytes.len() == 0 {
            proof {
                assert(mem_store(self.spi.chip().mem, offset as int, bytes@) =~= self.spi.chip().mem);
                lemma_commands_sent_none(self.hist());
            }
            return Ok(());
        }
        match self.wait_wip() {
            Ok(()) => {}
            Err(e) => {
                proof {
                    assert(mem_store(old(self).chip().mem, offset as int, bytes@.take(0))
                        =~= old(self).chip().mem);
                }
                return Err(e);
            }
        }
        proof {
            assert(bytes@.skip(0) =~= bytes@);
            assert(Seq::<Seq<u8>>::empty() + spec_write_frames(offset, bytes@)
                =~= spec_write_frames(offset, bytes@));
        }
        let mut i: usize = 0;
        let mut cur: u32 = offset;
        while i < bytes.len()
            invariant
                self.inv(),
                old(self).permission() is Enabled,
                self.permission() is Disabled,
                same_regs(self.chip(), old(self).chip()),
                offset as int + bytes@.len() <= SIZE as int + 1,
                i <= bytes@.len(),
                cur == offset as int + i,
                !self.chip().wip,
                self.chip().mem == mem_store(old(self).chip().mem, offset as int, bytes@.take(i as int)),
                i > 0 ==> !self.chip().wel && !self.chip().reset_armed,
                old(self).hist().is_prefix_of(self.hist()),
                commands_sent(old(self).hist(), self.hist())
                    + spec_write_frames(cur, bytes@.skip(i as int))
                    == spec_write_frames(offset, bytes@),
            decreases bytes@.len() - i,
        {
            let n = page_chunk_len(cur, bytes.len() - i);
            let ghost pre = self.chip().mem;
            let ghost before_chunk = self.hist();
            match self.program_at(cur, bytes, i, n) {
                Ok(()) => {}
                Err(e) => {
                    proof {
                        lemma_store_append(
                            old(self).chip().mem,
                            offset as int,
                            bytes@.take(i as int),
                            bytes@.subrange(i as int, i as int + n as int),
                        );
                        assert(bytes@.take(i as int)
                            + bytes@.subrange(i as int, i as int + n as int)
                            =~= bytes@.take(i as int + n as int));
                        if self.chip().mem == pre {
                            assert(self.chip().mem == mem_store(
                                old(self).chip().mem,
                                offset as int,
                                bytes@.take(i as int),
                            ));
                        } else {
                            assert(self.chip().mem == mem_store(
                                old(self).chip().mem,
                                offset as int,
                                bytes@.take(i as int + n as int),
                            ));
                        }
                    }
                    return Err(e);
                }
            }
            proof {
                lemma_store_append(
                    old(self).chip().mem,
                    offset as int,
                    bytes@.take(i as int),
                    bytes@.subrange(i as int, i as int + n as int),
                );
                assert(bytes@.take(i as int) + bytes@.subrange(i as int, i as int + n as int)
                    =~= bytes@.take(i as int + n as int));
                lemma_commands_sent_trans(old(self).hist(), before_chunk, self.hist());
                let chunk = bytes@.subrange(i as int, i as int + n as int);
                assert(bytes@.skip(i as int).take(n as int) =~= chunk);
                assert(bytes@.skip(i as int).skip(n as int) =~= bytes@.skip(i as int + n as int));
                assert(spec_write_frames(cur, bytes@.skip(i as int))
                    == seq![we_frame(), spec_program_frame(cur, chunk)]
                        + spec_write_frames((cur + n) as u32, bytes@.skip(i as int + n as int)));
                assert((commands_sent(old(self).hist(), before_chunk)
                        + seq![we_frame(), spec_program_frame(cur, chunk)])
                    + spec_write_frames((cur + n) as u32, bytes@.skip(i as int + n as int))
                    =~= commands_sent(old(self).hist(), before_chunk)
                        + (seq![we_frame(), spec_program_frame(cur, chunk)]
                            + spec_write_frames((cur + n) as u32, bytes@.skip(i as int + n as int))));
            }
            i += n;
            cur = cur + n as u32;
        }
        proof {
            assert(bytes@.take(bytes@.len() as int) =~= bytes@);
            assert(bytes@.skip(i as int) =~= Seq::<u8>::empty());
            assert(spec_write_frames(cur, bytes@.skip(i as int)) =~= Seq::<Seq<u8>>::empty());
            assert(commands_sent(old(self).hist(), self.hist()) + Seq::<Seq<u8>>::empty()
                =~= commands_sent(old(self).hist(), self.hist()));
        }
        Ok(())
    }

    /// Erases the byte range `[from, to)`, both bounds sector-aligned,
    /// by repeatedly erasing the largest aligned unit that fits, with
    /// the write-enable handshake before each erase and a busy-wait
    /// after each.  A reversed or out-of-range request is rejected as
    /// out of bounds and a misaligned one as not aligned, in that
    /// order, before any frame is sent; an empty range succeeds
    /// without sending any.  Needs the write permission and drops it.
    pub fn erase(&mut self, from: u32, to: u32) -> (r: Result<(), Error<T::Fault>>)
        requires
            old(self).inv(),
        ensures
            final(self).inv(),
            same_regs(final(self).chip(), old(self).chip()),
            match r {
                Ok(()) => {
                    &&& old(self).permission() is Enabled
                    &&& final(self).permission() is Disabled
                    &&& from <= to && to as int <= SIZE as int + 1
                    &&& from % SECTOR_SIZE == 0 && to % SECTOR_SIZE == 0
                    &&& final(self).chip().mem == mem_erase(
                        old(self).chip().mem,
                        from as int,
                        to as int,
                    )
                    &&& from < to ==> final(self).chip() == (ChipState {
                        mem: mem_erase(old(self).chip().mem, from as int, to as int),
                        wel: false,
                        wip: false,
                        reset_armed: false,
                        ..old(self).chip()
                    })
                    &&& from == to ==> final(self).chip() == old(self).chip()
                        && final(self).hist() == old(self).hist()
                    &&& old(self).hist().is_prefix_of(final(self).hist())
                    &&& commands_sent(old(self).hist(), final(self).hist())
                        == spec_erase_seq(from, to)
                },
                Err(e) => match e {
                    Error::OutOfBounds => (from > to || to as int > SIZE as int + 1)
                        && final(self).chip() == old(self).chip()
                        && final(self).hist() == old(self).hist()
                        && final(self).permission() == old(self).permission(),
                    Error::NotAligned => from <= to && to as int <= SIZE as int + 1
                        && (from % SECTOR_SIZE != 0 || to % SECTOR_SIZE != 0)
                        && final(self).chip() == old(self).chip()
                        && final(self).hist() == old(self).hist()
                        && final(self).permission() == old(self).permission(),
                    Error::Permission => from <= to && to as int <= SIZE as int + 1
                        && from % SECTOR_SIZE == 0 && to % SECTOR_SIZE == 0
                        && old(self).permission() is Disabled
                        && final(self).chip() == old(self).chip()
                        && final(self).hist() == old(self).hist()
                        && final(self).permission() == old(self).permission(),
                    Error::Spi(_) => from < to && to as int <= SIZE as int + 1
                        && from % SECTOR_SIZE == 0 && to % SECTOR_SIZE == 0
                        && old(self).permission() is Enabled
                        && final(self).permission() is Disabled
                        && exists|k: int|
                            from <= k <= to && final(self).chip().mem == #[trigger] mem_erase(
                                old(self).chip().mem,
                                from as int,
                                k,
                            ),
                    _ => false,
                },
            },
    {
        let capacity = self.capacity();
        match check_erase(capacity, from, to) {
            Ok(()) => {}
            Err(e) => {
                return Err(e);
            }
        }
        match self.permission {
            WritePermission::Enabled => {}
            WritePermission::Disabled => {
                return Err(Error::Permission);
            }
        }
        self.permission = WritePermission::Disabled;
        if from == to {
            proof {
                lemma_commands_sent_none(self.hist());
            }
            return Ok(());
        }
        match self.wait_wip() {
            Ok(()) => {}
            Err(e) => {
                proof {
                    assert(mem_erase(old(self).chip().mem, from as int, from as int)
                        =~= old(self).chip().mem);
                }
                return Err(e);
            }
        }
        proof {
            assert(Seq::<Seq<u8>>::empty() + spec_erase_seq(from, to)
                =~= spec_erase_seq(from, to));
        }
        let mut cur: u32 = from;
        while cur < to
            invariant
                self.inv(),
                old(self).permission() is Enabled,
                self.permission() is Disabled,
                same_regs(self.chip(), old(self).chip()),
                from <= cur <= to,
                to as int <= SIZE as int + 1,
                from % SECTOR_SIZE == 0,
                cur % SECTOR_SIZE == 0,
                to % SECTOR_SIZE == 0,
                !self.chip().wip,
                self.chip().mem == mem_erase(old(self).chip().mem, from as int, cur as int),
                cur > from ==> !self.chip().wel && !self.chip().reset_armed,
                old(self).hist().is_prefix_of(self.hist()),
                commands_sent(old(self).hist(), self.hist()) + spec_erase_seq(cur, to)
                    == spec_erase_seq(from, to),
            decreases to - cur,
        {
            let sz = largest_erase_unit(cur, to);
            let ghost pre = self.chip().mem;
            let ghost before_unit = self.hist();
            match self.erase_unit_at(cur, sz) {
                Ok(()) => {}
                Err(e) => {
                    proof {
                        lemma_erase_append(
                            old(self).chip().mem,
                            from as int,
                            cur as int,
                            cur as int + sz as int,
                        );
                        if self.chip().mem == pre {
                            assert(self.chip().mem == mem_erase(
                                old(self).chip().mem,
                                from as int,
                                cur as int,
                            ));
                        } else {
                            assert(self.chip().mem == mem_erase(
                                old(self).chip().mem,
                                from as int,
                                cur as int + sz as int,
                            ));
                        }
                    }
                    return Err(e);
                }
            }
            proof {
                lemma_erase_append(
                    old(self).chip().mem,
                    from as int,
                    cur as int,
                    cur as int + sz as int,
                );
                lemma_add_mod_noop(cur as int, sz as int, SECTOR_SIZE as int);
                lemma_commands_sent_trans(old(self).hist(), before_unit, self.hist());
                assert(sz == spec_erase_unit(cur, to));
                assert(spec_erase_seq(cur, to)
                    == seq![we_frame(), spec_erase_frame(cur, sz)]
                        + spec_erase_seq((cur + sz) as u32, to));
                assert((commands_sent(old(self).hist(), before_unit)
                        + seq![we_frame(), spec_erase_frame(cur, sz)])
                    + spec_erase_seq((cur + sz) as u32, to)
                    =~= commands_sent(old(self).hist(), before_unit)
                        + (seq![we_frame(), spec_erase_frame(cur, sz)]
                            + spec_erase_seq((cur + sz) as u32, to)));
            }
            cur = cur + sz;
        }
        proof {
            assert(spec_erase_seq(cur, to) =~= Seq::<Seq<u8>>::empty());
            assert(commands_sent(old(self).hist(), self.hist()) + Seq::<Seq<u8>>::empty()
                =~= commands_sent(old(self).hist(), self.hist()));
        }
        Ok(())
    }
}

} // verus!
