//! Driver core for the Macronix MX25R serial NOR-flash family.
//!
//! The chip exposes a byte-addressable array through a narrow command
//! protocol: one opcode byte, an optional 3-byte big-endian address, an
//! optional dummy byte, and payload bytes, all framed over a serial
//! transport.  This crate verifies the geometry-and-protocol translation
//! layer: address arithmetic, register bit codecs, command framing, the
//! write-enable/busy handshake, and the engines that split arbitrary
//! write and erase requests into the chip's fixed-granularity operations.
//!
//! The transport itself (a SPI bus with a chip-select line) is an
//! external collaborator.  It is abstracted by [`transport::Transport`],
//! whose contract interprets every frame against the chip model in
//! [`chip`]; [`sim::SimTransport`] is a verified in-memory chip used to
//! exercise the driver.

pub mod blocking;
pub mod chip;
pub mod command;
pub mod error;
pub mod geometry;
pub mod register;
pub mod sim;
pub mod transport;

use vstd::prelude::*;

use crate::error::Error;

verus! {

/// Size in bytes of a 64 KiB erase block.
pub const BLOCK64_SIZE: u32 = 0x010000;

/// Size in bytes of a 32 KiB erase block.
pub const BLOCK32_SIZE: u32 = 0x8000;

/// Size in bytes of a 4 KiB erase sector, the smallest erase unit.
pub const SECTOR_SIZE: u32 = 0x1000;

/// Size in bytes of a program page, the largest single program unit.
pub const PAGE_SIZE: u32 = 0x100;

/// Validates an erase range `[from, to)` against a chip capacity.
///
/// The range is rejected as `OutOfBounds` when it is reversed or ends
/// beyond the capacity, and as `NotAligned` when either bound is not a
/// multiple of the sector size.  Exactly one of the three outcomes holds.
pub fn check_erase<E>(capacity: usize, from: u32, to: u32) -> (r: Result<(), Error<E>>)
    ensures
        r == Ok::<(), Error<E>>(()) <==> (from <= to && to as int <= capacity as int
            && from % SECTOR_SIZE == 0 && to % SECTOR_SIZE == 0),
        r == Err::<(), Error<E>>(Error::OutOfBounds) <==> (from > to || to as int > capacity as int),
        r == Err::<(), Error<E>>(Error::NotAligned) <==> (from <= to && to as int <= capacity as int
            && (from % SECTOR_SIZE != 0 || to % SECTOR_SIZE != 0)),
{
    if from > to || to as usize > capacity {
        return Err(Error::OutOfBounds);
    }
    if from % SECTOR_SIZE != 0 || to % SECTOR_SIZE != 0 {
        return Err(Error::NotAligned);
    }
    Ok(())
}

/// Validates a write of `length` bytes at `offset` against a chip capacity.
///
/// The write is rejected as `OutOfBounds` exactly when its end offset
/// lies beyond the capacity.
pub fn check_write<E>(capacity: usize, offset: u32, length: usize) -> (r: Result<(), Error<E>>)
    ensures
        r == Ok::<(), Error<E>>(()) <==> offset as int + length as int <= capacity as int,
        r == Err::<(), Error<E>>(Error::OutOfBounds) <==> offset as int + length as int > capacity as int,
{
    if length > capacity || offset as usize > capacity - length {
        return Err(Error::OutOfBounds);
    }
    Ok(())
}

} // verus!
