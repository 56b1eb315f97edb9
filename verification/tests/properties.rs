//! Scenario tests for the library's headline guarantees.

use mx25r::blocking::{MX25R, MX25R512F, MX25R1035F, MX25R1635F, MX25R2035F, MX25R3235F,
    MX25R4035F, MX25R6435F, MX25R8035F};
use mx25r::error::Error;
use mx25r::sim::SimTransport;

type Chip16K = MX25R<0x3FFF, SimTransport>;

fn chip_16k() -> Chip16K {
    MX25R::new(SimTransport::new(0x4000))
}

/// A written byte reads back after the write's busy-wait, at several
/// offsets across the array.
#[test]
fn write_then_read_returns_value() {
    for &offset in &[0u32, 1, 255, 256, 4095, 4096, 0x3FFF] {
        let mut memory = chip_16k();
        memory.write_enable().unwrap();
        memory.write(offset, &[0x5A]).unwrap();
        let buf = memory.read(offset, 1).unwrap();
        assert_eq!(buf[0], 0x5A, "offset {}", offset);
    }
}

/// After erasing one sector, all 4096 bytes read back as the erased
/// value.
#[test]
fn erase_sector_reads_all_erased() {
    let mut memory = chip_16k();
    memory.write_enable().unwrap();
    memory.write(4096, &[0u8; 64]).unwrap();

    memory.write_enable().unwrap();
    memory.erase(4096, 8192).unwrap();

    let buf = memory.read(4096, 4096).unwrap();
    assert_eq!(buf.len(), 4096);
    assert!(buf.iter().all(|&b| b == 0xFF));
}

/// Erasing an already-erased range succeeds and changes nothing.
#[test]
fn erase_is_idempotent() {
    let mut memory = chip_16k();
    memory.write_enable().unwrap();
    memory.write(0, &[0xAB, 0xCD]).unwrap();

    memory.write_enable().unwrap();
    memory.erase(4096, 8192).unwrap();
    let before = memory.read(0, 0x4000).unwrap();

    memory.write_enable().unwrap();
    memory.erase(4096, 8192).unwrap();
    let after = memory.read(0, 0x4000).unwrap();

    assert_eq!(before, after);
}

/// A write spanning a page boundary is split into exactly two program
/// commands and still reads back as one contiguous sequence.
#[test]
fn write_across_page_boundary_splits_in_two() {
    let mut memory = chip_16k();
    let mut data = [0u8; 20];
    for (i, e) in data.iter_mut().enumerate() {
        *e = i as u8 + 1;
    }
    memory.write_enable().unwrap();
    memory.write(250, &data).unwrap();

    let buf = memory.read(250, 20).unwrap();
    assert_eq!(&buf[..], &data[..]);

    let t = memory.release();
    assert_eq!(t.program_count(), 2);
}

/// An erase range that is not sector-aligned is rejected as not
/// aligned, before any command reaches the chip.
#[test]
fn unaligned_erase_is_rejected() {
    let mut memory = chip_16k();
    memory.write_enable().unwrap();
    let res = memory.erase(2048, 8192);
    assert!(matches!(res, Err(Error::NotAligned)));
    let t = memory.release();
    // Only the permission handshake (a poll and a write-enable frame)
    // reached the chip; the rejected erase sent nothing.
    assert_eq!(t.txn_count(), 2);
}

/// A read or write whose last byte would lie beyond the capacity is
/// rejected as out of bounds and sends no command.
#[test]
fn out_of_bounds_sends_no_command() {
    let mut memory = chip_16k();
    assert!(matches!(memory.read(0x3FFF, 2), Err(Error::OutOfBounds)));
    assert!(matches!(memory.read(0x10000, 1), Err(Error::OutOfBounds)));
    let t = memory.release();
    assert_eq!(t.txn_count(), 0);

    let mut memory = chip_16k();
    memory.write_enable().unwrap();
    assert!(matches!(memory.write(0x3FFE, &[1, 2, 3]), Err(Error::OutOfBounds)));
    assert!(matches!(memory.erase(0, 0x5000), Err(Error::OutOfBounds)));
    assert!(matches!(memory.erase(0x2000, 0x1000), Err(Error::OutOfBounds)));
    let t = memory.release();
    // Only the permission handshake reached the chip.
    assert_eq!(t.txn_count(), 2);
}

/// Each chip variant reports its documented capacity.
#[test]
fn variant_capacities() {
    let m: MX25R512F<SimTransport> = MX25R::new(SimTransport::new(64 * 1024));
    assert_eq!(m.capacity(), 64 * 1024);
    let m: MX25R1035F<SimTransport> = MX25R::new(SimTransport::new(128 * 1024));
    assert_eq!(m.capacity(), 128 * 1024);
    let m: MX25R2035F<SimTransport> = MX25R::new(SimTransport::new(256 * 1024));
    assert_eq!(m.capacity(), 256 * 1024);
    let m: MX25R4035F<SimTransport> = MX25R::new(SimTransport::new(512 * 1024));
    assert_eq!(m.capacity(), 512 * 1024);
    let m: MX25R8035F<SimTransport> = MX25R::new(SimTransport::new(1024 * 1024));
    assert_eq!(m.capacity(), 1024 * 1024);
    let m: MX25R1635F<SimTransport> = MX25R::new(SimTransport::new(2 * 1024 * 1024));
    assert_eq!(m.capacity(), 2 * 1024 * 1024);
    let m: MX25R3235F<SimTransport> = MX25R::new(SimTransport::new(4 * 1024 * 1024));
    assert_eq!(m.capacity(), 4 * 1024 * 1024);
    let m: MX25R6435F<SimTransport> = MX25R::new(SimTransport::new(8 * 1024 * 1024));
    assert_eq!(m.capacity(), 8 * 1024 * 1024);
}

/// A mutating operation through a handle that has not enabled its
/// write permission is rejected immediately and sends no command; the
/// permission is consumed by each mutation.
#[test]
fn write_without_permission_is_rejected() {
    let mut memory = chip_16k();
    assert!(matches!(memory.write(0, &[1]), Err(Error::Permission)));
    assert!(matches!(memory.erase(0, 4096), Err(Error::Permission)));
    assert!(matches!(memory.write_page(0, &[1]), Err(Error::Permission)));
    assert!(matches!(memory.erase_sector(0), Err(Error::Permission)));
    assert!(matches!(memory.erase_chip(), Err(Error::Permission)));
    assert!(matches!(memory.write_security_register(), Err(Error::Permission)));
    let t = memory.release();
    assert_eq!(t.txn_count(), 0);

    let mut memory = chip_16k();
    memory.write_enable().unwrap();
    memory.write(0, &[1]).unwrap();
    // The permission was consumed by the completed write.
    assert!(matches!(memory.write(1, &[2]), Err(Error::Permission)));
}
