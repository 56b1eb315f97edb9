//! End-to-end driver scenarios on the simulated chip.

use mx25r::blocking::{MX25R, MX25R6435F};
use mx25r::error::Error;
use mx25r::transport::Transport;
use mx25r::sim::SimTransport;

type Chip16K = MX25R<0x3FFF, SimTransport>;
type Chip64K = MX25R<0xFFFF, SimTransport>;

fn chip_16k() -> Chip16K {
    MX25R::new(SimTransport::new(0x4000))
}

fn chip_64k() -> Chip64K {
    MX25R::new(SimTransport::new(0x10000))
}

#[test]
fn blocking_basic() {
    let mut memory = chip_16k();
    let addr = 0;

    let buff = memory.read(addr, 1).unwrap();
    assert_eq!(buff.len(), 1);

    memory.write_enable().unwrap();
    memory.erase_sector(addr).unwrap();

    let buff = memory.read(addr, 1).unwrap();
    assert_eq!(buff[0], 0xff);

    memory.write_enable().unwrap();
    memory.write_page(0, &[42]).unwrap();

    let buff = memory.read(addr, 1).unwrap();
    assert_eq!(buff[0], 42);

    memory.write_enable().unwrap();
    memory.erase_sector(addr).unwrap();

    let buff = memory.read(addr, 1).unwrap();
    assert_eq!(buff[0], 0xff);
}

#[test]
fn blocking_read_multiple_bytes() {
    const LEN: usize = 16;
    let mut memory = chip_16k();
    memory.write_enable().unwrap();
    memory.erase_sector(0).unwrap();

    let mut pattern = [0u8; LEN];
    for (i, e) in pattern.iter_mut().enumerate() {
        *e = i as u8;
    }
    memory.write_enable().unwrap();
    memory.write_page(0, &pattern).unwrap();
    let buf = memory.read(0, LEN).unwrap();
    assert_eq!(&buf[..], &pattern[..]);
}

#[test]
fn blocking_read_across_sector_boundary() {
    let mut memory = chip_16k();

    memory.write_enable().unwrap();
    memory.erase_sector(0).unwrap();
    memory.write_enable().unwrap();
    memory.erase_sector(4096).unwrap();

    let buf = memory.read(4096 - 8, 16).unwrap();
    assert!(buf.iter().all(|&b| b == 0xFF));
}

#[test]
fn blocking_read_out_of_bounds() {
    let mut memory = chip_16k();
    let res = memory.read(0x4000_0000, 16);
    assert!(res.is_err(), "Expected out-of-bounds read to error");
}

#[test]
fn blocking_direct_trait_read() {
    let mut memory = chip_16k();

    memory.write_enable().unwrap();
    memory.erase_sector(0).unwrap();
    memory.write_enable().unwrap();
    memory.write_page(0, &[1, 2, 3, 4]).unwrap();

    let buf = memory.read(0, 4).unwrap();
    assert_eq!(&buf[..], &[1, 2, 3, 4]);
}

#[test]
fn blocking_trait_capacity() {
    let memory: MX25R6435F<SimTransport> = MX25R::new(SimTransport::new(8 * 1024 * 1024));
    let cap = memory.capacity();
    assert_eq!(cap, 8 * 1024 * 1024);
}

#[test]
fn blocking_trait_write_read() {
    const DATA: [u8; 4] = [0xDE, 0xAD, 0xBE, 0xEF];
    const SECTOR_SIZE: u32 = 4096;
    let mut memory = chip_16k();

    memory.write_enable().unwrap();
    memory.erase(0, SECTOR_SIZE).unwrap();

    memory.write_enable().unwrap();
    memory.write(0, &DATA).unwrap();

    let buf = memory.read(0, 4).unwrap();
    assert_eq!(&buf[..], &DATA[..]);
}

#[test]
fn blocking_trait_erase_range() {
    const SECTOR_SIZE: u32 = 4096;
    const LEN: usize = SECTOR_SIZE as usize + (SECTOR_SIZE / 2) as usize;
    const ERASE: u32 = 2 * SECTOR_SIZE;
    let mut memory = chip_16k();
    let data = vec![0x55u8; LEN];

    memory.write_enable().unwrap();
    memory.erase(0, ERASE).unwrap();

    let buf = memory.read(0, LEN).unwrap();
    assert!(buf.iter().all(|&b| b == 0xFF));

    memory.write_enable().unwrap();
    memory.write(0, &data).unwrap();

    let buf = memory.read(0, LEN).unwrap();
    assert!(buf.iter().all(|&b| b == 0x55));

    memory.write_enable().unwrap();
    memory.erase(0, ERASE).unwrap();

    let buf = memory.read(0, LEN).unwrap();
    assert!(buf.iter().all(|&b| b == 0xFF));
}

#[test]
fn read_zero_bytes() {
    let mut memory = chip_16k();
    let buf = memory.read(0, 0).unwrap();
    assert!(buf.is_empty());
    let t = memory.release();
    assert_eq!(t.txn_count(), 0);
}

#[test]
fn synchronous() {
    let mut memory = chip_16k();

    let buff = memory.read(0, 1).unwrap();
    println!("Value before erase {}", buff[0]);

    println!("Erasing first sector");
    memory.write_enable().unwrap();
    memory.erase_sector(0).unwrap();
    let buff = memory.read(0, 1).unwrap();
    assert_eq!(buff[0], 0xFF);

    println!("Writing 42");
    memory.write_enable().unwrap();
    memory.write_page(0, &[42]).unwrap();
    let buff = memory.read(0, 1).unwrap();
    assert_eq!(buff[0], 42);
}

#[test]
fn erase_block32_and_block64() {
    let mut memory = chip_64k();

    memory.write_enable().unwrap();
    memory.write(0x8000, &[1, 2, 3]).unwrap();
    memory.write_enable().unwrap();
    memory.erase_block32(0x8000).unwrap();
    let buf = memory.read(0x8000, 3).unwrap();
    assert_eq!(&buf[..], &[0xFF, 0xFF, 0xFF]);

    memory.write_enable().unwrap();
    memory.write(0, &[9]).unwrap();
    memory.write_enable().unwrap();
    memory.erase_block64(0).unwrap();
    let buf = memory.read(0, 1).unwrap();
    assert_eq!(buf[0], 0xFF);

    memory.write_enable().unwrap();
    assert!(matches!(memory.erase_block32(0x1000), Err(Error::NotAligned)));
    assert!(matches!(memory.erase_block64(0x8000), Err(Error::NotAligned)));
}

#[test]
fn erase_chip_clears_everything() {
    let mut memory = chip_16k();
    memory.write_enable().unwrap();
    memory.write(100, &[1, 2, 3, 4]).unwrap();
    memory.write_enable().unwrap();
    memory.erase_chip().unwrap();
    let buf = memory.read(0, 0x4000).unwrap();
    assert!(buf.iter().all(|&b| b == 0xFF));
}

#[test]
fn erase_picks_largest_aligned_unit() {
    let mut memory = chip_64k();
    memory.write_enable().unwrap();
    memory.erase(0, 0x10000).unwrap();
    let t = memory.release();
    // Enabling the permission costs a poll and a write-enable frame;
    // the erase itself costs two polls, one write-enable, one 64 KiB
    // block-erase frame, and two polls while the erase completes.
    assert_eq!(t.txn_count(), 8);
}

#[test]
fn write_enable_then_disable() {
    let mut memory = chip_16k();
    memory.write_enable().unwrap();
    let sr = memory.read_status().unwrap();
    assert!(sr.write_enable_latch);

    memory.write_disable().unwrap();
    let sr = memory.read_status().unwrap();
    assert!(!sr.write_enable_latch);

    assert!(matches!(memory.write_page(0, &[1]), Err(Error::Permission)));
}

#[test]
fn transport_fault_is_passed_through() {
    let mut t = SimTransport::new(0x4000);
    t.fail_after(0);
    let mut memory: Chip16K = MX25R::new(t);
    assert!(matches!(memory.read_status(), Err(Error::Spi(_))));
}

#[test]
fn busy_chip_reports_busy_once() {
    let mut t = SimTransport::new(0x4000);
    // Enable the latch and start a sector erase behind the driver's
    // back, leaving the chip busy.
    t.transact_write(&[0x06]).unwrap();
    t.transact_write(&[0x20, 0x00, 0x00, 0x00]).unwrap();
    let mut memory: Chip16K = MX25R::new(t);
    assert!(matches!(memory.poll_wip(), Err(Error::Busy)));
    assert!(memory.wait_wip().is_ok());
    assert!(memory.poll_wip().is_ok());
}

#[test]
fn reset_clears_latch_and_arming() {
    let mut memory = chip_16k();
    memory.write_enable().unwrap();
    memory.reset().unwrap();
    let sr = memory.read_status().unwrap();
    assert!(!sr.write_enable_latch);
}

#[test]
fn write_page_rejects_page_crossing() {
    let mut memory = chip_16k();
    memory.write_enable().unwrap();
    let res = memory.write_page(250, &[0u8; 20]);
    assert!(matches!(res, Err(Error::NotAligned)));
    // The single-page engine refused it, but the range engine splits
    // the same request at the page boundary.
    memory.write(250, &[0u8; 20]).unwrap();
}

#[test]
fn empty_erase_is_a_no_op() {
    let mut memory = chip_16k();
    memory.write_enable().unwrap();
    memory.erase(4096, 4096).unwrap();
    let t = memory.release();
    // Only the permission handshake reached the chip.
    assert_eq!(t.txn_count(), 2);
}

#[test]
fn verify_addr_bounds() {
    assert_eq!(Chip16K::verify_addr(0x3FFF), Ok(0x3FFF));
    assert!(matches!(Chip16K::verify_addr(0x4000), Err(Error::OutOfBounds)));
}
