//! Unit tests for the register codecs, the command framing and the
//! geometry arithmetic.

use mx25r::blocking::MX25R;
use mx25r::command::{addr_dummy_frame, addr_frame, simple_frame, Command};
use mx25r::error::Error;
use mx25r::geometry::{block32_of, block64_of, page_chunk_len, largest_erase_unit, page_of,
    sector_of, to_offset, Address};
use mx25r::register::{decode_configuration, decode_security, decode_status, encode_configuration1,
    encode_configuration2, encode_status, PowerMode, ProtectedArea, StatusRegister};
use mx25r::sim::SimTransport;
use mx25r::{check_erase, check_write, BLOCK32_SIZE, BLOCK64_SIZE, PAGE_SIZE, SECTOR_SIZE};

type Chip16K = MX25R<0x3FFF, SimTransport>;

fn chip_16k() -> Chip16K {
    MX25R::new(SimTransport::new(0x4000))
}

#[test]
fn command_opcodes_match_the_hardware() {
    assert_eq!(Command::Read.opcode(), 0x03);
    assert_eq!(Command::ReadF.opcode(), 0x0B);
    assert_eq!(Command::ProgramPage.opcode(), 0x02);
    assert_eq!(Command::SectorErase.opcode(), 0x20);
    assert_eq!(Command::BlockErase32.opcode(), 0x52);
    assert_eq!(Command::BlockErase.opcode(), 0xD8);
    assert_eq!(Command::ChipErase.opcode(), 0x60);
    assert_eq!(Command::ReadSfdp.opcode(), 0x5A);
    assert_eq!(Command::WriteEnable.opcode(), 0x06);
    assert_eq!(Command::WriteDisable.opcode(), 0x04);
    assert_eq!(Command::ReadStatus.opcode(), 0x05);
    assert_eq!(Command::ReadConfig.opcode(), 0x15);
    assert_eq!(Command::WriteStatus.opcode(), 0x01);
    assert_eq!(Command::ReadIdentification.opcode(), 0x9F);
    assert_eq!(Command::ReadManufacturerId.opcode(), 0x90);
    assert_eq!(Command::ReadElectronicId.opcode(), 0xAB);
    assert_eq!(Command::ResetEnable.opcode(), 0x66);
    assert_eq!(Command::ResetMemory.opcode(), 0x99);
    assert_eq!(Command::Nop.opcode(), 0x00);
}

#[test]
fn frames_carry_big_endian_addresses() {
    assert_eq!(simple_frame(Command::WriteEnable), vec![0x06]);
    assert_eq!(addr_frame(Command::Read, 0x123456), vec![0x03, 0x12, 0x34, 0x56]);
    assert_eq!(addr_frame(Command::SectorErase, 0x001000), vec![0x20, 0x00, 0x10, 0x00]);
    assert_eq!(
        addr_dummy_frame(Command::ReadF, 0x00FF01),
        vec![0x0B, 0x00, 0xFF, 0x01, 0xFF],
    );
}

#[test]
fn status_byte_decodes_field_by_field() {
    let sr = decode_status(0xA6);
    assert!(sr.write_protect_disable);
    assert!(!sr.quad_enable);
    assert_eq!(sr.protected_block, 9);
    assert!(sr.write_enable_latch);
    assert!(!sr.wip_bit);
    assert_eq!(encode_status(sr), 0xA6);
    assert_eq!(StatusRegister::from(0xA6), sr);
}

#[test]
fn status_codec_round_trips() {
    for b in 0..=255u8 {
        assert_eq!(encode_status(decode_status(b)), b);
    }
    let sr = StatusRegister {
        write_protect_disable: false,
        quad_enable: true,
        protected_block: 5,
        write_enable_latch: false,
        wip_bit: true,
    };
    assert_eq!(decode_status(encode_status(sr)), sr);
}

#[test]
fn configuration_codec_round_trips() {
    let b1 = encode_configuration1(ProtectedArea::Bottom, true);
    let b2 = encode_configuration2(PowerMode::HighPerformance);
    assert_eq!(b1, 0x48);
    assert_eq!(b2, 0x02);
    let cr = decode_configuration(b1, b2);
    assert!(cr.dummy_cycle);
    assert_eq!(cr.protected_section, ProtectedArea::Bottom);
    assert_eq!(cr.power_mode, PowerMode::HighPerformance);

    let cr = decode_configuration(0, 0);
    assert!(!cr.dummy_cycle);
    assert_eq!(cr.protected_section, ProtectedArea::Top);
    assert_eq!(cr.power_mode, PowerMode::UltraLowPower);
}

#[test]
fn protected_area_and_power_mode_bits() {
    assert!(matches!(ProtectedArea::from(true), ProtectedArea::Bottom));
    assert!(matches!(ProtectedArea::from(false), ProtectedArea::Top));
    assert!(bool::from(ProtectedArea::Bottom));
    assert!(!bool::from(ProtectedArea::Top));
    assert!(matches!(PowerMode::from(true), PowerMode::HighPerformance));
    assert!(matches!(PowerMode::from(false), PowerMode::UltraLowPower));
    assert!(bool::from(PowerMode::HighPerformance));
    assert!(!bool::from(PowerMode::UltraLowPower));
}

#[test]
fn security_byte_decodes_field_by_field() {
    let sr = decode_security(0x02);
    assert!(sr.locked_down);
    assert!(!sr.erase_failed);
    assert!(!sr.program_failed);
    assert!(!sr.erase_suspended);
    assert!(!sr.program_suspended);
    assert!(!sr.secured_otp);
    let sr = decode_security(0x64);
    assert!(sr.erase_failed);
    assert!(sr.program_failed);
    assert!(sr.program_suspended);
    assert!(!sr.locked_down);
}

#[test]
fn geometry_formulas() {
    assert_eq!(sector_of(0), 0);
    assert_eq!(sector_of(4095), 0);
    assert_eq!(sector_of(4096), 1);
    assert_eq!(page_of(0x1234), 2);
    assert_eq!(page_of(255), 0);
    assert_eq!(page_of(256), 1);
    assert_eq!(block32_of(0x8000), 1);
    assert_eq!(block64_of(0xFFFF), 0);
    assert_eq!(block64_of(0x10000), 1);
    assert_eq!(to_offset(1, 2, 3), 4096 + 512 + 3);
    let a = Address::new(2, 1);
    assert_eq!(a.offset(), 2 * 4096 + 256);
    assert_eq!(PAGE_SIZE, 256);
    assert_eq!(SECTOR_SIZE, 4096);
    assert_eq!(BLOCK32_SIZE, 32768);
    assert_eq!(BLOCK64_SIZE, 65536);
}

#[test]
fn chunk_planner_respects_page_boundaries() {
    assert_eq!(page_chunk_len(0, 1000), 256);
    assert_eq!(page_chunk_len(250, 20), 6);
    assert_eq!(page_chunk_len(250, 3), 3);
    assert_eq!(page_chunk_len(256, 300), 256);
}

#[test]
fn erase_planner_prefers_large_units() {
    assert_eq!(largest_erase_unit(0, 0x10000), 0x10000);
    assert_eq!(largest_erase_unit(0, 0x8000), 0x8000);
    assert_eq!(largest_erase_unit(0, 0x1000), 0x1000);
    assert_eq!(largest_erase_unit(0x1000, 0x10000), 0x1000);
    assert_eq!(largest_erase_unit(0x8000, 0x10000), 0x8000);
    assert_eq!(largest_erase_unit(0x10000, 0x30000), 0x10000);
}

#[test]
fn range_checks() {
    assert!(check_erase::<()>(0x4000, 0, 0x1000).is_ok());
    assert!(matches!(check_erase::<()>(0x4000, 0x2000, 0x1000), Err(Error::OutOfBounds)));
    assert!(matches!(check_erase::<()>(0x4000, 0, 0x4001), Err(Error::OutOfBounds)));
    assert!(matches!(check_erase::<()>(0x4000, 0x800, 0x2000), Err(Error::NotAligned)));
    assert!(matches!(check_erase::<()>(0x4000, 0, 0x1800), Err(Error::NotAligned)));
    assert!(check_write::<()>(0x4000, 0x3FFF, 1).is_ok());
    assert!(matches!(check_write::<()>(0x4000, 0x3FFF, 2), Err(Error::OutOfBounds)));
}

#[test]
fn write_configuration_updates_registers() {
    let mut memory = chip_16k();
    memory.write_enable().unwrap();
    memory
        .write_configuration(3, true, false, true, ProtectedArea::Bottom, PowerMode::HighPerformance)
        .unwrap();

    let sr = memory.read_status().unwrap();
    assert_eq!(sr.protected_block, 3);
    assert!(sr.quad_enable);
    assert!(!sr.write_protect_disable);

    let cr = memory.read_configuration().unwrap();
    assert!(cr.dummy_cycle);
    assert_eq!(cr.protected_section, ProtectedArea::Bottom);
    assert_eq!(cr.power_mode, PowerMode::HighPerformance);
}

#[test]
fn write_configuration_rejects_large_block_protect() {
    let mut memory = chip_16k();
    memory.write_enable().unwrap();
    let res = memory.write_configuration(
        0x10,
        false,
        false,
        false,
        ProtectedArea::Top,
        PowerMode::UltraLowPower,
    );
    assert!(matches!(res, Err(Error::Value)));
}

#[test]
fn identification_reads() {
    let mut memory = chip_16k();
    let (m, t, d) = memory.read_identification().unwrap();
    assert_eq!(m.0, 0xC2);
    assert_eq!(t.0, 0x28);
    assert_eq!(d.0, 0x17);
    let e = memory.read_electronic_id().unwrap();
    assert_eq!(e.0, 0x17);
    let (m, dev) = memory.read_manufacturer_id().unwrap();
    assert_eq!(m.0, 0xC2);
    assert_eq!(dev.0, 0x17);
}

#[test]
fn security_register_lockdown() {
    let mut memory = chip_16k();
    let sr = memory.read_security_register().unwrap();
    assert!(!sr.locked_down);
    memory.write_enable().unwrap();
    memory.write_security_register().unwrap();
    let sr = memory.read_security_register().unwrap();
    assert!(sr.locked_down);
}

#[test]
fn sfdp_reads_zero_without_a_table() {
    let mut memory = chip_16k();
    let buf = memory.read_sfdp(0, 8).unwrap();
    assert_eq!(buf, vec![0u8; 8]);
}

#[test]
fn passthrough_commands_leave_the_chip_alone() {
    let mut memory = chip_16k();
    memory.write_enable().unwrap();
    memory.write(0, &[7]).unwrap();
    memory.suspend_program_erase().unwrap();
    memory.resume_program_erase().unwrap();
    memory.set_burst_length(16).unwrap();
    memory.enter_secure_opt().unwrap();
    memory.exit_secure_opt().unwrap();
    memory.nop().unwrap();
    memory.deep_power_down().unwrap();
    let buf = memory.read(0, 1).unwrap();
    assert_eq!(buf[0], 7);
}

#[test]
fn read_fast_matches_read() {
    let mut memory = chip_16k();
    memory.write_enable().unwrap();
    memory.write(10, &[1, 2, 3, 4, 5]).unwrap();
    let a = memory.read(10, 5).unwrap();
    let b = memory.read_fast(10, 5).unwrap();
    assert_eq!(a, b);
}
