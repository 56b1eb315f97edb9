//! Bit-level codecs of the chip's registers.
//!
//! The hardware fixes each bit position: in the status byte, bit 0 is
//! work-in-progress, bit 1 the write-enable latch, bits 2..=5 the
//! protected-block field, bit 6 quad-enable and bit 7 the
//! write-protect-disable flag.  In the first configuration byte, bit 3
//! selects the protected area and bit 6 the dummy-cycle mode; in the
//! second, bit 1 selects the power mode.  All codecs are total pure
//! functions, stated with explicit masks and shifts.

use vstd::prelude::*;

verus! {

use vstd::std_specs::convert::FromSpec;

/// Manufacturer identification byte.
#[derive(Debug, Clone, Copy, PartialEq, Eq, Structural)]
pub struct ManufacturerId(pub u8);

/// Memory-type identification byte.
#[derive(Debug, Clone, Copy, PartialEq, Eq, Structural)]
pub struct MemoryType(pub u8);

/// Memory-density identification byte.
#[derive(Debug, Clone, Copy, PartialEq, Eq, Structural)]
pub struct MemoryDensity(pub u8);

/// Electronic-signature byte.
#[derive(Debug, Clone, Copy, PartialEq, Eq, Structural)]
pub struct ElectronicId(pub u8);

/// Device identification byte.
#[derive(Debug, Clone, Copy, PartialEq, Eq, Structural)]
pub struct DeviceId(pub u8);

/// Decoded view of the chip's status byte.  Produced fresh on every
/// status read; never cached.
#[derive(Debug, Clone, Copy, PartialEq, Eq, Structural)]
pub struct StatusRegister {
    /// Bit 7: the status register is protected against writes.
    pub write_protect_disable: bool,
    /// Bit 6: quad I/O is enabled.
    pub quad_enable: bool,
    /// Bits 2..=5: index of the protected block range (0..=15).
    pub protected_block: u8,
    /// Bit 1: the write-enable latch is set.
    pub write_enable_latch: bool,
    /// Bit 0: an erase or program cycle is in progress.
    pub wip_bit: bool,
}

/// The decoding of a status byte into its fields.
pub open spec fn spec_decode_status(b: u8) -> StatusRegister {
    StatusRegister {
        write_protect_disable: b & 0x80 != 0,
        quad_enable: b & 0x40 != 0,
        protected_block: (b >> 2) & 0x0F,
        write_enable_latch: b & 0x02 != 0,
        wip_bit: b & 0x01 != 0,
    }
}

/// The encoding of status fields back into a byte; the inverse of
/// [`spec_decode_status`] (see the round-trip lemmas below).
pub open spec fn spec_encode_status(sr: StatusRegister) -> u8 {
    (if sr.wip_bit { 0x01u8 } else { 0u8 })
    | (if sr.write_enable_latch { 0x02u8 } else { 0u8 })
    | ((sr.protected_block & 0x0F) << 2)
    | (if sr.quad_enable { 0x40u8 } else { 0u8 })
    | (if sr.write_protect_disable { 0x80u8 } else { 0u8 })
}

/// Decodes a status byte.
pub fn decode_status(b: u8) -> (sr: StatusRegister)
    ensures
        sr == spec_decode_status(b),
{
    StatusRegister {
        write_protect_disable: b & 0x80 != 0,
        quad_enable: b & 0x40 != 0,
        protected_block: (b >> 2) & 0x0F,
        write_enable_latch: b & 0x02 != 0,
        wip_bit: b & 0x01 != 0,
    }
}

/// Encodes status fields into a byte.
pub fn encode_status(sr: StatusRegister) -> (b: u8)
    ensures
        b == spec_encode_status(sr),
{
    (if sr.wip_bit { 0x01u8 } else { 0u8 })
    | (if sr.write_enable_latch { 0x02u8 } else { 0u8 })
    | ((sr.protected_block & 0x0F) << 2)
    | (if sr.quad_enable { 0x40u8 } else { 0u8 })
    | (if sr.write_protect_disable { 0x80u8 } else { 0u8 })
}

/// Decoding an encoded status register yields the fields back, for
/// every protected-block index the 4-bit field can hold.
pub proof fn lemma_status_decode_encode(sr: StatusRegister)
    requires
        sr.protected_block < 16,
    ensures
        spec_decode_status(spec_encode_status(sr)) == sr,
{
    let pb = sr.protected_block;
    let wip = sr.wip_bit;
    let wel = sr.write_enable_latch;
    let qe = sr.quad_enable;
    let wpd = sr.write_protect_disable;
    let enc = spec_encode_status(sr);
    assert((enc & 0x80 != 0) == wpd
        && (enc & 0x40 != 0) == qe
        && ((enc >> 2) & 0x0F) == pb
        && (enc & 0x02 != 0) == wel
        && (enc & 0x01 != 0) == wip) by (bit_vector)
        requires
            pb < 16,
            enc == (if wip { 0x01u8 } else { 0u8 })
                | (if wel { 0x02u8 } else { 0u8 })
                | ((pb & 0x0F) << 2)
                | (if qe { 0x40u8 } else { 0u8 })
                | (if wpd { 0x80u8 } else { 0u8 }),
    ;
}

impl From<u8> for StatusRegister {
    /// Decodes a raw status byte, as [`decode_status`] does.
    fn from(val: u8) -> Self {
        decode_status(val)
    }
}

impl vstd::std_specs::convert::FromSpecImpl<u8> for StatusRegister {
    open spec fn obeys_from_spec() -> bool {
        true
    }

    open spec fn from_spec(val: u8) -> Self {
        spec_decode_status(val)
    }
}

/// Encoding a decoded status byte yields the byte back: every bit of
/// the byte is covered by exactly one field.
pub proof fn lemma_status_encode_decode(b: u8)
    ensures
        spec_encode_status(spec_decode_status(b)) == b,
{
    assert(((if b & 0x01 != 0 { 0x01u8 } else { 0u8 })
        | (if b & 0x02 != 0 { 0x02u8 } else { 0u8 })
        | ((((b >> 2) & 0x0F) & 0x0F) << 2)
        | (if b & 0x40 != 0 { 0x40u8 } else { 0u8 })
        | (if b & 0x80 != 0 { 0x80u8 } else { 0u8 })) == b) by (bit_vector);
}

/// Which end of the array the protected blocks cover.
#[derive(Debug, Clone, Copy, PartialEq, Eq, Structural)]
pub enum ProtectedArea {
    /// Protection grows down from the top of the array.
    Top,
    /// Protection grows up from the bottom of the array.
    Bottom,
}

impl From<bool> for ProtectedArea {
    /// Decodes the protected-area bit: set means `Bottom`.
    fn from(val: bool) -> Self {
        if val {
            ProtectedArea::Bottom
        } else {
            ProtectedArea::Top
        }
    }
}

impl vstd::std_specs::convert::FromSpecImpl<bool> for ProtectedArea {
    open spec fn obeys_from_spec() -> bool {
        true
    }

    open spec fn from_spec(val: bool) -> Self {
        if val {
            ProtectedArea::Bottom
        } else {
            ProtectedArea::Top
        }
    }
}

impl From<ProtectedArea> for bool {
    /// Encodes the protected-area choice as its register bit.
    fn from(val: ProtectedArea) -> Self {
        match val {
            ProtectedArea::Bottom => true,
            ProtectedArea::Top => false,
        }
    }
}

impl vstd::std_specs::convert::FromSpecImpl<ProtectedArea> for bool {
    open spec fn obeys_from_spec() -> bool {
        true
    }

    open spec fn from_spec(val: ProtectedArea) -> Self {
        val is Bottom
    }
}

/// The chip's power/performance trade-off.
#[derive(Debug, Clone, Copy, PartialEq, Eq, Structural)]
pub enum PowerMode {
    /// Default ultra-low-power mode.
    UltraLowPower,
    /// High-performance mode.
    HighPerformance,
}

impl From<bool> for PowerMode {
    /// Decodes the power-mode bit: set means high performance.
    fn from(val: bool) -> Self {
        if val {
            PowerMode::HighPerformance
        } else {
            PowerMode::UltraLowPower
        }
    }
}

impl vstd::std_specs::convert::FromSpecImpl<bool> for PowerMode {
    open spec fn obeys_from_spec() -> bool {
        true
    }

    open spec fn from_spec(val: bool) -> Self {
        if val {
            PowerMode::HighPerformance
        } else {
            PowerMode::UltraLowPower
        }
    }
}

impl From<PowerMode> for bool {
    /// Encodes the power mode as its register bit.
    fn from(val: PowerMode) -> Self {
        match val {
            PowerMode::HighPerformance => true,
            PowerMode::UltraLowPower => false,
        }
    }
}

impl vstd::std_specs::convert::FromSpecImpl<PowerMode> for bool {
    open spec fn obeys_from_spec() -> bool {
        true
    }

    open spec fn from_spec(val: PowerMode) -> Self {
        val is HighPerformance
    }
}

/// Decoded view of the chip's two configuration bytes.
#[derive(Debug, Clone, Copy, PartialEq, Eq, Structural)]
pub struct ConfigurationRegister {
    /// First byte, bit 6: an extra dummy cycle is inserted on reads.
    pub dummy_cycle: bool,
    /// First byte, bit 3: which end of the array is protected.
    pub protected_section: ProtectedArea,
    /// Second byte, bit 1: the power/performance mode.
    pub power_mode: PowerMode,
}

/// The decoding of the two configuration bytes into their fields.
pub open spec fn spec_decode_configuration(b1: u8, b2: u8) -> ConfigurationRegister {
    ConfigurationRegister {
        dummy_cycle: b1 & 0x40 != 0,
        protected_section: if b1 & 0x08 != 0 { ProtectedArea::Bottom } else { ProtectedArea::Top },
        power_mode: if b2 & 0x02 != 0 { PowerMode::HighPerformance } else { PowerMode::UltraLowPower },
    }
}

/// Decodes the two configuration bytes.
pub fn decode_configuration(b1: u8, b2: u8) -> (cr: ConfigurationRegister)
    ensures
        cr == spec_decode_configuration(b1, b2),
{
    ConfigurationRegister {
        dummy_cycle: b1 & 0x40 != 0,
        protected_section: if b1 & 0x08 != 0 { ProtectedArea::Bottom } else { ProtectedArea::Top },
        power_mode: if b2 & 0x02 != 0 { PowerMode::HighPerformance } else { PowerMode::UltraLowPower },
    }
}

/// The first configuration byte encoding a protected-area choice and
/// the dummy-cycle flag.
pub open spec fn spec_encode_configuration1(protected_section: ProtectedArea, dummy_cycle: bool) -> u8 {
    (if protected_section is Bottom { 0x08u8 } else { 0u8 })
    | (if dummy_cycle { 0x40u8 } else { 0u8 })
}

/// The second configuration byte encoding the power mode.
pub open spec fn spec_encode_configuration2(power_mode: PowerMode) -> u8 {
    if power_mode is HighPerformance { 0x02u8 } else { 0u8 }
}

/// Encodes the first configuration byte.
pub fn encode_configuration1(protected_section: ProtectedArea, dummy_cycle: bool) -> (b: u8)
    ensures
        b == spec_encode_configuration1(protected_section, dummy_cycle),
{
    (if matches!(protected_section, ProtectedArea::Bottom) { 0x08u8 } else { 0u8 })
    | (if dummy_cycle { 0x40u8 } else { 0u8 })
}

/// Encodes the second configuration byte.
pub fn encode_configuration2(power_mode: PowerMode) -> (b: u8)
    ensures
        b == spec_encode_configuration2(power_mode),
{
    if matches!(power_mode, PowerMode::HighPerformance) { 0x02u8 } else { 0u8 }
}

/// Decoding the encoded configuration bytes yields the fields back.
pub proof fn lemma_configuration_decode_encode(
    protected_section: ProtectedArea,
    dummy_cycle: bool,
    power_mode: PowerMode,
)
    ensures
        spec_decode_configuration(
            spec_encode_configuration1(protected_section, dummy_cycle),
            spec_encode_configuration2(power_mode),
        ) == (ConfigurationRegister { dummy_cycle, protected_section, power_mode }),
{
    let pa = protected_section is Bottom;
    let hp = power_mode is HighPerformance;
    let b1 = spec_encode_configuration1(protected_section, dummy_cycle);
    let b2 = spec_encode_configuration2(power_mode);
    assert((b1 & 0x40 != 0) == dummy_cycle && (b1 & 0x08 != 0) == pa && (b2 & 0x02 != 0) == hp)
        by (bit_vector)
        requires
            b1 == (if pa { 0x08u8 } else { 0u8 }) | (if dummy_cycle { 0x40u8 } else { 0u8 }),
            b2 == (if hp { 0x02u8 } else { 0u8 }),
    ;
}

/// Decoded view of the chip's security byte.
#[derive(Debug, Clone, Copy, PartialEq, Eq, Structural)]
pub struct SecurityRegister {
    /// Bit 6: the last erase failed.
    pub erase_failed: bool,
    /// Bit 5: the last program failed.
    pub program_failed: bool,
    /// Bit 3: an erase is suspended.
    pub erase_suspended: bool,
    /// Bit 2: a program is suspended.
    pub program_suspended: bool,
    /// Bit 1: the security register is locked down.
    pub locked_down: bool,
    /// Bit 0: the secured-OTP region is factory locked.
    pub secured_otp: bool,
}

/// The decoding of the security byte into its fields.
pub open spec fn spec_decode_security(b: u8) -> SecurityRegister {
    SecurityRegister {
        erase_failed: b & 0x40 != 0,
        program_failed: b & 0x20 != 0,
        erase_suspended: b & 0x08 != 0,
        program_suspended: b & 0x04 != 0,
        locked_down: b & 0x02 != 0,
        secured_otp: b & 0x01 != 0,
    }
}

/// Decodes the security byte.
pub fn decode_security(b: u8) -> (sr: SecurityRegister)
    ensures
        sr == spec_decode_security(b),
{
    SecurityRegister {
        erase_failed: b & 0x40 != 0,
        program_failed: b & 0x20 != 0,
        erase_suspended: b & 0x08 != 0,
        program_suspended: b & 0x04 != 0,
        locked_down: b & 0x02 != 0,
        secured_otp: b & 0x01 != 0,
    }
}

} // verus!
