//! Configuration register `CtrlReg3` and its fields.

use vstd::prelude::*;
use core::marker::PhantomData;
use super::WriteableRegister;

verus! {

/// Register `CtrlReg3`, configured by its type parameters.
pub struct CtrlReg3<LowPower = LowPowerDisable, SpiMode = SpiMode4Wire, OperatingMode = OperatingModePowerDown>(pub PhantomData<(LowPower, SpiMode, OperatingMode,)>);

impl<LowPower_: LowPower, SpiMode_: SpiMode, OperatingMode_: OperatingMode> CtrlReg3<LowPower_, SpiMode_, OperatingMode_> {
    /// The register, configured as its type says.
    pub fn new() -> (r: Self) {
        CtrlReg3(PhantomData)
    }
}

impl<LowPower_: LowPower, SpiMode_: SpiMode, OperatingMode_: OperatingMode> WriteableRegister for CtrlReg3<LowPower_, SpiMode_, OperatingMode_> {
    const ADDRESS: u8 = 0x22;
    const BYTE: u8 = LowPower_::BITS << 5u8 | SpiMode_::BITS << 2u8 | OperatingMode_::BITS << 0u8;
}

/// The settings of the low-power mode.
#[derive(Debug, Clone, Copy, PartialEq, Eq)]
pub enum LowPowerFlags {
    Enable,
    Disable,
}

impl LowPowerFlags {
    /// The bits of the setting, before they are shifted into place.
    pub open spec fn spec_bits(self) -> u8 {
        match self {
            LowPowerFlags::Enable => 1u8,
            LowPowerFlags::Disable => 0u8,
        }
    }

    /// The bits of the setting, before they are shifted into place.
    pub fn bits(&self) -> (r: u8)
        ensures
            r == self.spec_bits(),
            r < 2,
    {
        match self {
            LowPowerFlags::Enable => 1,
            LowPowerFlags::Disable => 0,
        }
    }
}

/// A setting of the low-power mode, chosen by type; it stands at bit 5 of `CtrlReg3`.
pub trait LowPower {
    const LOW_POWER: LowPowerFlags;
    /// The bits of the setting.
    const BITS: u8;

    /// The bits are those of the setting, and they fit the field.
    proof fn lemma_bits()
        ensures
            Self::BITS == Self::LOW_POWER.spec_bits(),
            Self::BITS < 2,
    ;
}

/// The low-power mode: `Enable`.
pub struct LowPowerEnable;

impl LowPower for LowPowerEnable {
    const LOW_POWER: LowPowerFlags = LowPowerFlags::Enable;
    const BITS: u8 = 1;

    proof fn lemma_bits() {
    }
}

/// The low-power mode: `Disable`.
pub struct LowPowerDisable;

impl LowPower for LowPowerDisable {
    const LOW_POWER: LowPowerFlags = LowPowerFlags::Disable;
    const BITS: u8 = 0;

    proof fn lemma_bits() {
    }
}

/// The settings of the SPI interface mode.
#[derive(Debug, Clone, Copy, PartialEq, Eq)]
pub enum SpiModeFlags {
    Spi4Wire,
    Spi3Wire,
}

impl SpiModeFlags {
    /// The bits of the setting, before they are shifted into place.
    pub open spec fn spec_bits(self) -> u8 {
        match self {
            SpiModeFlags::Spi4Wire => 0u8,
            SpiModeFlags::Spi3Wire => 1u8,
        }
    }

    /// The bits of the setting, before they are shifted into place.
    pub fn bits(&self) -> (r: u8)
        ensures
            r == self.spec_bits(),
            r < 2,
    {
        match self {
            SpiModeFlags::Spi4Wire => 0,
            SpiModeFlags::Spi3Wire => 1,
        }
    }
}

/// A setting of the SPI interface mode, chosen by type; it stands at bit 2 of `CtrlReg3`.
pub trait SpiMode {
    const SPI_MODE: SpiModeFlags;
    /// The bits of the setting.
    const BITS: u8;

    /// The bits are those of the setting, and they fit the field.
    proof fn lemma_bits()
        ensures
            Self::BITS == Self::SPI_MODE.spec_bits(),
            Self::BITS < 2,
    ;
}

/// The SPI interface mode: `Spi4Wire`.
pub struct SpiMode4Wire;

impl SpiMode for SpiMode4Wire {
    const SPI_MODE: SpiModeFlags = SpiModeFlags::Spi4Wire;
    const BITS: u8 = 0;

    proof fn lemma_bits() {
    }
}

/// The SPI interface mode: `Spi3Wire`.
pub struct SpiMode3Wire;

impl SpiMode for SpiMode3Wire {
    const SPI_MODE: SpiModeFlags = SpiModeFlags::Spi3Wire;
    const BITS: u8 = 1;

    proof fn lemma_bits() {
    }
}

/// The settings of the conversion mode.
#[derive(Debug, Clone, Copy, PartialEq, Eq)]
pub enum OperatingModeFlags {
    ContinuousConversion,
    SingleConversion,
    PowerDown,
}

impl OperatingModeFlags {
    /// The bits of the setting, before they are shifted into place.
    pub open spec fn spec_bits(self) -> u8 {
        match self {
            OperatingModeFlags::ContinuousConversion => 0u8,
            OperatingModeFlags::SingleConversion => 1u8,
            OperatingModeFlags::PowerDown => 3u8,
        }
    }

    /// The bits of the setting, before they are shifted into place.
    pub fn bits(&self) -> (r: u8)
        ensures
            r == self.spec_bits(),
            r < 4,
    {
        match self {
            OperatingModeFlags::ContinuousConversion => 0,
            OperatingModeFlags::SingleConversion => 1,
            OperatingModeFlags::PowerDown => 3,
        }
    }
}

/// A setting of the conversion mode, chosen by type; it stands at bit 0 of `CtrlReg3`.
pub trait OperatingMode {
    const OPERATING_MODE: OperatingModeFlags;
    /// The bits of the setting.
    const BITS: u8;

    /// The bits are those of the setting, and they fit the field.
    proof fn lemma_bits()
        ensures
            Self::BITS == Self::OPERATING_MODE.spec_bits(),
            Self::BITS < 4,
    ;
}

/// The conversion mode: `ContinuousConversion`.
pub struct OperatingModeContinuousConversion;

impl OperatingMode for OperatingModeContinuousConversion {
    const OPERATING_MODE: OperatingModeFlags = OperatingModeFlags::ContinuousConversion;
    const BITS: u8 = 0;

    proof fn lemma_bits() {
    }
}

/// The conversion mode: `SingleConversion`.
pub struct OperatingModeSingleConversion;

impl OperatingMode for OperatingModeSingleConversion {
    const OPERATING_MODE: OperatingModeFlags = OperatingModeFlags::SingleConversion;
    const BITS: u8 = 1;

    proof fn lemma_bits() {
    }
}

/// The conversion mode: `PowerDown`.
pub struct OperatingModePowerDown;

impl OperatingMode for OperatingModePowerDown {
    const OPERATING_MODE: OperatingModeFlags = OperatingModeFlags::PowerDown;
    const BITS: u8 = 3;

    proof fn lemma_bits() {
    }
}

/// Configuration law: every setting can be read back from the register's
/// byte, at its own place; no two settings share a bit.
pub proof fn lemma_fields_recoverable<LowPower_: LowPower, SpiMode_: SpiMode, OperatingMode_: OperatingMode>()
    ensures
        (<CtrlReg3<LowPower_, SpiMode_, OperatingMode_> as WriteableRegister>::BYTE >> 5u8) & 1u8 == LowPower_::BITS,
        (<CtrlReg3<LowPower_, SpiMode_, OperatingMode_> as WriteableRegister>::BYTE >> 2u8) & 1u8 == SpiMode_::BITS,
        (<CtrlReg3<LowPower_, SpiMode_, OperatingMode_> as WriteableRegister>::BYTE >> 0u8) & 3u8 == OperatingMode_::BITS,
{
    LowPower_::lemma_bits();
    SpiMode_::lemma_bits();
    OperatingMode_::lemma_bits();
    let v0 = LowPower_::BITS;
    let v1 = SpiMode_::BITS;
    let v2 = OperatingMode_::BITS;
    assert(((v0 << 5u8 | v1 << 2u8 | v2 << 0u8) >> 5u8) & 1u8 == v0 && ((v0 << 5u8 | v1 << 2u8 | v2 << 0u8) >> 2u8) & 1u8 == v1 && ((v0 << 5u8 | v1 << 2u8 | v2 << 0u8) >> 0u8) & 3u8 == v2) by (bit_vector)
        requires
            v0 < 2u8,
            v1 < 2u8,
            v2 < 4u8,
    ;
}

} // verus!
