//! Configuration register `CtrlReg1` and its fields.

use vstd::prelude::*;
use core::marker::PhantomData;
use super::WriteableRegister;

verus! {

/// Register `CtrlReg1`, configured by its type parameters.
pub struct CtrlReg1<Temperature = TemperatureDisable, PerformanceXY = PerformanceLowXY, OutputDataRate = OutputDataRate10_0, FastOdr = FastOdrDisable, SelfTest = SelfTestDisable>(pub PhantomData<(Temperature, PerformanceXY, OutputDataRate, FastOdr, SelfTest,)>);

impl<Temperature_: Temperature, PerformanceXY_: PerformanceXY, OutputDataRate_: OutputDataRate, FastOdr_: FastOdr, SelfTest_: SelfTest> CtrlReg1<Temperature_, PerformanceXY_, OutputDataRate_, FastOdr_, SelfTest_> {
    /// The register, configured as its type says.
    pub fn new() -> (r: Self) {
        CtrlReg1(PhantomData)
    }
}

impl<Temperature_: Temperature, PerformanceXY_: PerformanceXY, OutputDataRate_: OutputDataRate, FastOdr_: FastOdr, SelfTest_: SelfTest> WriteableRegister for CtrlReg1<Temperature_, PerformanceXY_, OutputDataRate_, FastOdr_, SelfTest_> {
    const ADDRESS: u8 = 0x20;
    const BYTE: u8 = Temperature_::BITS << 7u8 | PerformanceXY_::BITS << 5u8 | OutputDataRate_::BITS << 2u8 | FastOdr_::BITS << 1u8 | SelfTest_::BITS << 0u8;
}

/// The settings of the temperature sensor.
#[derive(Debug, Clone, Copy, PartialEq, Eq)]
pub enum TemperatureFlags {
    Enable,
    Disable,
}

impl TemperatureFlags {
    /// The bits of the setting, before they are shifted into place.
    pub open spec fn spec_bits(self) -> u8 {
        match self {
            TemperatureFlags::Enable => 1u8,
            TemperatureFlags::Disable => 0u8,
        }
    }

    /// The bits of the setting, before they are shifted into place.
    pub fn bits(&self) -> (r: u8)
        ensures
            r == self.spec_bits(),
            r < 2,
    {
        match self {
            TemperatureFlags::Enable => 1,
            TemperatureFlags::Disable => 0,
        }
    }
}

/// A setting of the temperature sensor, chosen by type; it stands at bit 7 of `CtrlReg1`.
pub trait Temperature {
    const TEMPERATURE: TemperatureFlags;
    /// The bits of the setting.
    const BITS: u8;

    /// The bits are those of the setting, and they fit the field.
    proof fn lemma_bits()
        ensures
            Self::BITS == Self::TEMPERATURE.spec_bits(),
            Self::BITS < 2,
    ;
}

/// The temperature sensor: `Enable`.
pub struct TemperatureEnable;

impl Temperature for TemperatureEnable {
    const TEMPERATURE: TemperatureFlags = TemperatureFlags::Enable;
    const BITS: u8 = 1;

    proof fn lemma_bits() {
    }
}

/// The temperature sensor: `Disable`.
pub struct TemperatureDisable;

impl Temperature for TemperatureDisable {
    const TEMPERATURE: TemperatureFlags = TemperatureFlags::Disable;
    const BITS: u8 = 0;

    proof fn lemma_bits() {
    }
}

/// The settings of the operating mode of the X and Y axes.
#[derive(Debug, Clone, Copy, PartialEq, Eq)]
pub enum PerformanceXYFlags {
    LowPerformance,
    MediumPerformance,
    HighPerformance,
    UltraHighPerformance,
}

impl PerformanceXYFlags {
    /// The bits of the setting, before they are shifted into place.
    pub open spec fn spec_bits(self) -> u8 {
        match self {
            PerformanceXYFlags::LowPerformance => 0u8,
            PerformanceXYFlags::MediumPerformance => 1u8,
            PerformanceXYFlags::HighPerformance => 2u8,
            PerformanceXYFlags::UltraHighPerformance => 3u8,
        }
    }

    /// The bits of the setting, before they are shifted into place.
    pub fn bits(&self) -> (r: u8)
        ensures
            r == self.spec_bits(),
            r < 4,
    {
        match self {
            PerformanceXYFlags::LowPerformance => 0,
            PerformanceXYFlags::MediumPerformance => 1,
            PerformanceXYFlags::HighPerformance => 2,
            PerformanceXYFlags::UltraHighPerformance => 3,
        }
    }
}

/// A setting of the operating mode of the X and Y axes, chosen by type; it stands at bit 5 of `CtrlReg1`.
pub trait PerformanceXY {
    const PERFORMANCE_XY: PerformanceXYFlags;
    /// The bits of the setting.
    const BITS: u8;

    /// The bits are those of the setting, and they fit the field.
    proof fn lemma_bits()
        ensures
            Self::BITS == Self::PERFORMANCE_XY.spec_bits(),
            Self::BITS < 4,
    ;
}

/// The operating mode of the X and Y axes: `LowPerformance`.
pub struct PerformanceLowXY;

impl PerformanceXY for PerformanceLowXY {
    const PERFORMANCE_XY: PerformanceXYFlags = PerformanceXYFlags::LowPerformance;
    const BITS: u8 = 0;

    proof fn lemma_bits() {
    }
}

/// The operating mode of the X and Y axes: `MediumPerformance`.
pub struct PerformanceMediumXY;

impl PerformanceXY for PerformanceMediumXY {
    const PERFORMANCE_XY: PerformanceXYFlags = PerformanceXYFlags::MediumPerformance;
    const BITS: u8 = 1;

    proof fn lemma_bits() {
    }
}

/// The operating mode of the X and Y axes: `HighPerformance`.
pub struct PerformanceHighXY;

impl PerformanceXY for PerformanceHighXY {
    const PERFORMANCE_XY: PerformanceXYFlags = PerformanceXYFlags::HighPerformance;
    const BITS: u8 = 2;

    proof fn lemma_bits() {
    }
}

/// The operating mode of the X and Y axes: `UltraHighPerformance`.
pub struct PerformanceUltraHighXY;

impl PerformanceXY for PerformanceUltraHighXY {
    const PERFORMANCE_XY: PerformanceXYFlags = PerformanceXYFlags::UltraHighPerformance;
    const BITS: u8 = 3;

    proof fn lemma_bits() {
    }
}

/// The settings of the output data rate.
#[derive(Debug, Clone, Copy, PartialEq, Eq)]
pub enum OutputDataRateFlags {
    Rate0_625,
    Rate1_25,
    Rate2_5,
    Rate5_0,
    Rate10_0,
    Rate20_0,
    Rate40_0,
    Rate80_0,
}

impl OutputDataRateFlags {
    /// The bits of the setting, before they are shifted into place.
    pub open spec fn spec_bits(self) -> u8 {
        match self {
            OutputDataRateFlags::Rate0_625 => 0u8,
            OutputDataRateFlags::Rate1_25 => 1u8,
            OutputDataRateFlags::Rate2_5 => 2u8,
            OutputDataRateFlags::Rate5_0 => 3u8,
            OutputDataRateFlags::Rate10_0 => 4u8,
            OutputDataRateFlags::Rate20_0 => 5u8,
            OutputDataRateFlags::Rate40_0 => 6u8,
            OutputDataRateFlags::Rate80_0 => 7u8,
        }
    }

    /// The bits of the setting, before they are shifted into place.
    pub fn bits(&self) -> (r: u8)
        ensures
            r == self.spec_bits(),
            r < 8,
    {
        match self {
            OutputDataRateFlags::Rate0_625 => 0,
            OutputDataRateFlags::Rate1_25 => 1,
            OutputDataRateFlags::Rate2_5 => 2,
            OutputDataRateFlags::Rate5_0 => 3,
            OutputDataRateFlags::Rate10_0 => 4,
            OutputDataRateFlags::Rate20_0 => 5,
            OutputDataRateFlags::Rate40_0 => 6,
            OutputDataRateFlags::Rate80_0 => 7,
        }
    }
}

/// A setting of the output data rate, chosen by type; it stands at bit 2 of `CtrlReg1`.
pub trait OutputDataRate {
    const ODR: OutputDataRateFlags;
    /// The bits of the setting.
    const BITS: u8;

    /// The bits are those of the setting, and they fit the field.
    proof fn lemma_bits()
        ensures
            Self::BITS == Self::ODR.spec_bits(),
            Self::BITS < 8,
    ;
}

/// The output data rate: `Rate0_625`.
pub struct OutputDataRate0_625;

impl OutputDataRate for OutputDataRate0_625 {
    const ODR: OutputDataRateFlags = OutputDataRateFlags::Rate0_625;
    const BITS: u8 = 0;

    proof fn lemma_bits() {
    }
}

/// The output data rate: `Rate1_25`.
pub struct OutputDataRate1_25;

impl OutputDataRate for OutputDataRate1_25 {
    const ODR: OutputDataRateFlags = OutputDataRateFlags::Rate1_25;
    const BITS: u8 = 1;

    proof fn lemma_bits() {
    }
}

/// The output data rate: `Rate2_5`.
pub struct OutputDataRate2_5;

impl OutputDataRate for OutputDataRate2_5 {
    const ODR: OutputDataRateFlags = OutputDataRateFlags::Rate2_5;
    const BITS: u8 = 2;

    proof fn lemma_bits() {
    }
}

/// The output data rate: `Rate5_0`.
pub struct OutputDataRate5_0;

impl OutputDataRate for OutputDataRate5_0 {
    const ODR: OutputDataRateFlags = OutputDataRateFlags::Rate5_0;
    const BITS: u8 = 3;

    proof fn lemma_bits() {
    }
}

/// The output data rate: `Rate10_0`.
pub struct OutputDataRate10_0;

impl OutputDataRate for OutputDataRate10_0 {
    const ODR: OutputDataRateFlags = OutputDataRateFlags::Rate10_0;
    const BITS: u8 = 4;

    proof fn lemma_bits() {
    }
}

/// The output data rate: `Rate20_0`.
pub struct OutputDataRate20_0;

impl OutputDataRate for OutputDataRate20_0 {
    const ODR: OutputDataRateFlags = OutputDataRateFlags::Rate20_0;
    const BITS: u8 = 5;

    proof fn lemma_bits() {
    }
}

/// The output data rate: `Rate40_0`.
pub struct OutputDataRate40_0;

impl OutputDataRate for OutputDataRate40_0 {
    const ODR: OutputDataRateFlags = OutputDataRateFlags::Rate40_0;
    const BITS: u8 = 6;

    proof fn lemma_bits() {
    }
}

/// The output data rate: `Rate80_0`.
pub struct OutputDataRate80_0;

impl OutputDataRate for OutputDataRate80_0 {
    const ODR: OutputDataRateFlags = OutputDataRateFlags::Rate80_0;
    const BITS: u8 = 7;

    proof fn lemma_bits() {
    }
}

/// The settings of data rates above 80 Hz.
#[derive(Debug, Clone, Copy, PartialEq, Eq)]
pub enum FastOdrFlags {
    Enable,
    Disable,
}

impl FastOdrFlags {
    /// The bits of the setting, before they are shifted into place.
    pub open spec fn spec_bits(self) -> u8 {
        match self {
            FastOdrFlags::Enable => 1u8,
            FastOdrFlags::Disable => 0u8,
        }
    }

    /// The bits of the setting, before they are shifted into place.
    pub fn bits(&self) -> (r: u8)
        ensures
            r == self.spec_bits(),
            r < 2,
    {
        match self {
            FastOdrFlags::Enable => 1,
            FastOdrFlags::Disable => 0,
        }
    }
}

/// A setting of data rates above 80 Hz, chosen by type; it stands at bit 1 of `CtrlReg1`.
pub trait FastOdr {
    const FAST_ODR: FastOdrFlags;
    /// The bits of the setting.
    const BITS: u8;

    /// The bits are those of the setting, and they fit the field.
    proof fn lemma_bits()
        ensures
            Self::BITS == Self::FAST_ODR.spec_bits(),
            Self::BITS < 2,
    ;
}

/// Data rates above 80 Hz: `Enable`.
pub struct FastOdrEnable;

impl FastOdr for FastOdrEnable {
    const FAST_ODR: FastOdrFlags = FastOdrFlags::Enable;
    const BITS: u8 = 1;

    proof fn lemma_bits() {
    }
}

/// Data rates above 80 Hz: `Disable`.
pub struct FastOdrDisable;

impl FastOdr for FastOdrDisable {
    const FAST_ODR: FastOdrFlags = FastOdrFlags::Disable;
    const BITS: u8 = 0;

    proof fn lemma_bits() {
    }
}

/// The settings of the self test.
#[derive(Debug, Clone, Copy, PartialEq, Eq)]
pub enum SelfTestFlags {
    Enable,
    Disable,
}

impl SelfTestFlags {
    /// The bits of the setting, before they are shifted into place.
    pub open spec fn spec_bits(self) -> u8 {
        match self {
            SelfTestFlags::Enable => 1u8,
            SelfTestFlags::Disable => 0u8,
        }
    }

    /// The bits of the setting, before they are shifted into place.
    pub fn bits(&self) -> (r: u8)
        ensures
            r == self.spec_bits(),
            r < 2,
    {
        match self {
            SelfTestFlags::Enable => 1,
            SelfTestFlags::Disable => 0,
        }
    }
}

/// A setting of the self test, chosen by type; it stands at bit 0 of `CtrlReg1`.
pub trait SelfTest {
    const SELF_TEST: SelfTestFlags;
    /// The bits of the setting.
    const BITS: u8;

    /// The bits are those of the setting, and they fit the field.
    proof fn lemma_bits()
        ensures
            Self::BITS == Self::SELF_TEST.spec_bits(),
            Self::BITS < 2,
    ;
}

/// The self test: `Enable`.
pub struct SelfTestEnable;

impl SelfTest for SelfTestEnable {
    const SELF_TEST: SelfTestFlags = SelfTestFlags::Enable;
    const BITS: u8 = 1;

    proof fn lemma_bits() {
    }
}

/// The self test: `Disable`.
pub struct SelfTestDisable;

impl SelfTest for SelfTestDisable {
    const SELF_TEST: SelfTestFlags = SelfTestFlags::Disable;
    const BITS: u8 = 0;

    proof fn lemma_bits() {
    }
}

/// Configuration law: every setting can be read back from the register's
/// byte, at its own place; no two settings share a bit.
pub proof fn lemma_fields_recoverable<Temperature_: Temperature, PerformanceXY_: PerformanceXY, OutputDataRate_: OutputDataRate, FastOdr_: FastOdr, SelfTest_: SelfTest>()
    ensures
        (<CtrlReg1<Temperature_, PerformanceXY_, OutputDataRate_, FastOdr_, SelfTest_> as WriteableRegister>::BYTE >> 7u8) & 1u8 == Temperature_::BITS,
        (<CtrlReg1<Temperature_, PerformanceXY_, OutputDataRate_, FastOdr_, SelfTest_> as WriteableRegister>::BYTE >> 5u8) & 3u8 == PerformanceXY_::BITS,
        (<CtrlReg1<Temperature_, PerformanceXY_, OutputDataRate_, FastOdr_, SelfTest_> as WriteableRegister>::BYTE >> 2u8) & 7u8 == OutputDataRate_::BITS,
        (<CtrlReg1<Temperature_, PerformanceXY_, OutputDataRate_, FastOdr_, SelfTest_> as WriteableRegister>::BYTE >> 1u8) & 1u8 == FastOdr_::BITS,
        (<CtrlReg1<Temperature_, PerformanceXY_, OutputDataRate_, FastOdr_, SelfTest_> as WriteableRegister>::BYTE >> 0u8) & 1u8 == SelfTest_::BITS,
{
    Temperature_::lemma_bits();
    PerformanceXY_::lemma_bits();
    OutputDataRate_::lemma_bits();
    FastOdr_::lemma_bits();
    SelfTest_::lemma_bits();
    let v0 = Temperature_::BITS;
    let v1 = PerformanceXY_::BITS;
    let v2 = OutputDataRate_::BITS;
    let v3 = FastOdr_::BITS;
    let v4 = SelfTest_::BITS;
    assert(((v0 << 7u8 | v1 << 5u8 | v2 << 2u8 | v3 << 1u8 | v4 << 0u8) >> 7u8) & 1u8 == v0 && ((v0 << 7u8 | v1 << 5u8 | v2 << 2u8 | v3 << 1u8 | v4 << 0u8) >> 5u8) & 3u8 == v1 && ((v0 << 7u8 | v1 << 5u8 | v2 << 2u8 | v3 << 1u8 | v4 << 0u8) >> 2u8) & 7u8 == v2 && ((v0 << 7u8 | v1 << 5u8 | v2 << 2u8 | v3 << 1u8 | v4 << 0u8) >> 1u8) & 1u8 == v3 && ((v0 << 7u8 | v1 << 5u8 | v2 << 2u8 | v3 << 1u8 | v4 << 0u8) >> 0u8) & 1u8 == v4) by (bit_vector)
        requires
            v0 < 2u8,
            v1 < 4u8,
            v2 < 8u8,
            v3 < 2u8,
            v4 < 2u8,
    ;
}

} // verus!
