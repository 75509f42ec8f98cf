//! Configuration register `CtrlReg4` and its fields.

use vstd::prelude::*;
use core::marker::PhantomData;
use super::WriteableRegister;

verus! {

/// Register `CtrlReg4`, configured by its type parameters.
pub struct CtrlReg4<PerformanceZ = PerformanceLowZ, Endianness = EndiannessBig>(pub PhantomData<(PerformanceZ, Endianness,)>);

impl<PerformanceZ_: PerformanceZ, Endianness_: Endianness> CtrlReg4<PerformanceZ_, Endianness_> {
    /// The register, configured as its type says.
    pub fn new() -> (r: Self) {
        CtrlReg4(PhantomData)
    }
}

impl<PerformanceZ_: PerformanceZ, Endianness_: Endianness> WriteableRegister for CtrlReg4<PerformanceZ_, Endianness_> {
    const ADDRESS: u8 = 0x23;
    const BYTE: u8 = PerformanceZ_::BITS << 2u8 | Endianness_::BITS << 1u8;
}

/// The settings of the operating mode of the Z axis.
#[derive(Debug, Clone, Copy, PartialEq, Eq)]
pub enum PerformanceZFlags {
    LowPerformance,
    MediumPerformance,
    HighPerformance,
    UltraHighPerformance,
}

impl PerformanceZFlags {
    /// The bits of the setting, before they are shifted into place.
    pub open spec fn spec_bits(self) -> u8 {
        match self {
            PerformanceZFlags::LowPerformance => 0u8,
            PerformanceZFlags::MediumPerformance => 1u8,
            PerformanceZFlags::HighPerformance => 2u8,
            PerformanceZFlags::UltraHighPerformance => 3u8,
        }
    }

    /// The bits of the setting, before they are shifted into place.
    pub fn bits(&self) -> (r: u8)
        ensures
            r == self.spec_bits(),
            r < 4,
    {
        match self {
            PerformanceZFlags::LowPerformance => 0,
            PerformanceZFlags::MediumPerformance => 1,
            PerformanceZFlags::HighPerformance => 2,
            PerformanceZFlags::UltraHighPerformance => 3,
        }
    }
}

/// A setting of the operating mode of the Z axis, chosen by type; it stands at bit 2 of `CtrlReg4`.
pub trait PerformanceZ {
    const PERFORMANCE_Z: PerformanceZFlags;
    /// The bits of the setting.
    const BITS: u8;

    /// The bits are those of the setting, and they fit the field.
    proof fn lemma_bits()
        ensures
            Self::BITS == Self::PERFORMANCE_Z.spec_bits(),
            Self::BITS < 4,
    ;
}

/// The operating mode of the Z axis: `LowPerformance`.
pub struct PerformanceLowZ;

impl PerformanceZ for PerformanceLowZ {
    const PERFORMANCE_Z: PerformanceZFlags = PerformanceZFlags::LowPerformance;
    const BITS: u8 = 0;

    proof fn lemma_bits() {
    }
}

/// The operating mode of the Z axis: `MediumPerformance`.
pub struct PerformanceMediumZ;

impl PerformanceZ for PerformanceMediumZ {
    const PERFORMANCE_Z: PerformanceZFlags = PerformanceZFlags::MediumPerformance;
    const BITS: u8 = 1;

    proof fn lemma_bits() {
    }
}

/// The operating mode of the Z axis: `HighPerformance`.
pub struct PerformanceHighZ;

impl PerformanceZ for PerformanceHighZ {
    const PERFORMANCE_Z: PerformanceZFlags = PerformanceZFlags::HighPerformance;
    const BITS: u8 = 2;

    proof fn lemma_bits() {
    }
}

/// The operating mode of the Z axis: `UltraHighPerformance`.
pub struct PerformanceUltraHighZ;

impl PerformanceZ for PerformanceUltraHighZ {
    const PERFORMANCE_Z: PerformanceZFlags = PerformanceZFlags::UltraHighPerformance;
    const BITS: u8 = 3;

    proof fn lemma_bits() {
    }
}

/// The settings of the byte order of the output registers.
#[derive(Debug, Clone, Copy, PartialEq, Eq)]
pub enum EndiannessFlags {
    BigEndian,
    LittleEndian,
}

impl EndiannessFlags {
    /// The bits of the setting, before they are shifted into place.
    pub open spec fn spec_bits(self) -> u8 {
        match self {
            EndiannessFlags::BigEndian => 0u8,
            EndiannessFlags::LittleEndian => 1u8,
        }
    }

    /// The bits of the setting, before they are shifted into place.
    pub fn bits(&self) -> (r: u8)
        ensures
            r == self.spec_bits(),
            r < 2,
    {
        match self {
            EndiannessFlags::BigEndian => 0,
            EndiannessFlags::LittleEndian => 1,
        }
    }
}

/// A setting of the byte order of the output registers, chosen by type; it stands at bit 1 of `CtrlReg4`.
pub trait Endianness {
    const ENDIANNESS: EndiannessFlags;
    /// The bits of the setting.
    const BITS: u8;

    /// The bits are those of the setting, and they fit the field.
    proof fn lemma_bits()
        ensures
            Self::BITS == Self::ENDIANNESS.spec_bits(),
            Self::BITS < 2,
    ;
}

/// The byte order of the output registers: `BigEndian`.
pub struct EndiannessBig;

impl Endianness for EndiannessBig {
    const ENDIANNESS: EndiannessFlags = EndiannessFlags::BigEndian;
    const BITS: u8 = 0;

    proof fn lemma_bits() {
    }
}

/// The byte order of the output registers: `LittleEndian`.
pub struct EndiannessLittle;

impl Endianness for EndiannessLittle {
    const ENDIANNESS: EndiannessFlags = EndiannessFlags::LittleEndian;
    const BITS: u8 = 1;

    proof fn lemma_bits() {
    }
}

/// Configuration law: every setting can be read back from the register's
/// byte, at its own place; no two settings share a bit.
pub proof fn lemma_fields_recoverable<PerformanceZ_: PerformanceZ, Endianness_: Endianness>()
    ensures
        (<CtrlReg4<PerformanceZ_, Endianness_> as WriteableRegister>::BYTE >> 2u8) & 3u8 == PerformanceZ_::BITS,
        (<CtrlReg4<PerformanceZ_, Endianness_> as WriteableRegister>::BYTE >> 1u8) & 1u8 == Endianness_::BITS,
{
    PerformanceZ_::lemma_bits();
    Endianness_::lemma_bits();
    let v0 = PerformanceZ_::BITS;
    let v1 = Endianness_::BITS;
    assert(((v0 << 2u8 | v1 << 1u8) >> 2u8) & 3u8 == v0 && ((v0 << 2u8 | v1 << 1u8) >> 1u8) & 1u8 == v1) by (bit_vector)
        requires
            v0 < 4u8,
            v1 < 2u8,
    ;
}

} // verus!
