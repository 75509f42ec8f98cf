//! Configuration register `CtrlReg2` and its fields.

use vstd::prelude::*;
use core::marker::PhantomData;
use super::WriteableRegister;

verus! {

/// Register `CtrlReg2`, configured by its type parameters.
pub struct CtrlReg2<Scale = Scale4Gauss, Reboot = RebootNormalMode, SoftReset = SoftResetNormalMode>(pub PhantomData<(Scale, Reboot, SoftReset,)>);

impl<Scale_: Scale, Reboot_: Reboot, SoftReset_: SoftReset> CtrlReg2<Scale_, Reboot_, SoftReset_> {
    /// The register, configured as its type says.
    pub fn new() -> (r: Self) {
        CtrlReg2(PhantomData)
    }
}

impl<Scale_: Scale, Reboot_: Reboot, SoftReset_: SoftReset> WriteableRegister for CtrlReg2<Scale_, Reboot_, SoftReset_> {
    const ADDRESS: u8 = 0x21;
    const BYTE: u8 = Scale_::BITS << 5u8 | Reboot_::BITS << 3u8 | SoftReset_::BITS << 2u8;
}

/// The settings of the full-scale range.
#[derive(Debug, Clone, Copy, PartialEq, Eq)]
pub enum ScaleFlags {
    Scale4Gauss,
    Scale8Gauss,
    Scale12Gauss,
    Scale16Gauss,
}

impl ScaleFlags {
    /// The bits of the setting, before they are shifted into place.
    pub open spec fn spec_bits(self) -> u8 {
        match self {
            ScaleFlags::Scale4Gauss => 0u8,
            ScaleFlags::Scale8Gauss => 1u8,
            ScaleFlags::Scale12Gauss => 2u8,
            ScaleFlags::Scale16Gauss => 3u8,
        }
    }

    /// The bits of the setting, before they are shifted into place.
    pub fn bits(&self) -> (r: u8)
        ensures
            r == self.spec_bits(),
            r < 4,
    {
        match self {
            ScaleFlags::Scale4Gauss => 0,
            ScaleFlags::Scale8Gauss => 1,
            ScaleFlags::Scale12Gauss => 2,
            ScaleFlags::Scale16Gauss => 3,
        }
    }
}

/// A setting of the full-scale range, chosen by type; it stands at bit 5 of `CtrlReg2`.
pub trait Scale {
    const SCALE: ScaleFlags;
    /// The bits of the setting.
    const BITS: u8;
    /// Output counts per gauss in this range.
    const COUNTS_PER_GAUSS: u32;

    /// The bits are those of the setting, and they fit the field.
    proof fn lemma_bits()
        ensures
            Self::BITS == Self::SCALE.spec_bits(),
            Self::BITS < 4,
    ;
}

/// The full-scale range: `Scale4Gauss`.
pub struct Scale4Gauss;

impl Scale for Scale4Gauss {
    const SCALE: ScaleFlags = ScaleFlags::Scale4Gauss;
    const BITS: u8 = 0;
    const COUNTS_PER_GAUSS: u32 = 6842;

    proof fn lemma_bits() {
    }
}

/// The full-scale range: `Scale8Gauss`.
pub struct Scale8Gauss;

impl Scale for Scale8Gauss {
    const SCALE: ScaleFlags = ScaleFlags::Scale8Gauss;
    const BITS: u8 = 1;
    const COUNTS_PER_GAUSS: u32 = 3421;

    proof fn lemma_bits() {
    }
}

/// The full-scale range: `Scale12Gauss`.
pub struct Scale12Gauss;

impl Scale for Scale12Gauss {
    const SCALE: ScaleFlags = ScaleFlags::Scale12Gauss;
    const BITS: u8 = 2;
    const COUNTS_PER_GAUSS: u32 = 2281;

    proof fn lemma_bits() {
    }
}

/// The full-scale range: `Scale16Gauss`.
pub struct Scale16Gauss;

impl Scale for Scale16Gauss {
    const SCALE: ScaleFlags = ScaleFlags::Scale16Gauss;
    const BITS: u8 = 3;
    const COUNTS_PER_GAUSS: u32 = 1711;

    proof fn lemma_bits() {
    }
}

/// The settings of the reboot of the memory content.
#[derive(Debug, Clone, Copy, PartialEq, Eq)]
pub enum RebootFlags {
    NormalMode,
    Reboot,
}

impl RebootFlags {
    /// The bits of the setting, before they are shifted into place.
    pub open spec fn spec_bits(self) -> u8 {
        match self {
            RebootFlags::NormalMode => 0u8,
            RebootFlags::Reboot => 1u8,
        }
    }

    /// The bits of the setting, before they are shifted into place.
    pub fn bits(&self) -> (r: u8)
        ensures
            r == self.spec_bits(),
            r < 2,
    {
        match self {
            RebootFlags::NormalMode => 0,
            RebootFlags::Reboot => 1,
        }
    }
}

/// A setting of the reboot of the memory content, chosen by type; it stands at bit 3 of `CtrlReg2`.
pub trait Reboot {
    const REBOOT: RebootFlags;
    /// The bits of the setting.
    const BITS: u8;

    /// The bits are those of the setting, and they fit the field.
    proof fn lemma_bits()
        ensures
            Self::BITS == Self::REBOOT.spec_bits(),
            Self::BITS < 2,
    ;
}

/// The reboot of the memory content: `NormalMode`.
pub struct RebootNormalMode;

impl Reboot for RebootNormalMode {
    const REBOOT: RebootFlags = RebootFlags::NormalMode;
    const BITS: u8 = 0;

    proof fn lemma_bits() {
    }
}

/// The reboot of the memory content: `Reboot`.
pub struct RebootMemory;

impl Reboot for RebootMemory {
    const REBOOT: RebootFlags = RebootFlags::Reboot;
    const BITS: u8 = 1;

    proof fn lemma_bits() {
    }
}

/// The settings of the reset of the registers.
#[derive(Debug, Clone, Copy, PartialEq, Eq)]
pub enum SoftResetFlags {
    NormalMode,
    Reset,
}

impl SoftResetFlags {
    /// The bits of the setting, before they are shifted into place.
    pub open spec fn spec_bits(self) -> u8 {
        match self {
            SoftResetFlags::NormalMode => 0u8,
            SoftResetFlags::Reset => 1u8,
        }
    }

    /// The bits of the setting, before they are shifted into place.
    pub fn bits(&self) -> (r: u8)
        ensures
            r == self.spec_bits(),
            r < 2,
    {
        match self {
            SoftResetFlags::NormalMode => 0,
            SoftResetFlags::Reset => 1,
        }
    }
}

/// A setting of the reset of the registers, chosen by type; it stands at bit 2 of `CtrlReg2`.
pub trait SoftReset {
    const SOFT_RESET: SoftResetFlags;
    /// The bits of the setting.
    const BITS: u8;

    /// The bits are those of the setting, and they fit the field.
    proof fn lemma_bits()
        ensures
            Self::BITS == Self::SOFT_RESET.spec_bits(),
            Self::BITS < 2,
    ;
}

/// The reset of the registers: `NormalMode`.
pub struct SoftResetNormalMode;

impl SoftReset for SoftResetNormalMode {
    const SOFT_RESET: SoftResetFlags = SoftResetFlags::NormalMode;
    const BITS: u8 = 0;

    proof fn lemma_bits() {
    }
}

/// The reset of the registers: `Reset`.
pub struct SoftResetRegisters;

impl SoftReset for SoftResetRegisters {
    const SOFT_RESET: SoftResetFlags = SoftResetFlags::Reset;
    const BITS: u8 = 1;

    proof fn lemma_bits() {
    }
}

/// Configuration law: every setting can be read back from the register's
/// byte, at its own place; no two settings share a bit.
pub proof fn lemma_fields_recoverable<Scale_: Scale, Reboot_: Reboot, SoftReset_: SoftReset>()
    ensures
        (<CtrlReg2<Scale_, Reboot_, SoftReset_> as WriteableRegister>::BYTE >> 5u8) & 3u8 == Scale_::BITS,
        (<CtrlReg2<Scale_, Reboot_, SoftReset_> as WriteableRegister>::BYTE >> 3u8) & 1u8 == Reboot_::BITS,
        (<CtrlReg2<Scale_, Reboot_, SoftReset_> as WriteableRegister>::BYTE >> 2u8) & 1u8 == SoftReset_::BITS,
{
    Scale_::lemma_bits();
    Reboot_::lemma_bits();
    SoftReset_::lemma_bits();
    let v0 = Scale_::BITS;
    let v1 = Reboot_::BITS;
    let v2 = SoftReset_::BITS;
    assert(((v0 << 5u8 | v1 << 3u8 | v2 << 2u8) >> 5u8) & 3u8 == v0 && ((v0 << 5u8 | v1 << 3u8 | v2 << 2u8) >> 3u8) & 1u8 == v1 && ((v0 << 5u8 | v1 << 3u8 | v2 << 2u8) >> 2u8) & 1u8 == v2) by (bit_vector)
        requires
            v0 < 4u8,
            v1 < 2u8,
            v2 < 2u8,
    ;
}

} // verus!
