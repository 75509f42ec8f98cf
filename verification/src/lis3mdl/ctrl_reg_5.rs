//! Configuration register `CtrlReg5` and its fields.

use vstd::prelude::*;
use core::marker::PhantomData;
use super::WriteableRegister;

verus! {

/// Register `CtrlReg5`, configured by its type parameters.
pub struct CtrlReg5<FastRead = FastReadDisable, BlockDataUpdate = BlockDataUpdateDisable>(pub PhantomData<(FastRead, BlockDataUpdate,)>);

impl<FastRead_: FastRead, BlockDataUpdate_: BlockDataUpdate> CtrlReg5<FastRead_, BlockDataUpdate_> {
    /// The register, configured as its type says.
    pub fn new() -> (r: Self) {
        CtrlReg5(PhantomData)
    }
}

impl<FastRead_: FastRead, BlockDataUpdate_: BlockDataUpdate> WriteableRegister for CtrlReg5<FastRead_, BlockDataUpdate_> {
    const ADDRESS: u8 = 0x24;
    const BYTE: u8 = FastRead_::BITS << 7u8 | BlockDataUpdate_::BITS << 6u8;
}

/// The settings of reading only the high bytes.
#[derive(Debug, Clone, Copy, PartialEq, Eq)]
pub enum FastReadFlags {
    Enable,
    Disable,
}

impl FastReadFlags {
    /// The bits of the setting, before they are shifted into place.
    pub open spec fn spec_bits(self) -> u8 {
        match self {
            FastReadFlags::Enable => 1u8,
            FastReadFlags::Disable => 0u8,
        }
    }

    /// The bits of the setting, before they are shifted into place.
    pub fn bits(&self) -> (r: u8)
        ensures
            r == self.spec_bits(),
            r < 2,
    {
        match self {
            FastReadFlags::Enable => 1,
            FastReadFlags::Disable => 0,
        }
    }
}

/// A setting of reading only the high bytes, chosen by type; it stands at bit 7 of `CtrlReg5`.
pub trait FastRead {
    const FAST_READ: FastReadFlags;
    /// The bits of the setting.
    const BITS: u8;

    /// The bits are those of the setting, and they fit the field.
    proof fn lemma_bits()
        ensures
            Self::BITS == Self::FAST_READ.spec_bits(),
            Self::BITS < 2,
    ;
}

/// Reading only the high bytes: `Enable`.
pub struct FastReadEnable;

impl FastRead for FastReadEnable {
    const FAST_READ: FastReadFlags = FastReadFlags::Enable;
    const BITS: u8 = 1;

    proof fn lemma_bits() {
    }
}

/// Reading only the high bytes: `Disable`.
pub struct FastReadDisable;

impl FastRead for FastReadDisable {
    const FAST_READ: FastReadFlags = FastReadFlags::Disable;
    const BITS: u8 = 0;

    proof fn lemma_bits() {
    }
}

/// The settings of holding the output registers until both bytes were read.
#[derive(Debug, Clone, Copy, PartialEq, Eq)]
pub enum BlockDataUpdateFlags {
    Enable,
    Disable,
}

impl BlockDataUpdateFlags {
    /// The bits of the setting, before they are shifted into place.
    pub open spec fn spec_bits(self) -> u8 {
        match self {
            BlockDataUpdateFlags::Enable => 1u8,
            BlockDataUpdateFlags::Disable => 0u8,
        }
    }

    /// The bits of the setting, before they are shifted into place.
    pub fn bits(&self) -> (r: u8)
        ensures
            r == self.spec_bits(),
            r < 2,
    {
        match self {
            BlockDataUpdateFlags::Enable => 1,
            BlockDataUpdateFlags::Disable => 0,
        }
    }
}

/// A setting of holding the output registers until both bytes were read, chosen by type; it stands at bit 6 of `CtrlReg5`.
pub trait BlockDataUpdate {
    const BLOCK_DATA_UPDATE: BlockDataUpdateFlags;
    /// The bits of the setting.
    const BITS: u8;

    /// The bits are those of the setting, and they fit the field.
    proof fn lemma_bits()
        ensures
            Self::BITS == Self::BLOCK_DATA_UPDATE.spec_bits(),
            Self::BITS < 2,
    ;
}

/// Holding the output registers until both bytes were read: `Enable`.
pub struct BlockDataUpdateEnable;

impl BlockDataUpdate for BlockDataUpdateEnable {
    const BLOCK_DATA_UPDATE: BlockDataUpdateFlags = BlockDataUpdateFlags::Enable;
    const BITS: u8 = 1;

    proof fn lemma_bits() {
    }
}

/// Holding the output registers until both bytes were read: `Disable`.
pub struct BlockDataUpdateDisable;

impl BlockDataUpdate for BlockDataUpdateDisable {
    const BLOCK_DATA_UPDATE: BlockDataUpdateFlags = BlockDataUpdateFlags::Disable;
    const BITS: u8 = 0;

    proof fn lemma_bits() {
    }
}

/// Configuration law: every setting can be read back from the register's
/// byte, at its own place; no two settings share a bit.
pub proof fn lemma_fields_recoverable<FastRead_: FastRead, BlockDataUpdate_: BlockDataUpdate>()
    ensures
        (<CtrlReg5<FastRead_, BlockDataUpdate_> as WriteableRegister>::BYTE >> 7u8) & 1u8 == FastRead_::BITS,
        (<CtrlReg5<FastRead_, BlockDataUpdate_> as WriteableRegister>::BYTE >> 6u8) & 1u8 == BlockDataUpdate_::BITS,
{
    FastRead_::lemma_bits();
    BlockDataUpdate_::lemma_bits();
    let v0 = FastRead_::BITS;
    let v1 = BlockDataUpdate_::BITS;
    assert(((v0 << 7u8 | v1 << 6u8) >> 7u8) & 1u8 == v0 && ((v0 << 7u8 | v1 << 6u8) >> 6u8) & 1u8 == v1) by (bit_vector)
        requires
            v0 < 2u8,
            v1 < 2u8,
    ;
}

} // verus!
