//! The status register: which axes have new data, and which overran.

use vstd::prelude::*;
use super::SimpleRegister;

verus! {

/// The status register.
pub struct StatusReg;

impl SimpleRegister for StatusReg {
    const ADDRESS: u8 = 0x27;
    type Data = StatusFlags;
}

/// The flags that the register byte `bits` stands for.
pub closed spec fn status_flags_of(bits: u8) -> StatusFlags {
    StatusFlags { bits }
}

/// The bits of the status register.
#[derive(Debug, Clone, Copy, PartialEq, Eq)]
pub struct StatusFlags {
    bits: u8,
}

impl StatusFlags {
    /// The register's bits.
    pub closed spec fn spec_bits(self) -> u8 {
        self.bits
    }

    /// New data overwrote unread data on some axis.
    pub fn zyxor() -> (r: Self) ensures r.spec_bits() == 0b1000_0000u8 { StatusFlags { bits: 0b1000_0000 } }
    /// New Z data overwrote unread Z data.
    pub fn zor() -> (r: Self) ensures r.spec_bits() == 0b0100_0000u8 { StatusFlags { bits: 0b0100_0000 } }
    /// New Y data overwrote unread Y data.
    pub fn yor() -> (r: Self) ensures r.spec_bits() == 0b0010_0000u8 { StatusFlags { bits: 0b0010_0000 } }
    /// New X data overwrote unread X data.
    pub fn xor() -> (r: Self) ensures r.spec_bits() == 0b0001_0000u8 { StatusFlags { bits: 0b0001_0000 } }
    /// New data is available on some axis.
    pub fn zyxda() -> (r: Self) ensures r.spec_bits() == 0b0000_1000u8 { StatusFlags { bits: 0b0000_1000 } }
    /// New Z data is available.
    pub fn zda() -> (r: Self) ensures r.spec_bits() == 0b0000_0100u8 { StatusFlags { bits: 0b0000_0100 } }
    /// New Y data is available.
    pub fn yda() -> (r: Self) ensures r.spec_bits() == 0b0000_0010u8 { StatusFlags { bits: 0b0000_0010 } }
    /// New X data is available.
    pub fn xda() -> (r: Self) ensures r.spec_bits() == 0b0000_0001u8 { StatusFlags { bits: 0b0000_0001 } }

    /// The flags that `bits` holds; every bit of the register is a flag.
    pub fn from_bits_truncate(bits: u8) -> (r: Self)
        ensures
            r.spec_bits() == bits,
    {
        StatusFlags { bits }
    }

    /// The register's bits.
    pub fn bits(&self) -> (r: u8)
        ensures
            r == self.spec_bits(),
    {
        self.bits
    }

    /// Whether every flag of `other` is set.
    pub fn contains(&self, other: StatusFlags) -> (r: bool)
        ensures
            r == (self.spec_bits() & other.spec_bits() == other.spec_bits()),
    {
        self.bits & other.bits == other.bits
    }
}

impl From<u8> for StatusFlags {
    fn from(value: u8) -> (r: Self) {
        StatusFlags::from_bits_truncate(value)
    }
}

impl vstd::std_specs::convert::FromSpecImpl<u8> for StatusFlags {
    open spec fn obeys_from_spec() -> bool {
        true
    }

    open spec fn from_spec(value: u8) -> Self {
        status_flags_of(value)
    }
}

} // verus!
