//! The output registers: the field measured on each axis, and the
//! temperature.

use vstd::prelude::*;
use core::marker::PhantomData;
use super::{ReadableRegister, SimpleRegister};
use super::ctrl_reg_2::Scale;
use super::ctrl_reg_4::{Endianness, EndiannessFlags};
use crate::peripheral::{Device, DeviceError, Transfer};

verus! {

/// The signed 16-bit number with high byte `hi` and low byte `lo`.
pub open spec fn i16_of(hi: u8, lo: u8) -> int {
    let u = hi as int * 256 + lo as int;
    if u < 32768 { u } else { u - 65536 }
}

/// The signed 16-bit number with high byte `hi` and low byte `lo`.
pub fn i16_from_bytes(hi: u8, lo: u8) -> (r: i16)
    ensures
        r as int == i16_of(hi, lo),
{
    let u: u32 = hi as u32 * 256 + lo as u32;
    if u < 32768 {
        u as i16
    } else {
        (u as i32 - 65536) as i16
    }
}

/// The raw field measured on each axis, in output counts.
#[derive(Debug, Clone, Copy, PartialEq, Eq)]
pub struct RawMagFrame {
    pub x: i16,
    pub y: i16,
    pub z: i16,
}

/// The value that the byte pair at `i` of an output block stands for, in the
/// given byte order.
pub open spec fn axis_value(block: Seq<u8>, i: int, little_endian: bool) -> int {
    if little_endian {
        i16_of(block[2 * i + 1], block[2 * i])
    } else {
        i16_of(block[2 * i], block[2 * i + 1])
    }
}

/// Whether `frame` holds the three values of output block `block` in the
/// given byte order.
pub open spec fn frame_of_block(frame: RawMagFrame, block: Seq<u8>, endianness: EndiannessFlags) -> bool {
    let little = endianness == EndiannessFlags::LittleEndian;
    &&& frame.x as int == axis_value(block, 0, little)
    &&& frame.y as int == axis_value(block, 1, little)
    &&& frame.z as int == axis_value(block, 2, little)
}

/// Decodes an output block of six bytes: X, Y and Z in the given byte order.
pub fn decode_block(block: &[u8], endianness: EndiannessFlags) -> (r: RawMagFrame)
    requires
        block@.len() == 6,
    ensures
        r.x as int == axis_value(block@, 0, endianness == EndiannessFlags::LittleEndian),
        r.y as int == axis_value(block@, 1, endianness == EndiannessFlags::LittleEndian),
        r.z as int == axis_value(block@, 2, endianness == EndiannessFlags::LittleEndian),
{
    match endianness {
        EndiannessFlags::BigEndian => RawMagFrame {
            x: i16_from_bytes(block[0], block[1]),
            y: i16_from_bytes(block[2], block[3]),
            z: i16_from_bytes(block[4], block[5]),
        },
        EndiannessFlags::LittleEndian => RawMagFrame {
            x: i16_from_bytes(block[1], block[0]),
            y: i16_from_bytes(block[3], block[2]),
            z: i16_from_bytes(block[5], block[4]),
        },
    }
}

/// The output block: X, Y and Z, read in one transfer, in the byte order and
/// range that the type parameters configure.
pub struct OutXYZ<Scale, Endianness>(pub PhantomData<(Scale, Endianness)>);

impl<Scale_: Scale, Endianness_: Endianness> ReadableRegister for OutXYZ<Scale_, Endianness_> {
    const ADDRESS: u8 = 0x28;
    type Data = RawMagFrame;

    fn read<D: Device>(&self, dev: &mut D) -> (r: Result<Self::Data, DeviceError>)
        ensures
            D::keeps_transfers() ==> exists|block: Seq<u8>| block.len() == 6
                && final(dev).transfers() == old(dev).transfers().push(Transfer::Read(0x28, block, r is Ok))
                && (r matches Ok(frame) ==> frame_of_block(frame, block, Endianness_::ENDIANNESS)),
            r matches Err(e) ==> e matches DeviceError::Context(step, _) && step == "Could not read magnetometer data",
    {
        let mut buffer: Vec<u8> = vec![0u8, 0u8, 0u8, 0u8, 0u8, 0u8];
        if let Err(e) = dev.read(0x28, buffer.as_mut_slice()) {
            return Err(e.context("Could not read magnetometer data"));
        }
        Ok(decode_block(buffer.as_slice(), Endianness_::ENDIANNESS))
    }
}

/// Low byte of the X output.
pub struct RawOutXL;

impl SimpleRegister for RawOutXL {
    const ADDRESS: u8 = 0x28;
    type Data = u8;
}

/// High byte of the X output.
pub struct RawOutXH;

impl SimpleRegister for RawOutXH {
    const ADDRESS: u8 = 0x29;
    type Data = u8;
}

/// Low byte of the Y output.
pub struct RawOutYL;

impl SimpleRegister for RawOutYL {
    const ADDRESS: u8 = 0x2A;
    type Data = u8;
}

/// High byte of the Y output.
pub struct RawOutYH;

impl SimpleRegister for RawOutYH {
    const ADDRESS: u8 = 0x2B;
    type Data = u8;
}

/// Low byte of the Z output.
pub struct RawOutZL;

impl SimpleRegister for RawOutZL {
    const ADDRESS: u8 = 0x2C;
    type Data = u8;
}

/// High byte of the Z output.
pub struct RawOutZH;

impl SimpleRegister for RawOutZH {
    const ADDRESS: u8 = 0x2D;
    type Data = u8;
}

/// Low byte of the temperature output.
pub struct RawOutTempL;

impl SimpleRegister for RawOutTempL {
    const ADDRESS: u8 = 0x2E;
    type Data = u8;
}

/// High byte of the temperature output.
pub struct RawOutTempH;

impl SimpleRegister for RawOutTempH {
    const ADDRESS: u8 = 0x2F;
    type Data = u8;
}

} // verus!
