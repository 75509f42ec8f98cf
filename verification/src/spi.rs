//! The command byte that starts an SPI transfer with the magnetometer and the
//! inertial sensor: the register address with the direction and, for the
//! magnetometer, the auto-increment bits.

use vstd::prelude::*;

verus! {

/// What the magnetometer answers from its identity register.
pub const MAG_WHO_AM_I_VALUE: u8 = 0x3D;
/// What the inertial sensor answers from its identity register.
pub const INERTIAL_WHO_AM_I_VALUE: u8 = 0x6A;

/// The magnetometer's command to read from `address` on, moving to the next
/// register after each byte.
pub fn mag_read_command(address: u8) -> (c: u8)
    ensures
        c == (address & 0x3F) | 0xC0,
{
    address & 0x3F | 0xC0
}

/// The magnetometer's command to write from `address` on, moving to the next
/// register after each byte.
pub fn mag_write_command(address: u8) -> (c: u8)
    ensures
        c == (address & 0x3F) | 0x40,
{
    address & 0x3F | 0x40
}

/// The inertial sensor's command to read from `address` on.
pub fn inertial_read_command(address: u8) -> (c: u8)
    ensures
        c == (address & 0x7F) | 0x80,
{
    address & 0x7F | 0x80
}

/// The inertial sensor's command to write from `address` on.
pub fn inertial_write_command(address: u8) -> (c: u8)
    ensures
        c == address & 0x7F,
{
    address & 0x7F
}

/// Command law: the top bit tells a read from a write, and the register
/// address survives in the low bits (six for the magnetometer, whose bit six
/// asks for auto-increment; seven for the inertial sensor).
pub proof fn lemma_commands(address: u8)
    by (bit_vector)
    ensures
        ((address & 0x3F) | 0xC0) & 0x80 == 0x80,
        ((address & 0x3F) | 0x40) & 0x80 == 0,
        ((address & 0x3F) | 0xC0) & 0x40 == 0x40,
        ((address & 0x3F) | 0x40) & 0x40 == 0x40,
        ((address & 0x3F) | 0xC0) & 0x3F == address & 0x3F,
        ((address & 0x3F) | 0x40) & 0x3F == address & 0x3F,
        ((address & 0x7F) | 0x80) & 0x80 == 0x80,
        (address & 0x7F) & 0x80 == 0,
        ((address & 0x7F) | 0x80) & 0x7F == address & 0x7F,
{
}

} // verus!
