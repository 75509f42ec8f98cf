//! The identity register.

use vstd::prelude::*;
use super::SimpleRegister;

verus! {

/// Holds the chip's identity, 0x3D for the LIS3MDL.
pub struct WhoAmI;

impl SimpleRegister for WhoAmI {
    const ADDRESS: u8 = 0x0F;
    type Data = u8;
}

} // verus!
