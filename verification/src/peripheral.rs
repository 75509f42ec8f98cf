//! Register-level access to the sensor chips on the robot's SPI and I2C
//! buses.

use vstd::prelude::*;

verus! {

/// Why a transfer with a chip failed.
#[derive(Debug)]
pub enum DeviceError {
    /// The bus reported an error.
    Bus,
    /// A failure, with the step that it interrupted.
    Context(&'static str, Box<DeviceError>),
}

impl DeviceError {
    /// This error, as the cause of a failure of `step`.
    pub fn context(self, step: &'static str) -> (r: DeviceError)
        ensures
            r matches DeviceError::Context(s, cause) && s == step && *cause == self,
    {
        DeviceError::Context(step, Box::new(self))
    }
}

/// One transfer with a chip: the register address it started at, the bytes
/// that went in or came out, and whether the bus reported success.
pub enum Transfer {
    Read(u8, Seq<u8>, bool),
    Write(u8, Seq<u8>, bool),
}

/// A chip whose registers are read and written by address.
pub trait Device {
    /// Whether the implementation keeps the record `transfers`. Only an
    /// implementation that says so promises the record; the default says no.
    closed spec fn keeps_transfers() -> bool {
        false
    }

    /// The transfers made with the chip so far, oldest first, when the
    /// implementation keeps them.
    closed spec fn transfers(&self) -> Seq<Transfer> {
        Seq::empty()
    }

    /// Reads `buffer.len()` bytes starting at register `address`.
    fn read(&mut self, address: u8, buffer: &mut [u8]) -> (r: Result<(), DeviceError>)
        ensures
            final(buffer)@.len() == old(buffer)@.len(),
            Self::keeps_transfers() ==> final(self).transfers()
                == old(self).transfers().push(Transfer::Read(address, final(buffer)@, r is Ok)),
    ;

    /// Writes `buffer` starting at register `address`.
    fn write(&mut self, address: u8, buffer: &[u8]) -> (r: Result<(), DeviceError>)
        ensures
            Self::keeps_transfers() ==> final(self).transfers()
                == old(self).transfers().push(Transfer::Write(address, buffer@, r is Ok)),
    ;

    /// Reads the one register at `address`.
    fn read_byte(&mut self, address: u8) -> (r: Result<u8, DeviceError>)
        ensures
            Self::keeps_transfers() ==> exists|b: u8|
                final(self).transfers() == old(self).transfers().push(Transfer::Read(address, seq![b], r is Ok))
                && (r matches Ok(v) ==> v == b),
    {
        let mut bytes: Vec<u8> = vec![0u8];
        match self.read(address, bytes.as_mut_slice()) {
            Ok(()) => {
                assert(bytes@ =~= seq![bytes@[0]]);
                Ok(bytes[0])
            },
            Err(e) => {
                assert(bytes@ =~= seq![bytes@[0]]);
                Err(e)
            },
        }
    }

    /// Writes `byte` to the register at `address`.
    fn write_byte(&mut self, address: u8, byte: u8) -> (r: Result<(), DeviceError>)
        ensures
            Self::keeps_transfers() ==> final(self).transfers()
                == old(self).transfers().push(Transfer::Write(address, seq![byte], r is Ok)),
    {
        let bytes: Vec<u8> = vec![byte];
        assert(bytes@ =~= seq![byte]);
        self.write(address, bytes.as_slice())
    }
}

/// A register of a chip.
pub trait Register {
    const ADDRESS: u8;

    /// Puts the register into its configured state; nothing to do by default.
    fn setup<D: Device>(dev: &mut D) -> (r: Result<(), DeviceError>)
        default_ensures
            r is Ok,
            D::keeps_transfers() ==> final(dev).transfers() == old(dev).transfers(),
    {
        Ok(())
    }
}

/// A register that is configured by writing a fixed byte.
pub trait WriteableRegister: Register {
    const BYTE: u8;

    /// Writes the configured byte to the register.
    fn write<D: Device>(dev: &mut D) -> (r: Result<(), DeviceError>)
        ensures
            D::keeps_transfers() ==> final(dev).transfers()
                == old(dev).transfers().push(Transfer::Write(Self::ADDRESS, seq![Self::BYTE], r is Ok)),
    {
        dev.write_byte(Self::ADDRESS, Self::BYTE)
    }
}

/// A register whose content is read as a value.
pub trait ReadableRegister: Register {
    type Data;

    fn read<D: Device>(dev: &mut D) -> Result<Self::Data, DeviceError>;
}

/// A register whose content is a known constant, such as a chip's identity.
pub trait FixedRegister: ReadableRegister<Data = u8> {
    const BYTE: u8;

    /// Whether the register holds its known constant.
    fn check<D: Device>(dev: &mut D) -> (r: Result<bool, DeviceError>) {
        let read = Self::read(dev);
        compare_fixed(read, Self::BYTE)
    }
}

/// What a check of a fixed register gives for the outcome of reading it: whether
/// the value read is the known constant `expected`, or the error of the read.
pub fn compare_fixed(read: Result<u8, DeviceError>, expected: u8) -> (r: Result<bool, DeviceError>)
    ensures
        match read {
            Ok(v) => r == Ok::<bool, DeviceError>(v == expected),
            Err(e) => r == Err::<bool, DeviceError>(e),
        },
{
    match read {
        Ok(v) => Ok(v == expected),
        Err(e) => Err(e),
    }
}

} // verus!
