//! The LIS3MDL magnetometer: its registers, the configuration bytes that its
//! settings make, and the reading of its output registers.

pub mod ctrl_reg_1;
pub mod ctrl_reg_2;
pub mod ctrl_reg_3;
pub mod ctrl_reg_4;
pub mod ctrl_reg_5;
pub mod out_block;
pub mod status_reg;
pub mod who_am_i;

use vstd::prelude::*;
use core::marker::PhantomData;
use crate::peripheral::{Device, DeviceError, Transfer};

verus! {

/// A register that is configured by writing a fixed byte.
pub trait WriteableRegister {
    const ADDRESS: u8;
    const BYTE: u8;

    /// Writes the configured byte to the register.
    fn write<D: Device>(&self, dev: &mut D) -> (r: Result<(), DeviceError>)
        ensures
            D::keeps_transfers() ==> final(dev).transfers()
                == old(dev).transfers().push(Transfer::Write(Self::ADDRESS, seq![Self::BYTE], r is Ok)),
    {
        dev.write_byte(Self::ADDRESS, Self::BYTE)
    }
}

/// The transfer that writes the configured byte of register `R`, with the
/// bus's success `ok`.
pub open spec fn register_write<R: WriteableRegister + ?Sized>(ok: bool) -> Transfer {
    Transfer::Write(R::ADDRESS, seq![R::BYTE], ok)
}

/// The name of the step that writes configuration register `k`, counted
/// from 1.
pub open spec fn config_step(k: int) -> &'static str {
    if k == 1 {
        "Write ctrl_reg_1"
    } else if k == 2 {
        "Write ctrl_reg_2"
    } else if k == 3 {
        "Write ctrl_reg_3"
    } else if k == 4 {
        "Write ctrl_reg_4"
    } else {
        "Write ctrl_reg_5"
    }
}

/// A register whose content is read as a value.
pub trait ReadableRegister {
    const ADDRESS: u8;
    type Data;

    fn read<D: Device>(&self, dev: &mut D) -> Result<Self::Data, DeviceError>;
}

/// A register of one byte whose value converts from that byte.
pub trait SimpleRegister {
    const ADDRESS: u8;
    type Data: From<u8>;
}

impl<T: SimpleRegister> ReadableRegister for T {
    const ADDRESS: u8 = <T as SimpleRegister>::ADDRESS;
    type Data = <T as SimpleRegister>::Data;

    fn read<D: Device>(&self, dev: &mut D) -> (r: Result<Self::Data, DeviceError>)
        ensures
            D::keeps_transfers() ==> exists|b: u8| final(dev).transfers() == old(dev).transfers().push(
                Transfer::Read(<T as SimpleRegister>::ADDRESS, seq![b], r is Ok))
                && (r matches Ok(d) ==> call_ensures(<T as SimpleRegister>::Data::from, (b,), d)),
    {
        match dev.read_byte(<T as SimpleRegister>::ADDRESS) {
            Ok(byte) => Ok(byte.into()),
            Err(e) => Err(e),
        }
    }
}

/// The LIS3MDL, configured by its type parameters: one for each setting of
/// its five configuration registers.
pub struct Lis3mdl<
    Temperature = ctrl_reg_1::TemperatureDisable,
    PerformanceXY = ctrl_reg_1::PerformanceLowXY,
    OutputDataRate = ctrl_reg_1::OutputDataRate10_0,
    FastOdr = ctrl_reg_1::FastOdrDisable,
    SelfTest = ctrl_reg_1::SelfTestDisable,
    Scale = ctrl_reg_2::Scale4Gauss,
    Reboot = ctrl_reg_2::RebootNormalMode,
    SoftReset = ctrl_reg_2::SoftResetNormalMode,
    LowPower = ctrl_reg_3::LowPowerDisable,
    SpiMode = ctrl_reg_3::SpiMode4Wire,
    OperatingMode = ctrl_reg_3::OperatingModePowerDown,
    PerformanceZ = ctrl_reg_4::PerformanceLowZ,
    Endianness = ctrl_reg_4::EndiannessBig,
    FastRead = ctrl_reg_5::FastReadDisable,
    BlockDataUpdate = ctrl_reg_5::BlockDataUpdateDisable,
> {
    who_am_i: who_am_i::WhoAmI,
    ctrl_reg_1: ctrl_reg_1::CtrlReg1<Temperature, PerformanceXY, OutputDataRate, FastOdr, SelfTest>,
    ctrl_reg_2: ctrl_reg_2::CtrlReg2<Scale, Reboot, SoftReset>,
    ctrl_reg_3: ctrl_reg_3::CtrlReg3<LowPower, SpiMode, OperatingMode>,
    ctrl_reg_4: ctrl_reg_4::CtrlReg4<PerformanceZ, Endianness>,
    ctrl_reg_5: ctrl_reg_5::CtrlReg5<FastRead, BlockDataUpdate>,
    status_reg: status_reg::StatusReg,
    data_block: out_block::OutXYZ<Scale, Endianness>,
    raw_x_l: out_block::RawOutXL,
    raw_x_h: out_block::RawOutXH,
    raw_y_l: out_block::RawOutYL,
    raw_y_h: out_block::RawOutYH,
    raw_z_l: out_block::RawOutZL,
    raw_z_h: out_block::RawOutZH,
}

impl<
    Temperature: ctrl_reg_1::Temperature,
    PerformanceXY: ctrl_reg_1::PerformanceXY,
    OutputDataRate: ctrl_reg_1::OutputDataRate,
    FastOdr: ctrl_reg_1::FastOdr,
    SelfTest: ctrl_reg_1::SelfTest,
    Scale: ctrl_reg_2::Scale,
    Reboot: ctrl_reg_2::Reboot,
    SoftReset: ctrl_reg_2::SoftReset,
    LowPower: ctrl_reg_3::LowPower,
    SpiMode: ctrl_reg_3::SpiMode,
    OperatingMode: ctrl_reg_3::OperatingMode,
    PerformanceZ: ctrl_reg_4::PerformanceZ,
    Endianness: ctrl_reg_4::Endianness,
    FastRead: ctrl_reg_5::FastRead,
    BlockDataUpdate: ctrl_reg_5::BlockDataUpdate,
> Lis3mdl<
    Temperature,
    PerformanceXY,
    OutputDataRate,
    FastOdr,
    SelfTest,
    Scale,
    Reboot,
    SoftReset,
    LowPower,
    SpiMode,
    OperatingMode,
    PerformanceZ,
    Endianness,
    FastRead,
    BlockDataUpdate,
> {
    /// The chip's address on the bus.
    pub const ADDRESS: u8 = 0x1C;

    /// The chip with the given configuration registers.
    pub fn new(
        ctrl_reg_1: ctrl_reg_1::CtrlReg1<Temperature, PerformanceXY, OutputDataRate, FastOdr, SelfTest>,
        ctrl_reg_2: ctrl_reg_2::CtrlReg2<Scale, Reboot, SoftReset>,
        ctrl_reg_3: ctrl_reg_3::CtrlReg3<LowPower, SpiMode, OperatingMode>,
        ctrl_reg_4: ctrl_reg_4::CtrlReg4<PerformanceZ, Endianness>,
        ctrl_reg_5: ctrl_reg_5::CtrlReg5<FastRead, BlockDataUpdate>,
    ) -> Self {
        Lis3mdl {
            who_am_i: who_am_i::WhoAmI,
            ctrl_reg_1,
            ctrl_reg_2,
            ctrl_reg_3,
            ctrl_reg_4,
            ctrl_reg_5,
            status_reg: status_reg::StatusReg,
            data_block: out_block::OutXYZ(PhantomData),
            raw_x_l: out_block::RawOutXL,
            raw_x_h: out_block::RawOutXH,
            raw_y_l: out_block::RawOutYL,
            raw_y_h: out_block::RawOutYH,
            raw_z_l: out_block::RawOutZL,
            raw_z_h: out_block::RawOutZH,
        }
    }

    /// The write of configuration register `k`, counted from 1, with the
    /// bus's success `ok`.
    pub open spec fn config_write(k: int, ok: bool) -> Transfer {
        if k == 1 {
            register_write::<ctrl_reg_1::CtrlReg1<Temperature, PerformanceXY, OutputDataRate, FastOdr, SelfTest>>(ok)
        } else if k == 2 {
            register_write::<ctrl_reg_2::CtrlReg2<Scale, Reboot, SoftReset>>(ok)
        } else if k == 3 {
            register_write::<ctrl_reg_3::CtrlReg3<LowPower, SpiMode, OperatingMode>>(ok)
        } else if k == 4 {
            register_write::<ctrl_reg_4::CtrlReg4<PerformanceZ, Endianness>>(ok)
        } else {
            register_write::<ctrl_reg_5::CtrlReg5<FastRead, BlockDataUpdate>>(ok)
        }
    }

    /// The successful writes of the five configuration registers, in order.
    pub open spec fn config_writes() -> Seq<Transfer> {
        seq![
            Self::config_write(1, true),
            Self::config_write(2, true),
            Self::config_write(3, true),
            Self::config_write(4, true),
            Self::config_write(5, true),
        ]
    }

    /// Writes the five configuration registers, in order; stops at the first
    /// that fails, naming it.
    pub fn write_config<D: Device>(&self, dev: &mut D) -> (r: Result<(), DeviceError>)
        ensures
            D::keeps_transfers() && r is Ok ==> final(dev).transfers() == old(dev).transfers() + Self::config_writes(),
            r matches Err(e) ==> exists|k: int| 1 <= k <= 5
                && (D::keeps_transfers() ==> final(dev).transfers()
                    == old(dev).transfers() + Self::config_writes().take(k - 1).push(Self::config_write(k, false)))
                && (e matches DeviceError::Context(step, _) && step == config_step(k)),
    {
        let ghost start = dev.transfers();
        let ghost writes = Self::config_writes();
        let first = self.ctrl_reg_1.write(dev);
        if let Err(e) = first {
            assert(D::keeps_transfers() ==> dev.transfers() =~= start + writes.take(0).push(Self::config_write(1, false)));
            return Err(e.context("Write ctrl_reg_1"));
        }
        assert(D::keeps_transfers() ==> dev.transfers() =~= start + writes.take(1));
        let second = self.ctrl_reg_2.write(dev);
        if let Err(e) = second {
            assert(D::keeps_transfers() ==> dev.transfers() =~= start + writes.take(1).push(Self::config_write(2, false)));
            return Err(e.context("Write ctrl_reg_2"));
        }
        assert(D::keeps_transfers() ==> dev.transfers() =~= start + writes.take(2));
        let third = self.ctrl_reg_3.write(dev);
        if let Err(e) = third {
            assert(D::keeps_transfers() ==> dev.transfers() =~= start + writes.take(2).push(Self::config_write(3, false)));
            return Err(e.context("Write ctrl_reg_3"));
        }
        assert(D::keeps_transfers() ==> dev.transfers() =~= start + writes.take(3));
        let fourth = self.ctrl_reg_4.write(dev);
        if let Err(e) = fourth {
            assert(D::keeps_transfers() ==> dev.transfers() =~= start + writes.take(3).push(Self::config_write(4, false)));
            return Err(e.context("Write ctrl_reg_4"));
        }
        assert(D::keeps_transfers() ==> dev.transfers() =~= start + writes.take(4));
        let fifth = self.ctrl_reg_5.write(dev);
        if let Err(e) = fifth {
            assert(D::keeps_transfers() ==> dev.transfers() =~= start + writes.take(4).push(Self::config_write(5, false)));
            return Err(e.context("Write ctrl_reg_5"));
        }
        assert(D::keeps_transfers() ==> dev.transfers() =~= start + writes);
        Ok(())
    }

    /// Reads the output block.
    pub fn read_frame<D: Device>(&self, dev: &mut D) -> (r: Result<(), DeviceError>)
        ensures
            D::keeps_transfers() ==> exists|block: Seq<u8>| block.len() == 6
                && final(dev).transfers() == old(dev).transfers().push(Transfer::Read(0x28, block, r is Ok)),
            r matches Err(e) ==> e matches DeviceError::Context(step, _) && step == "Read data block",
    {
        match self.data_block.read(dev) {
            Ok(_) => Ok(()),
            Err(e) => Err(e.context("Read data block")),
        }
    }

    pub fn who_am_i(&self) -> &who_am_i::WhoAmI {
        &self.who_am_i
    }

    pub fn ctrl_reg_1(&self) -> &ctrl_reg_1::CtrlReg1<Temperature, PerformanceXY, OutputDataRate, FastOdr, SelfTest> {
        &self.ctrl_reg_1
    }

    pub fn ctrl_reg_2(&self) -> &ctrl_reg_2::CtrlReg2<Scale, Reboot, SoftReset> {
        &self.ctrl_reg_2
    }

    pub fn ctrl_reg_3(&self) -> &ctrl_reg_3::CtrlReg3<LowPower, SpiMode, OperatingMode> {
        &self.ctrl_reg_3
    }

    pub fn ctrl_reg_4(&self) -> &ctrl_reg_4::CtrlReg4<PerformanceZ, Endianness> {
        &self.ctrl_reg_4
    }

    pub fn ctrl_reg_5(&self) -> &ctrl_reg_5::CtrlReg5<FastRead, BlockDataUpdate> {
        &self.ctrl_reg_5
    }

    pub fn status_reg(&self) -> &status_reg::StatusReg {
        &self.status_reg
    }

    pub fn data_block(&self) -> &out_block::OutXYZ<Scale, Endianness> {
        &self.data_block
    }

    pub fn raw_x_l(&self) -> &out_block::RawOutXL {
        &self.raw_x_l
    }

    pub fn raw_x_h(&self) -> &out_block::RawOutXH {
        &self.raw_x_h
    }

    pub fn raw_y_l(&self) -> &out_block::RawOutYL {
        &self.raw_y_l
    }

    pub fn raw_y_h(&self) -> &out_block::RawOutYH {
        &self.raw_y_h
    }

    pub fn raw_z_l(&self) -> &out_block::RawOutZL {
        &self.raw_z_l
    }

    pub fn raw_z_h(&self) -> &out_block::RawOutZH {
        &self.raw_z_h
    }
}

} // verus!
