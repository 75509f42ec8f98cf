use std::mem;

use mate::lis3mdl::ctrl_reg_1::{
    CtrlReg1, FastOdrEnable, OutputDataRate2_5, PerformanceMediumXY, SelfTestEnable, TemperatureEnable,
};
use mate::lis3mdl::ctrl_reg_2::{CtrlReg2, RebootMemory, Scale12Gauss, SoftResetRegisters};
use mate::lis3mdl::ctrl_reg_3::{CtrlReg3, LowPowerEnable, OperatingModeSingleConversion, SpiMode3Wire};
use mate::lis3mdl::ctrl_reg_4::{CtrlReg4, EndiannessLittle, PerformanceHighZ};
use mate::lis3mdl::ctrl_reg_5::{BlockDataUpdateEnable, CtrlReg5, FastReadEnable};
use mate::lis3mdl::out_block::{decode_block, i16_from_bytes, RawMagFrame};
use mate::lis3mdl::ctrl_reg_4::EndiannessFlags;
use mate::lis3mdl::status_reg::StatusFlags;
use mate::lis3mdl::{Lis3mdl, WriteableRegister};

#[test]
fn lis3mdl_size() {
    assert_eq!(mem::size_of::<Lis3mdl>(), 0);
}

#[test]
fn lis3mdl_default() {
    assert_eq!(<CtrlReg1>::ADDRESS, 0x20);
    assert_eq!(<CtrlReg1>::BYTE, 0b0001_0000);

    assert_eq!(<CtrlReg2>::ADDRESS, 0x21);
    assert_eq!(<CtrlReg2>::BYTE, 0b0000_0000);

    assert_eq!(<CtrlReg3>::ADDRESS, 0x22);
    assert_eq!(<CtrlReg3>::BYTE, 0b0000_0011);

    assert_eq!(<CtrlReg4>::ADDRESS, 0x23);
    assert_eq!(<CtrlReg4>::BYTE, 0b0000_0000);

    assert_eq!(<CtrlReg5>::ADDRESS, 0x24);
    assert_eq!(<CtrlReg5>::BYTE, 0b0000_0000);
}

#[test]
fn lis3mdl_states() {
    assert_eq!(
        <CtrlReg1<TemperatureEnable, PerformanceMediumXY, OutputDataRate2_5, FastOdrEnable, SelfTestEnable>>::BYTE,
        0b1010_1011
    );

    assert_eq!(<CtrlReg2<Scale12Gauss, RebootMemory, SoftResetRegisters>>::BYTE, 0b0100_1100);

    assert_eq!(<CtrlReg3<LowPowerEnable, SpiMode3Wire, OperatingModeSingleConversion>>::BYTE, 0b0010_0101);

    assert_eq!(<CtrlReg4<PerformanceHighZ, EndiannessLittle>>::BYTE, 0b0000_1010);

    assert_eq!(<CtrlReg5<FastReadEnable, BlockDataUpdateEnable>>::BYTE, 0b1100_0000);
}

#[test]
fn fields_read_back_from_byte() {
    let byte = <CtrlReg1<TemperatureEnable, PerformanceMediumXY, OutputDataRate2_5, FastOdrEnable, SelfTestEnable>>::BYTE;
    assert_eq!((byte >> 7) & 1, 1);
    assert_eq!((byte >> 5) & 3, 1);
    assert_eq!((byte >> 2) & 7, 2);
}

#[test]
fn signed_words_from_bytes() {
    assert_eq!(i16_from_bytes(0x00, 0x01), 1);
    assert_eq!(i16_from_bytes(0xFF, 0xFF), -1);
    assert_eq!(i16_from_bytes(0x80, 0x00), i16::MIN);
    assert_eq!(i16_from_bytes(0x7F, 0xFF), i16::MAX);
}

#[test]
fn output_block_byte_orders() {
    let block = [0x01, 0x02, 0xFF, 0xFE, 0x00, 0x10];
    assert_eq!(
        decode_block(&block, EndiannessFlags::BigEndian),
        RawMagFrame { x: 0x0102, y: -2, z: 0x0010 }
    );
    assert_eq!(
        decode_block(&block, EndiannessFlags::LittleEndian),
        RawMagFrame { x: 0x0201, y: -257, z: 0x1000 }
    );
}

#[test]
fn status_flags_from_register() {
    let flags = StatusFlags::from(0b1000_1000u8);
    assert!(flags.contains(StatusFlags::zyxor()));
    assert!(flags.contains(StatusFlags::zyxda()));
    assert!(!flags.contains(StatusFlags::xda()));
}
