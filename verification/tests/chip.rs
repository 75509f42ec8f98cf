use mate::lis3mdl::ctrl_reg_1::CtrlReg1;
use mate::lis3mdl::ctrl_reg_2::CtrlReg2;
use mate::lis3mdl::ctrl_reg_3::CtrlReg3;
use mate::lis3mdl::ctrl_reg_4::{CtrlReg4, EndiannessLittle};
use mate::lis3mdl::ctrl_reg_5::CtrlReg5;
use mate::lis3mdl::out_block::{OutXYZ, RawMagFrame};
use mate::lis3mdl::who_am_i::WhoAmI;
use mate::lis3mdl::{Lis3mdl, ReadableRegister};
use mate::peripheral::{compare_fixed, Device, DeviceError};
use std::marker::PhantomData;

/// A register file of 64 bytes that logs every transfer and fails the
/// transfer with the given number, counted from 0.
struct Chip {
    registers: [u8; 64],
    log: Vec<(bool, u8, Vec<u8>)>,
    fail_at: Option<usize>,
}

impl Chip {
    fn new(fail_at: Option<usize>) -> Chip {
        let mut registers = [0u8; 64];
        registers[0x0F] = 0x3D;
        registers[0x28..0x2E].copy_from_slice(&[0x01, 0x02, 0xFF, 0xFF, 0x00, 0x80]);
        Chip { registers, log: Vec::new(), fail_at }
    }

    fn failing_now(&self) -> bool {
        self.fail_at == Some(self.log.len() - 1)
    }
}

impl Device for Chip {
    fn read(&mut self, address: u8, buffer: &mut [u8]) -> Result<(), DeviceError> {
        let start = address as usize;
        buffer.copy_from_slice(&self.registers[start..start + buffer.len()]);
        self.log.push((false, address, buffer.to_vec()));
        if self.failing_now() { Err(DeviceError::Bus) } else { Ok(()) }
    }

    fn write(&mut self, address: u8, buffer: &[u8]) -> Result<(), DeviceError> {
        let start = address as usize;
        self.registers[start..start + buffer.len()].copy_from_slice(buffer);
        self.log.push((true, address, buffer.to_vec()));
        if self.failing_now() { Err(DeviceError::Bus) } else { Ok(()) }
    }
}

fn default_chip() -> Lis3mdl {
    Lis3mdl::new(CtrlReg1::new(), CtrlReg2::new(), CtrlReg3::new(), CtrlReg4::new(), CtrlReg5::new())
}

fn step_of(e: DeviceError) -> &'static str {
    match e {
        DeviceError::Context(step, _) => step,
        DeviceError::Bus => "",
    }
}

#[test]
fn write_config_writes_the_five_registers_in_order() {
    let mut chip = Chip::new(None);
    assert!(default_chip().write_config(&mut chip).is_ok());
    let expected = vec![
        (true, 0x20, vec![0b0001_0000]),
        (true, 0x21, vec![0b0000_0000]),
        (true, 0x22, vec![0b0000_0011]),
        (true, 0x23, vec![0b0000_0000]),
        (true, 0x24, vec![0b0000_0000]),
    ];
    assert_eq!(chip.log, expected);
}

#[test]
fn write_config_stops_at_the_failing_register() {
    let mut chip = Chip::new(Some(2));
    let e = default_chip().write_config(&mut chip).unwrap_err();
    assert_eq!(step_of(e), "Write ctrl_reg_3");
    assert_eq!(chip.log.len(), 3);
    assert_eq!(chip.log[2].1, 0x22);
}

#[test]
fn read_byte_reads_one_register() {
    let mut chip = Chip::new(None);
    assert_eq!(chip.read_byte(0x0F).ok(), Some(0x3D));
    assert_eq!(chip.log, vec![(false, 0x0F, vec![0x3D])]);
    assert_eq!(WhoAmI.read(&mut chip).ok(), Some(0x3D));
}

#[test]
fn write_byte_writes_one_register() {
    let mut chip = Chip::new(None);
    assert!(chip.write_byte(0x21, 0x60).is_ok());
    assert_eq!(chip.registers[0x21], 0x60);
    assert_eq!(chip.log, vec![(true, 0x21, vec![0x60])]);
}

#[test]
fn output_block_is_read_in_one_transfer() {
    let mut chip = Chip::new(None);
    let block: OutXYZ<mate::lis3mdl::ctrl_reg_2::Scale4Gauss, EndiannessLittle> = OutXYZ(PhantomData);
    let frame = block.read(&mut chip).ok();
    assert_eq!(frame, Some(RawMagFrame { x: 0x0201, y: -1, z: -32768 }));
    assert_eq!(chip.log, vec![(false, 0x28, vec![0x01, 0x02, 0xFF, 0xFF, 0x00, 0x80])]);
}

#[test]
fn read_frame_names_its_step_on_failure() {
    let mut chip = Chip::new(Some(0));
    let e = default_chip().read_frame(&mut chip).unwrap_err();
    assert_eq!(step_of(e), "Read data block");
    assert_eq!(chip.log.len(), 1);
}

#[test]
fn fixed_register_comparison() {
    assert_eq!(compare_fixed(Ok(0x3D), 0x3D).ok(), Some(true));
    assert_eq!(compare_fixed(Ok(0x3C), 0x3D).ok(), Some(false));
    assert!(compare_fixed(Err(DeviceError::Bus), 0x3D).is_err());
}
