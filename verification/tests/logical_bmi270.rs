use flint_drivers::bus::BusError;
use flint_drivers::logical::bmi270::{
    Bmi270, Identity, Probe, ADDR_PRIMARY, ADDR_SECONDARY, CHIP_ID, MPU6886_REG_WHO_AM_I,
    MPU6886_WHO_AM_I, REG_CHIP_ID,
};

struct FakeDevice {
    regs: Vec<(u8, u8)>,
    asked: Vec<u8>,
}

impl FakeDevice {
    fn read(&mut self, reg: u8) -> Result<u8, BusError> {
        self.asked.push(reg);
        let val = self.regs.iter().find(|(r, _)| *r == reg).map(|(_, v)| *v);
        val.ok_or(BusError::InvalidConfig)
    }
}

fn device(regs: &[(u8, u8)]) -> (Bmi270, FakeDevice) {
    (Bmi270::new(), FakeDevice { regs: regs.to_vec(), asked: Vec::new() })
}

fn probe(imu: &Bmi270, dev: &mut FakeDevice) -> Result<Identity, BusError> {
    let mut chip_id: Option<u8> = None;
    let mut who_am_i: Option<u8> = None;
    loop {
        match imu.probe(chip_id, who_am_i) {
            Probe::Found(identity) => return Ok(identity),
            Probe::Read(reg) => {
                let value = dev.read(reg)?;
                if reg == REG_CHIP_ID {
                    chip_id = Some(value);
                } else {
                    who_am_i = Some(value);
                }
            }
        }
    }
}

#[test]
fn a_bmi270_is_recognised_by_its_chip_id() {
    let (imu, mut dev) = device(&[(REG_CHIP_ID, CHIP_ID)]);
    assert_eq!(dev.read(REG_CHIP_ID), Ok(0x24));
    assert!(imu.is_present(0x24));
    assert_eq!(probe(&imu, &mut dev), Ok(Identity::Bmi270));
}

#[test]
fn an_mpu6886_is_not_mistaken_for_a_bmi270() {
    let (imu, mut dev) = device(&[
        (REG_CHIP_ID, 0x00),
        (MPU6886_REG_WHO_AM_I, MPU6886_WHO_AM_I),
    ]);
    assert!(!imu.is_present(0x00));
    assert_eq!(probe(&imu, &mut dev), Ok(Identity::Mpu6886));
}

#[test]
fn an_unknown_part_reports_what_it_actually_said() {
    let (imu, mut dev) = device(&[(REG_CHIP_ID, 0x42), (MPU6886_REG_WHO_AM_I, 0x00)]);
    assert_eq!(probe(&imu, &mut dev), Ok(Identity::Unknown(0x42)));
}

#[test]
fn probing_checks_the_bmi270_before_the_mpu6886() {
    let (imu, mut dev) = device(&[(REG_CHIP_ID, CHIP_ID)]);
    probe(&imu, &mut dev).unwrap();
    assert_eq!(&dev.asked[..], &[REG_CHIP_ID]);
}

#[test]
fn a_bus_error_is_propagated_not_swallowed() {
    let (imu, mut dev) = device(&[]);
    assert!(dev.read(REG_CHIP_ID).is_err());
    assert!(probe(&imu, &mut dev).is_err());
}

#[test]
fn the_register_numbers_are_bosch_s() {
    assert_eq!(REG_CHIP_ID, 0x00);
    assert_eq!(CHIP_ID, 0x24);
    assert_eq!(ADDR_PRIMARY, 0x68);
    assert_eq!(ADDR_SECONDARY, 0x69);
}
