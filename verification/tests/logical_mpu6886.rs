use flint_drivers::bus::BusError;
use flint_drivers::logical::mpu6886::{
    scale, Axes, Mpu6886, ACCEL_FS_8G, GYRO_FS_2000DPS, PWR_CLK_PLL, PWR_DEVICE_RESET,
    REG_ACCEL_CONFIG, REG_ACCEL_XOUT_H, REG_GYRO_CONFIG, REG_PWR_MGMT_1, REG_TEMP_OUT_H,
    REG_WHO_AM_I, WHO_AM_I,
};
use flint_drivers::logical::RegOp;

struct RegBus {
    regs: Vec<(u8, u8)>,
    writes: Vec<(u8, u8)>,
    waits: Vec<u32>,
}

impl RegBus {
    fn get(&self, reg: u8) -> Option<u8> {
        self.regs.iter().find(|(r, _)| *r == reg).map(|(_, v)| *v)
    }

    fn read(&self, reg: u8) -> Result<u8, BusError> {
        self.get(reg).ok_or(BusError::InvalidConfig)
    }

    fn burst<const N: usize>(&self, reg: u8) -> Result<[u8; N], BusError> {
        let mut out = [0u8; N];
        for (i, byte) in out.iter_mut().enumerate() {
            *byte = self.read(reg + i as u8)?;
        }
        Ok(out)
    }

    fn run(&mut self, ops: &[RegOp]) {
        for op in ops {
            match *op {
                RegOp::Write { reg, value } => {
                    self.writes.push((reg, value));
                    self.regs.retain(|(r, _)| *r != reg);
                    self.regs.push((reg, value));
                }
                RegOp::Update { .. } => unreachable!(),
                RegOp::DelayMs(ms) => self.waits.push(ms),
            }
        }
    }
}

fn imu(regs: &[(u8, u8)]) -> (Mpu6886, RegBus) {
    (Mpu6886::new(), RegBus { regs: regs.to_vec(), writes: Vec::new(), waits: Vec::new() })
}

#[test]
fn the_part_is_identified_by_who_am_i() {
    let (m, f) = imu(&[(REG_WHO_AM_I, WHO_AM_I)]);
    assert_eq!(f.read(REG_WHO_AM_I), Ok(0x19));
    assert!(m.is_present(0x19));
}

#[test]
fn a_bmi270_in_the_same_socket_is_not_accepted() {
    let (m, f) = imu(&[(REG_WHO_AM_I, 0x24)]);
    assert!(!m.is_present(f.read(REG_WHO_AM_I).unwrap()));
}

#[test]
fn axes_are_big_endian() {
    let (m, f) = imu(&[
        (REG_ACCEL_XOUT_H, 0x01), (REG_ACCEL_XOUT_H + 1, 0x02),
        (REG_ACCEL_XOUT_H + 2, 0xFF), (REG_ACCEL_XOUT_H + 3, 0xFE),
        (REG_ACCEL_XOUT_H + 4, 0x40), (REG_ACCEL_XOUT_H + 5, 0x00),
    ]);
    let burst: [u8; 6] = f.burst(REG_ACCEL_XOUT_H).unwrap();
    assert_eq!(m.accel(&burst), Axes { x: 0x0102, y: -2, z: 0x4000 });
    assert_eq!(m.gyro(&burst), Axes { x: 0x0102, y: -2, z: 0x4000 });
}

#[test]
fn a_full_scale_reading_converts_to_the_documented_range() {
    let a = Axes { x: 16384, y: -16384, z: 0 }.to_milli_g();
    assert_eq!(a.x, 4000);
    assert_eq!(a.y, -4000);
}

#[test]
fn a_gyro_reading_saturates_instead_of_wrapping() {
    let g = Axes { x: 32767, y: -32768, z: 0 }.to_milli_dps();
    assert_eq!(g.x, i16::MAX);
    assert_eq!(g.y, i16::MIN);
}

#[test]
fn reset_clears_sleep_before_resetting() {
    let (m, mut f) = imu(&[(REG_WHO_AM_I, WHO_AM_I)]);
    f.run(&m.reset());
    f.run(&m.wake());

    let pwr: Vec<u8> = f.writes.iter().filter(|(r, _)| *r == REG_PWR_MGMT_1).map(|(_, v)| *v).collect();
    assert_eq!(pwr, [0x00, PWR_DEVICE_RESET, PWR_CLK_PLL], "clear sleep, reset, then PLL");
}

#[test]
fn bring_up_runs_reset_wake_configure_with_waits_between() {
    let (m, mut f) = imu(&[(REG_WHO_AM_I, WHO_AM_I)]);
    f.run(&m.bring_up());

    assert_eq!(f.waits, [10, 10]);
    let pwr: Vec<u8> = f.writes.iter().filter(|(r, _)| *r == REG_PWR_MGMT_1).map(|(_, v)| *v).collect();
    assert_eq!(pwr, [0x00, PWR_DEVICE_RESET, PWR_CLK_PLL]);
    assert_eq!(f.get(REG_ACCEL_CONFIG), Some(ACCEL_FS_8G));
}

#[test]
fn configure_selects_the_full_scales_the_conversions_assume() {
    let (m, mut f) = imu(&[]);
    f.run(&m.configure());
    assert_eq!(f.get(REG_ACCEL_CONFIG), Some(ACCEL_FS_8G));
    assert_eq!(f.get(REG_GYRO_CONFIG), Some(GYRO_FS_2000DPS));
    assert_eq!(ACCEL_FS_8G >> 3, 0b10, "+/-8 g");
    assert_eq!(GYRO_FS_2000DPS >> 3, 0b11, "+/-2000 dps");
}

#[test]
fn temperature_reads_room_ish_at_zero_counts() {
    let (m, f) = imu(&[(REG_TEMP_OUT_H, 0x00), (REG_TEMP_OUT_H + 1, 0x00)]);
    let bytes: [u8; 2] = f.burst(REG_TEMP_OUT_H).unwrap();
    assert_eq!(m.temperature_milli_c(&bytes), 25_000);
}

#[test]
fn a_temperature_below_the_offset_rounds_towards_it() {
    let m = Mpu6886::new();
    assert_eq!(m.temperature_milli_c(&[0x0C, 0xC4]), 25_000 + 10_000);
    assert_eq!(m.temperature_milli_c(&[0xFF, 0xFF]), 25_000 - 3);
}

#[test]
fn a_scaled_reading_drops_its_fraction() {
    assert_eq!(scale(3, 125, 512), 0);
    assert_eq!(scale(-3, 125, 512), 0);
    assert_eq!(scale(5, 125, 512), 1);
    assert_eq!(scale(-5, 125, 512), -1);
    assert_eq!(Axes { x: 5, y: -5, z: 512 }.to_milli_g(), Axes { x: 1, y: -1, z: 125 });
    assert_eq!(Axes { x: 1, y: -1, z: 2 }.to_milli_dps(), Axes { x: 62, y: -62, z: 125 });
}
