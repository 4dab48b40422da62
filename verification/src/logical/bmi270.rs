//! Bosch BMI270, a six-axis IMU, and how to tell it from the MPU6886 that shares
//! its address.

use vstd::prelude::*;

verus! {

/// Address with SDO low.
pub const ADDR_PRIMARY: u8 = 0x68;
/// Address with SDO high.
pub const ADDR_SECONDARY: u8 = 0x69;

pub const REG_CHIP_ID: u8 = 0x00;
pub const CHIP_ID: u8 = 0x24;
/// Reports whether the configuration blob was loaded.
pub const REG_INTERNAL_STATUS: u8 = 0x21;

/// The identity register of an MPU6886 and what it holds.
pub const MPU6886_REG_WHO_AM_I: u8 = 0x75;
pub const MPU6886_WHO_AM_I: u8 = 0x19;

/// What answered at the address.
#[derive(Clone, Copy, Debug, PartialEq, Eq, Structural)]
pub enum Identity {
    Bmi270,
    Mpu6886,
    /// Neither; holds what the chip-id register said.
    Unknown(u8),
}

/// How far a probe has come.
#[derive(Clone, Copy, Debug, PartialEq, Eq, Structural)]
pub enum Probe {
    /// This register has to be read next.
    Read(u8),
    Found(Identity),
}

/// What the registers read so far say.
pub open spec fn probed(chip_id: Option<u8>, who_am_i: Option<u8>) -> Probe {
    match chip_id {
        None => Probe::Read(REG_CHIP_ID),
        Some(id) => if id == CHIP_ID {
            Probe::Found(Identity::Bmi270)
        } else {
            match who_am_i {
                None => Probe::Read(MPU6886_REG_WHO_AM_I),
                Some(who) => if who == MPU6886_WHO_AM_I {
                    Probe::Found(Identity::Mpu6886)
                } else {
                    Probe::Found(Identity::Unknown(id))
                },
            }
        },
    }
}

/// A BMI270.
#[derive(Clone, Copy, Debug)]
pub struct Bmi270 {}

impl Bmi270 {
    pub fn new() -> (imu: Self)
        ensures
            imu == (Bmi270 {  }),
    {
        Bmi270 {  }
    }

    /// Whether the part is a BMI270, by its chip-id register.
    pub fn is_present(&self, chip_id: u8) -> (b: bool)
        ensures
            b == (chip_id == CHIP_ID),
    {
        chip_id == CHIP_ID
    }

    /// Works out which part is there from the registers read so far: the chip id
    /// first, and the MPU6886's identity only where that is not a BMI270's.
    pub fn probe(&self, chip_id: Option<u8>, who_am_i: Option<u8>) -> (p: Probe)
        ensures
            p == probed(chip_id, who_am_i),
    {
        match chip_id {
            None => Probe::Read(REG_CHIP_ID),
            Some(id) => {
                if id == CHIP_ID {
                    return Probe::Found(Identity::Bmi270);
                }
                match who_am_i {
                    None => Probe::Read(MPU6886_REG_WHO_AM_I),
                    Some(who) => if who == MPU6886_WHO_AM_I {
                        Probe::Found(Identity::Mpu6886)
                    } else {
                        Probe::Found(Identity::Unknown(id))
                    },
                }
            },
        }
    }
}

/// A part is told by its own identity register: a BMI270 by 0x24 at 0x00, whatever is at
/// 0x75; else an MPU6886 by 0x19 at 0x75; else by what the chip-id register said.
pub proof fn law_a_part_is_told_by_its_identity(id: u8, who: u8)
    ensures
        (probed(Some(id), Some(who)) == Probe::Found(Identity::Bmi270)) == (id == 0x24),
        (probed(Some(id), Some(who)) == Probe::Found(Identity::Mpu6886)) == (id != 0x24 && who
            == 0x19),
        id != 0x24 && who != 0x19 ==> probed(Some(id), Some(who)) == Probe::Found(
            Identity::Unknown(id),
        ),
{
}

/// A probe asks for what is not known yet, the chip id first, and for no register twice;
/// a BMI270 is found without a look at the other part's register.
pub proof fn law_a_probe_asks_once(id: Option<u8>, who: Option<u8>)
    ensures
        id is None == (probed(id, who) == Probe::Read(0x00)),
        probed(id, who) == Probe::Read(0x75) ==> id is Some && who is None,
        probed(Some(0x24), None) == Probe::Found(Identity::Bmi270),
        probed(id, who) is Read ==> probed(id, who) == Probe::Read(0x00) || probed(id, who)
            == Probe::Read(0x75),
        id is Some && id != Some(0x24u8) && who is None ==> probed(id, who) == Probe::Read(0x75),
{
}

} // verus!
