//! Verified logic of the FlintOS device drivers.

pub mod bus;
pub mod esp32;
pub mod logical;
pub mod math;
pub mod usb;
