//! The USB CDC serial device: descriptors, control requests and data flow.

pub mod descriptors;
pub mod device;
pub mod laws;
pub mod requests;
pub mod ring;
pub mod serial;
