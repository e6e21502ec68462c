//! EK86317A register map, firmware images and driver.

pub mod firmware;
pub mod registers;

pub use crate::pmu::ek86317a::protocol::Ek86317a;
pub use registers::FaultFlags;
