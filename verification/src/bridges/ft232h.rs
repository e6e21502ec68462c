//! FT232H bridge backend: the FTDI MPSSE I2C bridge and a development mock
//! bridge that simulates PMU register behavior.

pub mod i2c;
pub mod mpsse;

pub use i2c::{Ft232hI2cBus, MockI2cBus};
