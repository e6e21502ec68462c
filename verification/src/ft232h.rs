//! FT232H driver module of the EK86317A programmer: the I2C bus trait and the
//! development mock bridge simulating EK86317A registers.

pub mod i2c;

pub use i2c::{I2cBus, MockI2cBus};
