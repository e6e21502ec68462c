//! CH34x/CH347 bridge backend: a WCH-backed I2C bridge for the shared PMU
//! transport layer.

pub mod i2c;

pub use i2c::Ch347I2cBus;
