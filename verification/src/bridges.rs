//! I2C bridge abstraction and the bridge backends.

pub mod ch347f;
pub mod ft232h;
pub mod ftdi;
pub mod i2c;

pub use i2c::I2cBus;
