//! FTDI bridge backend: the FTDI MPSSE bridge, and a development mock bridge
//! that simulates PMU register behavior.

pub use crate::bridges::ft232h::i2c::{Ft232hI2cBus as FtdiI2cBus, MockI2cBus};
