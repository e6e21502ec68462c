//! Programming and inspection of display PMICs (EK86317A, LP6281)
//! over I2C bridges: chip descriptions, register maps, firmware images, the
//! chip drivers, a simulated bridge, and the computations behind the
//! application's commands.

pub mod bridges;
pub mod commands;
pub mod ek86317a;
pub mod error;
pub mod ft232h;
pub mod pmu;
pub mod text;
