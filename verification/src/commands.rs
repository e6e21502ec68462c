//! The computations behind the EK86317A programmer's commands, and the
//! results they report.

pub mod device;
pub mod eeprom;
pub mod firmware;
pub mod register;

use vstd::prelude::*;

pub use crate::pmu::commands::{ProgramResult, VerifyAllResult, VerifyResult, WriteAllDacResult};

verus! {

/// What a connection or detection found: whether the PMIC and the VCOM slave
/// answered, and the device the connection was made to.
#[derive(Debug, Clone)]
pub struct DeviceInfo {
    pub pmic_detected: bool,
    pub vcom_detected: bool,
    pub device_id: String,
}

} // verus!
