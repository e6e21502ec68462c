//! The computations behind the application's PMU commands, and the results
//! they report.

pub mod device;
pub mod eeprom;
pub mod firmware;
pub mod register;

use vstd::prelude::*;

use crate::pmu::chip::ChipModel;

verus! {

/// What a connection or detection found.
#[derive(Debug, Clone)]
pub struct DeviceInfo {
    pub pmic_detected: bool,
    pub vcom_detected: Option<bool>,
    pub device_id: String,
    pub chip_model: ChipModel,
}

/// Result of programming a firmware image.
#[derive(Debug, Clone, Copy)]
pub struct ProgramResult {
    pub success: bool,
    pub registers_written: usize,
    pub eeprom_written: bool,
}

/// Result of comparing the EEPROM with a firmware image.
#[derive(Debug, Clone)]
pub struct VerifyResult {
    pub success: bool,
    pub total: usize,
    pub matched: usize,
    /// `(address, expected, actual)` for each differing register.
    pub mismatches: Vec<(u8, u8, u8)>,
}

/// Result of comparing both the DAC and the EEPROM with a firmware image.
#[derive(Debug, Clone)]
pub struct VerifyAllResult {
    pub total: usize,
    pub dac_matched: usize,
    pub eeprom_matched: usize,
    pub dac_mismatches: Vec<(u8, u8, u8)>,
    pub eeprom_mismatches: Vec<(u8, u8, u8)>,
}

/// Result of a batch DAC write.
#[derive(Debug, Clone, Copy)]
pub struct WriteAllDacResult {
    pub success: bool,
    pub registers_written: usize,
}

/// The value the last pair for `addr` in `pairs` gives, if any.
pub open spec fn last_value(pairs: Seq<(u8, u8)>, addr: u8) -> Option<u8>
    decreases pairs.len(),
{
    if pairs.len() == 0 {
        None
    } else if pairs.last().0 == addr {
        Some(pairs.last().1)
    } else {
        last_value(pairs.drop_last(), addr)
    }
}

/// `total - n`, or 0 if `n` exceeds `total`.
pub open spec fn matched_count(total: usize, n: nat) -> usize {
    if n <= total {
        (total - n) as usize
    } else {
        0
    }
}

} // verus!
