//! EEPROM and fault-flag commands of the EK86317A programmer.

use vstd::prelude::*;

use crate::ek86317a::registers::{fault_flags_from, FaultFlags, VCOM_REG_FAULT};
use crate::ek86317a::Ek86317a;
use crate::pmu::ek86317a::protocol::VCOM_ADDR;
use crate::pmu::transcript::{added, extends, fails_with, is_reg_read, op_ok, reply_byte};

verus! {

/// Read the fault register of the VCOM slave and decode its flags.
pub fn read_fault_flags(device: &mut Ek86317a) -> (r: Result<FaultFlags, String>)
    ensures
        extends(old(device).bus_history(), final(device).bus_history()),
        ({
            let ops = added(old(device).bus_history(), final(device).bus_history());
            &&& ops.len() == 1
            &&& is_reg_read(ops[0], VCOM_ADDR, VCOM_REG_FAULT)
            &&& (r is Ok <==> op_ok(ops[0]))
            &&& !op_ok(ops[0]) ==> fails_with(r, ops[0])
            &&& r matches Ok(f) ==> f == fault_flags_from(reply_byte(ops[0]))
        }),
{
    let raw = match device.read_fault_flags() {
        Ok(raw) => raw,
        Err(e) => {
            return Err(e);
        },
    };
    Ok(FaultFlags::from_raw(raw))
}

} // verus!
