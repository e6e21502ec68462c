//! EEPROM and fault-flag commands.

use vstd::prelude::*;

use crate::pmu::chip::{self, fault_flags_of, FaultFlags};
use crate::pmu::device::ChipDevice;
use crate::pmu::transcript::{added, extends, fails_with, is_reg_read, lemma_extends_refl, op_ok, reply_byte};
use crate::text::concat;

verus! {

/// Read and decode the fault flags. A chip without separate fault flags is
/// refused before any transaction.
pub fn read_fault_flags(device: &mut ChipDevice) -> (r: Result<FaultFlags, String>)
    ensures
        final(device).chip() == old(device).chip(),
        extends(old(device).bus_history(), final(device).bus_history()),
        !old(device).chip().supports_fault_flags ==> final(device).bus_history() == old(
            device,
        ).bus_history() && (r matches Err(e) && e@ == old(device).chip().display_name@
            + " does not support separate fault flags"@),
        old(device).chip().supports_fault_flags ==> match (
            old(device).chip().vcom_addr,
            old(device).chip().vcom_fault_reg,
        ) {
            (Some(vcom), Some(fault)) => {
                let ops = added(old(device).bus_history(), final(device).bus_history());
                &&& ops.len() == 1
                &&& is_reg_read(ops[0], vcom, fault)
                &&& (r is Ok <==> op_ok(ops[0]))
                &&& !op_ok(ops[0]) ==> fails_with(r, ops[0])
                &&& r matches Ok(f) ==> f == fault_flags_of(
                    old(device).chip().model,
                    reply_byte(ops[0]),
                )
            },
            (None, _) => final(device).bus_history() == old(device).bus_history() && (r matches Err(
                e,
            ) && e@ == old(device).chip().display_name@ + " does not expose a separate VCOM slave"@),
            (Some(_), None) => final(device).bus_history() == old(device).bus_history() && (r matches Err(
                e,
            ) && e@ == old(device).chip().display_name@ + " does not expose fault flags"@),
        },
{
    proof {
        lemma_extends_refl(device.bus_history());
    }
    let spec = device.spec();
    if !spec.supports_fault_flags {
        return Err(concat(spec.display_name, " does not support separate fault flags"));
    }
    let raw = match device.read_fault_flags() {
        Ok(raw) => raw,
        Err(e) => {
            return Err(e);
        },
    };
    Ok(chip::decode_fault_flags(device.chip_model(), raw))
}

} // verus!
