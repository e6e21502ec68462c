//! Device commands of the EK86317A programmer: which bridge a device ID
//! names, and what a probe found.

use vstd::prelude::*;

use crate::ek86317a::Ek86317a;
use crate::pmu::commands::device::{char_range, first_colon, first_colon_from};
use crate::pmu::ek86317a::protocol::{PMIC_ADDR, VCOM_ADDR};
use crate::pmu::transcript::{added, extends, is_write, op_ok};
use crate::text::{chars_of, concat, has_prefix, parse_u32, parse_u32_spec, starts_with_chars};

use super::DeviceInfo;

verus! {

broadcast use vstd::string::group_string_axioms;

/// The prefix of FT232H device IDs: `FT232H:<index>:<description>`.
pub const FT232H_PREFIX: &'static str = "FT232H:";

/// The device ID of the development mock bridge.
pub const MOCK_DEVICE_ID: &'static str = "Mock FT232H (development)";

/// The second ':'-separated field of `s` (`splitn(3, ':')`), if `s` has one.
pub open spec fn second_field(s: Seq<char>) -> Option<Seq<char>> {
    let a = first_colon(s);
    if a >= s.len() {
        None
    } else {
        let t = s.skip(a + 1);
        Some(t.take(first_colon(t)))
    }
}

/// The FT232H device index a device ID carries in its second field.
pub open spec fn ft232h_index(device_id: Seq<char>) -> Option<u32> {
    match second_field(device_id) {
        Some(f) => parse_u32_spec(f),
        None => None,
    }
}

/// The device index of an FT232H device ID.
pub fn parse_ft232h_index(device_id: &str) -> (r: Result<u32, String>)
    ensures
        match ft232h_index(device_id@) {
            Some(n) => r == Ok::<u32, String>(n),
            None => r matches Err(e) && e@ == "Invalid device ID: "@ + device_id@,
        },
{
    let id = chars_of(device_id);
    let a = first_colon_from(&id, 0);
    assert(id@.skip(0) =~= id@);
    if a >= id.len() {
        return Err(concat("Invalid device ID: ", device_id));
    }
    let b = first_colon_from(&id, a + 1);
    let field = char_range(&id, a + 1, b);
    proof {
        let t = id@.skip(a + 1);
        assert(t.take(first_colon(t)) =~= id@.subrange(a + 1, b as int));
    }
    match parse_u32(&field) {
        Some(n) => Ok(n),
        None => Err(concat("Invalid device ID: ", device_id)),
    }
}

/// The bridge a device ID names.
#[derive(Debug, Clone, Copy, PartialEq, Eq, Structural)]
pub enum DeviceKind {
    Ft232h,
    Mock,
}

/// The bridge `device_id` names: an FT232H by prefix, or the development mock
/// by its exact ID; anything else is unsupported.
pub open spec fn device_kind_of(device_id: Seq<char>) -> Option<DeviceKind> {
    if has_prefix(device_id, FT232H_PREFIX@) {
        Some(DeviceKind::Ft232h)
    } else if device_id == MOCK_DEVICE_ID@ {
        Some(DeviceKind::Mock)
    } else {
        None
    }
}

pub fn device_kind(device_id: &str) -> (r: Result<DeviceKind, String>)
    ensures
        match device_kind_of(device_id@) {
            Some(k) => r == Ok::<DeviceKind, String>(k),
            None => r matches Err(e) && e@ == "Unsupported device ID: "@ + device_id@,
        },
{
    let id = chars_of(device_id);
    if starts_with_chars(&id, &chars_of(FT232H_PREFIX)) {
        return Ok(DeviceKind::Ft232h);
    }
    let mock = chars_of(MOCK_DEVICE_ID);
    proof {
        assert(id@.take(id@.len() as int) =~= id@);
    }
    let is_mock = starts_with_chars(&id, &mock) && id.len() == mock.len();
    proof {
        if is_mock {
            assert(id@.take(mock@.len() as int) =~= id@);
        }
    }
    if is_mock {
        Ok(DeviceKind::Mock)
    } else {
        Err(concat("Unsupported device ID: ", device_id))
    }
}

/// Probe the connected EK86317A (a bus recovery, then address-only writes to
/// the PMIC and VCOM slaves) and report what answered under `device_id`.
pub fn probe_device_info(device: &mut Ek86317a, device_id: String) -> (r: Result<DeviceInfo, String>)
    ensures
        extends(old(device).bus_history(), final(device).bus_history()),
        r matches Ok(info) && {
            let ops = added(old(device).bus_history(), final(device).bus_history());
            &&& ops.len() == 3
            &&& ops[0] is Recovery
            &&& is_write(ops[1], PMIC_ADDR, Seq::empty())
            &&& is_write(ops[2], VCOM_ADDR, Seq::empty())
            &&& info.pmic_detected == op_ok(ops[1])
            &&& info.vcom_detected == op_ok(ops[2])
            &&& info.device_id@ == device_id@
        },
{
    let (pmic_detected, vcom_detected) = match device.probe() {
        Ok(p) => p,
        Err(e) => {
            return Err(concat("Probe failed: ", e.as_str()));
        },
    };
    Ok(DeviceInfo { pmic_detected, vcom_detected, device_id })
}

} // verus!
