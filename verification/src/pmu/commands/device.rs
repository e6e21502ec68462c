//! Device identifiers of the bridge selection: `bridge:<kind>:<selector>:<description>`.

use vstd::prelude::*;

use crate::bridges::i2c::{BusOp, I2cBus};
use crate::pmu::chip::{self, model_spec, ChipModel, ChipSpec};
use crate::pmu::commands::DeviceInfo;
use crate::pmu::device::{vcom_probe_register, ChipDevice};
use crate::pmu::transcript::{added, extends, is_reg_read, op_ok};
use crate::text::{
    chars_of, concat, decimal, has_prefix, is_digit, lemma_decimal_digits, lemma_parse_decimal,
    parse_u32, parse_u32_spec, push_decimal, push_str, starts_with_chars, string_from_chars,
};

verus! {

broadcast use vstd::string::group_string_axioms;

pub const FTDI_BRIDGE_PREFIX: &'static str = "bridge:ftdi:";

pub const CH347F_BRIDGE_PREFIX: &'static str = "bridge:ch347f:";

pub const MOCK_BRIDGE_ID: &'static str = "bridge:mock:development";

/// Index of the first ':' in `s`, or `s.len()` if there is none.
pub open spec fn first_colon(s: Seq<char>) -> int
    decreases s.len(),
{
    if s.len() == 0 {
        0
    } else if s[0] == ':' {
        0
    } else {
        1 + first_colon(s.drop_first())
    }
}

pub(crate) proof fn lemma_first_colon(s: Seq<char>)
    ensures
        0 <= first_colon(s) <= s.len(),
        first_colon(s) < s.len() ==> s[first_colon(s)] == ':',
        forall|j: int| 0 <= j < first_colon(s) ==> s[j] != ':',
    decreases s.len(),
{
    if s.len() > 0 && s[0] != ':' {
        lemma_first_colon(s.drop_first());
        assert forall|j: int| 0 <= j < first_colon(s) implies s[j] != ':' by {
            if j > 0 {
                assert(s[j] == s.drop_first()[j - 1]);
            }
        }
    }
}

/// The third ':'-separated field of `s` when split into at most four fields
/// (`splitn(4, ':')`), if `s` has at least three fields.
pub open spec fn third_field(s: Seq<char>) -> Option<Seq<char>> {
    let a = first_colon(s);
    if a >= s.len() {
        None
    } else {
        let t = s.skip(a + 1);
        let b = first_colon(t);
        if b >= t.len() {
            None
        } else {
            let u = t.skip(b + 1);
            Some(u.take(first_colon(u)))
        }
    }
}

/// The selector part of a device ID with the given prefix: an error if the ID
/// does not start with the prefix, or if its third field is missing or empty.
pub open spec fn bridge_selector(prefix: Seq<char>, device_id: Seq<char>) -> Result<Seq<char>, Seq<char>> {
    if !has_prefix(device_id, prefix) {
        Err("Device ID "@ + device_id + " does not match prefix "@ + prefix)
    } else {
        match third_field(device_id) {
            Some(f) => if f.len() > 0 {
                Ok(f)
            } else {
                Err("Invalid device ID: "@ + device_id)
            },
            None => Err("Invalid device ID: "@ + device_id),
        }
    }
}

/// The index of the first ':' at or after `start`, or `v.len()`.
pub(crate) fn first_colon_from(v: &Vec<char>, start: usize) -> (i: usize)
    requires
        start <= v@.len(),
    ensures
        start <= i <= v@.len(),
        i == start + first_colon(v@.skip(start as int)),
{
    proof {
        lemma_first_colon(v@.skip(start as int));
    }
    let mut i = start;
    while i < v.len()
        invariant
            start <= i <= v@.len(),
            forall|j: int| start <= j < i ==> v@[j] != ':',
        ensures
            start <= i <= v@.len(),
            forall|j: int| start <= j < i ==> v@[j] != ':',
            i < v@.len() ==> v@[i as int] == ':',
        decreases v@.len() - i,
    {
        if v[i] == ':' {
            break;
        }
        i = i + 1;
    }
    proof {
        let s = v@.skip(start as int);
        assert forall|j: int| 0 <= j < i - start implies s[j] != ':' by {
            assert(s[j] == v@[start + j]);
        }
        if i < v@.len() {
            assert(s[i - start] == v@[i as int]);
        }
        lemma_first_colon_at(s, (i - start) as int);
    }
    i
}

/// A position before which no ':' occurs and at which ':' occurs (or the end)
/// is the first ':'.
pub(crate) proof fn lemma_first_colon_at(s: Seq<char>, k: int)
    requires
        0 <= k <= s.len(),
        forall|j: int| 0 <= j < k ==> s[j] != ':',
        k < s.len() ==> s[k] == ':',
    ensures
        first_colon(s) == k,
    decreases s.len(),
{
    if k > 0 {
        assert forall|j: int| 0 <= j < k - 1 implies s.drop_first()[j] != ':' by {
            assert(s.drop_first()[j] == s[j + 1]);
        }
        lemma_first_colon_at(s.drop_first(), k - 1);
    }
}

/// The characters `v[from..to]`.
pub(crate) fn char_range(v: &Vec<char>, from: usize, to: usize) -> (r: Vec<char>)
    requires
        from <= to <= v@.len(),
    ensures
        r@ == v@.subrange(from as int, to as int),
{
    let mut r: Vec<char> = Vec::new();
    let mut i = from;
    while i < to
        invariant
            from <= i <= to,
            to <= v@.len(),
            r@ == v@.subrange(from as int, i as int),
        decreases to - i,
    {
        r.push(v[i]);
        i = i + 1;
        assert(r@ =~= v@.subrange(from as int, i as int));
    }
    r
}

fn invalid_device_id(device_id: &str) -> (e: String)
    ensures
        e@ == "Invalid device ID: "@ + device_id@,
{
    concat("Invalid device ID: ", device_id)
}

/// The selector part (third ':'-separated field) of a device ID that starts
/// with `prefix`.
pub fn parse_bridge_selector(prefix: &str, device_id: &str) -> (r: Result<String, String>)
    ensures
        match bridge_selector(prefix@, device_id@) {
            Ok(f) => r matches Ok(s) && s@ == f,
            Err(m) => r matches Err(e) && e@ == m,
        },
{
    let id = chars_of(device_id);
    let p = chars_of(prefix);
    if !starts_with_chars(&id, &p) {
        let mut e = concat("Device ID ", device_id);
        push_str(&mut e, " does not match prefix ");
        push_str(&mut e, prefix);
        assert(e@ =~= "Device ID "@ + device_id@ + " does not match prefix "@ + prefix@);
        return Err(e);
    }
    let a = first_colon_from(&id, 0);
    assert(id@.skip(0) =~= id@);
    if a >= id.len() {
        return Err(invalid_device_id(device_id));
    }
    let b = first_colon_from(&id, a + 1);
    let ghost t = id@.skip(a + 1);
    if b >= id.len() {
        return Err(invalid_device_id(device_id));
    }
    let c = first_colon_from(&id, b + 1);
    proof {
        let k: int = (b - a) as int;
        assert(0 <= k <= t.len());
        assert forall|j: int| 0 <= j < t.skip(k).len() implies t.skip(k)[j] == id@.skip(b + 1)[j] by {
            assert(t.skip(k)[j] == t[j + k]);
            assert(t[j + k] == id@[a + 1 + j + k]);
        }
        assert(t.skip(k) =~= id@.skip(b + 1));
        let u = id@.skip(b + 1);
        assert(c == b + 1 + first_colon(u));
        assert(u.take(first_colon(u)) =~= id@.subrange(b + 1, c as int));
    }
    if c == b + 1 {
        return Err(invalid_device_id(device_id));
    }
    let field = char_range(&id, b + 1, c);
    Ok(string_from_chars(&field))
}

/// The numeric selector of a device ID that starts with `prefix`.
pub fn parse_bridge_index(prefix: &str, device_id: &str) -> (r: Result<u32, String>)
    ensures
        match bridge_selector(prefix@, device_id@) {
            Ok(f) => match parse_u32_spec(f) {
                Some(n) => r == Ok::<u32, String>(n),
                None => r matches Err(e) && e@ == "Invalid device ID: "@ + device_id@,
            },
            Err(m) => r matches Err(e) && e@ == m,
        },
{
    let selector = match parse_bridge_selector(prefix, device_id) {
        Ok(s) => s,
        Err(e) => {
            return Err(e);
        },
    };
    let digits = chars_of(selector.as_str());
    match parse_u32(&digits) {
        Some(n) => Ok(n),
        None => Err(invalid_device_id(device_id)),
    }
}

/// The selector of an ID made of `prefix`, a selector without ':' and a
/// description: the selector comes back.
proof fn lemma_selector_of_id(prefix: Seq<char>, k1: int, k2: int, selector: Seq<char>, description: Seq<char>)
    requires
        0 <= k1 < k2 < prefix.len(),
        k2 == prefix.len() - 1,
        prefix[k1] == ':',
        prefix[k2] == ':',
        forall|j: int| 0 <= j < prefix.len() && j != k1 && j != k2 ==> prefix[j] != ':',
        selector.len() > 0,
        !selector.contains(':'),
    ensures
        bridge_selector(prefix, prefix + selector + ":"@ + description) == Ok::<
            Seq<char>,
            Seq<char>,
        >(selector),
{
    reveal_strlit(":");
    let id = prefix + selector + ":"@ + description;
    assert(id.take(prefix.len() as int) =~= prefix);
    assert forall|j: int| 0 <= j < k1 implies id[j] != ':' by {
        assert(id[j] == prefix[j]);
    }
    lemma_first_colon_at(id, k1);
    let t = id.skip(k1 + 1);
    assert forall|j: int| 0 <= j < k2 - k1 - 1 implies t[j] != ':' by {
        assert(t[j] == prefix[k1 + 1 + j]);
    }
    assert(t[k2 - k1 - 1] == prefix[k2]);
    lemma_first_colon_at(t, k2 - k1 - 1);
    let u = t.skip(k2 - k1);
    assert(u =~= selector + ":"@ + description);
    assert forall|j: int| 0 <= j < selector.len() implies u[j] != ':' by {
        assert(u[j] == selector[j]);
        if selector[j] == ':' {
            assert(selector.contains(':'));
        }
    }
    assert(u[selector.len() as int] == ':');
    lemma_first_colon_at(u, selector.len() as int);
    assert(u.take(selector.len() as int) =~= selector);
}

/// The IDs a bridge scan lists, `<prefix><selector>:<description>`, connect
/// back to their selector: for the FTDI and CH347F prefixes, a non-empty
/// selector without ':' and any description, the selector is parsed back.
pub proof fn lemma_bridge_id_round_trip(prefix: Seq<char>, selector: Seq<char>, description: Seq<char>)
    requires
        prefix == FTDI_BRIDGE_PREFIX@ || prefix == CH347F_BRIDGE_PREFIX@,
        selector.len() > 0,
        !selector.contains(':'),
    ensures
        bridge_selector(prefix, prefix + selector + ":"@ + description) == Ok::<
            Seq<char>,
            Seq<char>,
        >(selector),
{
    reveal_strlit("bridge:ftdi:");
    reveal_strlit("bridge:ch347f:");
    if prefix == FTDI_BRIDGE_PREFIX@ {
        lemma_selector_of_id(prefix, 6, 11, selector, description);
    } else {
        lemma_selector_of_id(prefix, 6, 13, selector, description);
    }
}

/// An index listed in a bridge ID parses back: the ID
/// `<prefix><index>:<description>` gives `index`.
pub proof fn lemma_bridge_index_round_trip(prefix: Seq<char>, index: u32, description: Seq<char>)
    requires
        prefix == FTDI_BRIDGE_PREFIX@ || prefix == CH347F_BRIDGE_PREFIX@,
    ensures
        bridge_selector(prefix, prefix + decimal(index as nat) + ":"@ + description) == Ok::<
            Seq<char>,
            Seq<char>,
        >(decimal(index as nat)),
        parse_u32_spec(decimal(index as nat)) == Some(index),
{
    lemma_decimal_digits(index as nat);
    let d = decimal(index as nat);
    if d.contains(':') {
        let k = choose|k: int| 0 <= k < d.len() && d[k] == ':';
        assert(is_digit(d[k]));
    }
    lemma_bridge_id_round_trip(prefix, d, description);
    lemma_parse_decimal(index);
}

/// The ID a bridge scan lists for the bridge at `index`:
/// `<prefix><index>:<description>`.
pub open spec fn listed_id(prefix: Seq<char>, index: u32, description: Seq<char>) -> Seq<char> {
    prefix + decimal(index as nat) + ":"@ + description
}

/// The IDs of the bridges one enumeration found, in its order; for the FTDI
/// and CH347F prefixes each ID parses back to the index it was made from.
pub fn bridge_ids(prefix: &str, listing: &Vec<(u32, String)>) -> (ids: Vec<String>)
    ensures
        ids@.len() == listing@.len(),
        forall|i: int|
            0 <= i < listing@.len() ==> #[trigger] ids@[i]@ == listed_id(
                prefix@,
                listing@[i].0,
                listing@[i].1@,
            ),
        prefix@ == FTDI_BRIDGE_PREFIX@ || prefix@ == CH347F_BRIDGE_PREFIX@ ==> forall|i: int|
            0 <= i < listing@.len() ==> bridge_selector(prefix@, #[trigger] ids@[i]@) == Ok::<
                Seq<char>,
                Seq<char>,
            >(decimal(listing@[i].0 as nat)),
{
    let mut ids: Vec<String> = Vec::new();
    let mut i: usize = 0;
    while i < listing.len()
        invariant
            i <= listing@.len(),
            ids@.len() == i,
            forall|j: int|
                0 <= j < i ==> #[trigger] ids@[j]@ == listed_id(
                    prefix@,
                    listing@[j].0,
                    listing@[j].1@,
                ),
            prefix@ == FTDI_BRIDGE_PREFIX@ || prefix@ == CH347F_BRIDGE_PREFIX@ ==> forall|j: int|
                0 <= j < i ==> bridge_selector(prefix@, #[trigger] ids@[j]@) == Ok::<
                    Seq<char>,
                    Seq<char>,
                >(decimal(listing@[j].0 as nat)),
        decreases listing@.len() - i,
    {
        let (index, description) = &listing[i];
        let mut id = concat(prefix, "");
        push_decimal(&mut id, *index);
        push_str(&mut id, ":");
        push_str(&mut id, description.as_str());
        proof {
            reveal_strlit("");
            reveal_strlit(":");
            assert(id@ =~= listed_id(prefix@, *index, description@));
            if prefix@ == FTDI_BRIDGE_PREFIX@ || prefix@ == CH347F_BRIDGE_PREFIX@ {
                lemma_bridge_index_round_trip(prefix@, *index, description@);
            }
        }
        ids.push(id);
        i = i + 1;
    }
    ids
}

/// The kind of bridge a device ID names.
#[derive(Debug, Clone, Copy, PartialEq, Eq, Structural)]
pub enum BridgeKind {
    Ftdi,
    Ch347f,
    Mock,
}

/// The bridge a device ID names: by prefix for FTDI and CH347F bridges, the
/// exact mock ID for the development mock; anything else is unsupported.
pub open spec fn bridge_kind_of(device_id: Seq<char>) -> Option<BridgeKind> {
    if has_prefix(device_id, FTDI_BRIDGE_PREFIX@) {
        Some(BridgeKind::Ftdi)
    } else if has_prefix(device_id, CH347F_BRIDGE_PREFIX@) {
        Some(BridgeKind::Ch347f)
    } else if device_id == MOCK_BRIDGE_ID@ {
        Some(BridgeKind::Mock)
    } else {
        None
    }
}

/// Which bridge backend serves `device_id`.
pub fn bridge_kind(device_id: &str) -> (r: Result<BridgeKind, String>)
    ensures
        match bridge_kind_of(device_id@) {
            Some(k) => r == Ok::<BridgeKind, String>(k),
            None => r matches Err(e) && e@ == "Unsupported device ID: "@ + device_id@,
        },
{
    let id = chars_of(device_id);
    let ftdi = chars_of(FTDI_BRIDGE_PREFIX);
    if starts_with_chars(&id, &ftdi) {
        Ok(BridgeKind::Ftdi)
    } else if starts_with_chars(&id, &chars_of(CH347F_BRIDGE_PREFIX)) {
        Ok(BridgeKind::Ch347f)
    } else {
        let mock = chars_of(MOCK_BRIDGE_ID);
        proof {
            assert(id@.take(id@.len() as int) =~= id@);
        }
        let is_mock = starts_with_chars(&id, &mock) && id.len() == mock.len();
        proof {
            if is_mock {
                assert(id@.take(mock@.len() as int) =~= id@);
            }
        }
        if is_mock {
            Ok(BridgeKind::Mock)
        } else {
            Err(concat("Unsupported device ID: ", device_id))
        }
    }
}

/// `ops` is a probe of the chip `sp` and `info` reports it for `device_id`:
/// a bus recovery, a read of the PMIC's AVDD register and, if the chip has a VCOM slave, a
/// read of the VCOM slave; each slave is detected if its read succeeded.
pub open spec fn probe_report(ops: Seq<BusOp>, sp: ChipSpec, device_id: Seq<char>, info: DeviceInfo) -> bool {
    &&& ops.len() >= 2
    &&& ops[0] is Recovery
    &&& is_reg_read(ops[1], sp.pmic_addr, sp.avdd_reg)
    &&& info.pmic_detected == op_ok(ops[1])
    &&& info.device_id@ == device_id
    &&& info.chip_model == sp.model
    &&& match sp.vcom_addr {
        None => ops.len() == 2 && info.vcom_detected is None,
        Some(a) => ops.len() == 3 && is_reg_read(ops[2], a, vcom_probe_register(sp))
            && info.vcom_detected == Some(op_ok(ops[2])),
    }
}

/// Probe the connected chip and report what answered under `device_id`.
pub fn probe_device_info(device: &mut ChipDevice, device_id: String) -> (r: Result<DeviceInfo, String>)
    ensures
        final(device).chip() == old(device).chip(),
        extends(old(device).bus_history(), final(device).bus_history()),
        r matches Ok(info) && probe_report(
            added(old(device).bus_history(), final(device).bus_history()),
            old(device).chip(),
            device_id@,
            info,
        ),
{
    let probed = device.probe();
    let (pmic_detected, vcom_detected) = match probed {
        Ok(p) => p,
        Err(e) => {
            return Err(concat("Probe failed: ", e.as_str()));
        },
    };
    Ok(DeviceInfo { pmic_detected, vcom_detected, device_id, chip_model: device.chip_model() })
}

/// Connect to a chip of `chip_model` behind the opened bridge `bus` and probe
/// it; returns the driver, whose bus carried the probe after what `bus` had
/// carried, and what answered.
pub fn connect_with_bus(bus: Box<dyn I2cBus>, device_id: String, chip_model: ChipModel) -> (r: Result<
    (ChipDevice, DeviceInfo),
    String,
>)
    ensures
        r matches Ok((d, info)) && {
            &&& d.chip() == model_spec(chip_model)
            &&& extends(bus.history(), d.bus_history())
            &&& probe_report(added(bus.history(), d.bus_history()), model_spec(chip_model), device_id@, info)
        },
{
    let spec = chip::spec_for_model(chip_model);
    let mut device = ChipDevice::new(bus, spec);
    let ghost h = device.bus_history();
    let info = probe_device_info(&mut device, device_id);
    match info {
        Ok(info) => Ok((device, info)),
        Err(e) => Err(e),
    }
}

} // verus!
