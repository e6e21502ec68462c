//! The Linux CH34x driver's device nodes (`/dev/ch34x_pis<N>`), the chip and
//! driver facts it reports, and how a device is described.

use vstd::prelude::*;

use crate::bridges::ch347f::i2c::windows_api::{c_string_text, decode_c_string};
use crate::text::{
    chars_of, decimal, has_prefix, hex2, lemma_parse_decimal, parse_u32, parse_u32_spec,
    push_decimal, push_hex2, push_str, starts_with_chars,
};

verus! {

broadcast use vstd::string::group_string_axioms;

pub const CH34X_DEVICE_DIR: &'static str = "/dev";

pub const CH34X_DEVICE_PREFIX: &'static str = "ch34x_pis";

/// The device node of bridge `index`: `/dev/ch34x_pis<index>`.
pub open spec fn device_path(index: u32) -> Seq<char> {
    CH34X_DEVICE_DIR@ + "/"@ + CH34X_DEVICE_PREFIX@ + decimal(index as nat)
}

/// The bridge index a device-node name stands for: the number after the
/// `ch34x_pis` prefix, if the name has the prefix and the rest parses.
pub open spec fn device_index(name: Seq<char>) -> Option<u32> {
    if has_prefix(name, CH34X_DEVICE_PREFIX@) {
        parse_u32_spec(name.skip(CH34X_DEVICE_PREFIX@.len() as int))
    } else {
        None
    }
}

pub fn device_path_from_index(index: u32) -> (p: String)
    ensures
        p@ == device_path(index),
{
    let mut p = CH34X_DEVICE_DIR.to_owned();
    push_str(&mut p, "/");
    push_str(&mut p, CH34X_DEVICE_PREFIX);
    push_decimal(&mut p, index);
    p
}

pub fn parse_device_index(name: &str) -> (r: Option<u32>)
    ensures
        r == device_index(name@),
{
    let chars = chars_of(name);
    let prefix = chars_of(CH34X_DEVICE_PREFIX);
    if !starts_with_chars(&chars, &prefix) {
        return None;
    }
    let mut suffix: Vec<char> = Vec::new();
    let mut i = prefix.len();
    while i < chars.len()
        invariant
            prefix@.len() <= i <= chars@.len(),
            suffix@ == chars@.subrange(prefix@.len() as int, i as int),
        decreases chars@.len() - i,
    {
        suffix.push(chars[i]);
        i = i + 1;
        assert(suffix@ =~= chars@.subrange(prefix@.len() as int, i as int));
    }
    assert(suffix@ =~= name@.skip(CH34X_DEVICE_PREFIX@.len() as int));
    parse_u32(&suffix)
}

/// The node name of bridge `index` reads back as `index`.
pub proof fn lemma_device_name_round_trip(index: u32)
    ensures
        device_index(CH34X_DEVICE_PREFIX@ + decimal(index as nat)) == Some(index),
{
    let name = CH34X_DEVICE_PREFIX@ + decimal(index as nat);
    assert(name.take(CH34X_DEVICE_PREFIX@.len() as int) =~= CH34X_DEVICE_PREFIX@);
    assert(name.skip(CH34X_DEVICE_PREFIX@.len() as int) =~= decimal(index as nat));
    lemma_parse_decimal(index);
}

/// The chip name the driver's chip-type code stands for.
pub open spec fn chip_name(chip_type: i32) -> &'static str {
    if chip_type == 0 {
        "CH341 bridge"
    } else if chip_type == 1 {
        "CH347T bridge"
    } else if chip_type == 2 {
        "CH347F bridge"
    } else if chip_type == 3 {
        "CH339W bridge"
    } else if chip_type == 4 {
        "CH346C bridge"
    } else {
        "CH34x bridge"
    }
}

pub fn chip_name_for_type(chip_type: i32) -> (name: &'static str)
    ensures
        name == chip_name(chip_type),
{
    match chip_type {
        0 => "CH341 bridge",
        1 => "CH347T bridge",
        2 => "CH347F bridge",
        3 => "CH339W bridge",
        4 => "CH346C bridge",
        _ => "CH34x bridge",
    }
}

/// The driver version text of the driver's version buffer: `driver <version>`,
/// or nothing if the buffer holds no text.
pub open spec fn driver_version(buf: Seq<u8>) -> Option<Seq<char>> {
    if c_string_text(buf).len() == 0 {
        None
    } else {
        Some("driver "@ + c_string_text(buf))
    }
}

pub fn driver_version_text(buf: &[u8]) -> (r: Option<String>)
    ensures
        match driver_version(buf@) {
            Some(t) => r matches Some(s) && s@ == t,
            None => r is None,
        },
{
    let text = decode_c_string(buf);
    if text.as_str().is_empty() {
        None
    } else {
        let mut s = "driver ".to_owned();
        push_str(&mut s, text.as_str());
        Some(s)
    }
}

/// Four upper-case hex digits of `v` (`v < 0x10000`), as `{:04X}` prints it.
pub open spec fn hex4(v: int) -> Seq<char> {
    hex2((v / 256) as u8) + hex2((v % 256) as u8)
}

/// `VID <low half> PID <high half>` of the driver's 32-bit device ID.
pub open spec fn vid_pid(id: u32) -> Seq<char> {
    "VID "@ + hex4(id as int % 0x10000) + " PID "@ + hex4(id as int / 0x10000)
}

fn push_hex4(s: &mut String, v: u32)
    requires
        v < 0x10000,
    ensures
        final(s)@ == old(s)@ + hex4(v as int),
{
    assert((v >> 8u32) == v / 256 && (v & 0xFFu32) == v % 256) by (bit_vector);
    push_hex2(s, (v >> 8) as u8);
    push_hex2(s, (v & 0xFF) as u8);
    assert(final(s)@ =~= old(s)@ + hex4(v as int));
}

pub fn vid_pid_text(id: u32) -> (s: String)
    ensures
        s@ == vid_pid(id),
{
    assert((id & 0xFFFFu32) == id % 0x10000 && (id >> 16u32) == id / 0x10000) by (bit_vector);
    let mut s = "VID ".to_owned();
    push_hex4(&mut s, id & 0xFFFF);
    push_str(&mut s, " PID ");
    push_hex4(&mut s, id >> 16);
    assert(s@ =~= vid_pid(id));
    s
}

/// The description of a device node: chip name, node path, VID/PID and driver
/// version, each replaced by a placeholder where the driver did not report it.
pub open spec fn node_description(
    chip_type: Option<i32>,
    path: Seq<char>,
    driver_buf: Option<Seq<u8>>,
    device_id: Option<u32>,
) -> Seq<char> {
    let chip = match chip_type {
        Some(t) => chip_name(t)@,
        None => "CH34x bridge"@,
    };
    let id = match device_id {
        Some(d) => vid_pid(d),
        None => "VID/PID unknown"@,
    };
    let driver = match driver_buf {
        Some(b) => match driver_version(b) {
            Some(t) => t,
            None => "driver unknown"@,
        },
        None => "driver unknown"@,
    };
    chip + " / "@ + path + " / "@ + id + " / "@ + driver
}

/// Describe the device node at `path` by what the driver reported: the chip
/// type, the driver version buffer and the device ID, each if the query
/// succeeded.
pub fn format_device_description(
    chip_type: Option<i32>,
    path: &str,
    driver_buf: Option<&[u8]>,
    device_id: Option<u32>,
) -> (s: String)
    ensures
        s@ == node_description(
            chip_type,
            path@,
            match driver_buf {
                Some(b) => Some(b@),
                None => None,
            },
            device_id,
        ),
{
    let mut s = match chip_type {
        Some(t) => chip_name_for_type(t).to_owned(),
        None => "CH34x bridge".to_owned(),
    };
    push_str(&mut s, " / ");
    push_str(&mut s, path);
    push_str(&mut s, " / ");
    match device_id {
        Some(d) => {
            let id = vid_pid_text(d);
            push_str(&mut s, id.as_str());
        },
        None => push_str(&mut s, "VID/PID unknown"),
    }
    push_str(&mut s, " / ");
    let driver = match driver_buf {
        Some(b) => driver_version_text(b),
        None => None,
    };
    match driver {
        Some(d) => push_str(&mut s, d.as_str()),
        None => push_str(&mut s, "driver unknown"),
    }
    s
}

/// `x` inserted into `s` after every entry whose index is not larger.
pub open spec fn insert_by_index(s: Seq<(u32, String)>, x: (u32, String)) -> Seq<(u32, String)>
    decreases s.len(),
{
    if s.len() == 0 {
        seq![x]
    } else if s.last().0 <= x.0 {
        s.push(x)
    } else {
        insert_by_index(s.drop_last(), x).push(s.last())
    }
}

/// `s` in ascending index order, entries with equal indices in their input
/// order (a stable sort by index).
pub open spec fn sorted_by_index(s: Seq<(u32, String)>) -> Seq<(u32, String)>
    decreases s.len(),
{
    if s.len() == 0 {
        Seq::empty()
    } else {
        insert_by_index(sorted_by_index(s.drop_last()), s.last())
    }
}

/// `s` is in ascending index order.
pub open spec fn ascending(s: Seq<(u32, String)>) -> bool {
    forall|i: int, j: int| 0 <= i < j < s.len() ==> #[trigger] s[i].0 <= #[trigger] s[j].0
}

proof fn lemma_insert_bounded(t: Seq<(u32, String)>, x: (u32, String), b: u32)
    requires
        forall|j: int| 0 <= j < t.len() ==> #[trigger] t[j].0 <= b,
        x.0 <= b,
    ensures
        insert_by_index(t, x).len() == t.len() + 1,
        forall|i: int| 0 <= i < insert_by_index(t, x).len() ==> #[trigger] insert_by_index(t, x)[i].0 <= b,
    decreases t.len(),
{
    if t.len() > 0 && t.last().0 > x.0 {
        let r = t.drop_last();
        lemma_insert_bounded(r, x, b);
        assert(t[t.len() - 1] == t.last());
    }
}

proof fn lemma_insert_ascending(t: Seq<(u32, String)>, x: (u32, String))
    requires
        ascending(t),
    ensures
        ascending(insert_by_index(t, x)),
        insert_by_index(t, x).len() == t.len() + 1,
    decreases t.len(),
{
    if t.len() == 0 {
    } else if t.last().0 <= x.0 {
        let r = t.push(x);
        assert forall|i: int, j: int| 0 <= i < j < r.len() implies #[trigger] r[i].0 <= #[trigger] r[j].0 by {
            if j == t.len() {
                assert(t[i].0 <= t[t.len() - 1].0);
            }
        }
    } else {
        let d = t.drop_last();
        let last = t.last();
        assert(t[t.len() - 1] == last);
        lemma_insert_ascending(d, x);
        assert forall|j: int| 0 <= j < d.len() implies #[trigger] d[j].0 <= last.0 by {
            assert(t[j].0 <= t[t.len() - 1].0);
        }
        lemma_insert_bounded(d, x, last.0);
        let r = insert_by_index(d, x);
        assert forall|i: int, j: int| 0 <= i < j < r.push(last).len() implies #[trigger] r.push(
            last,
        )[i].0 <= #[trigger] r.push(last)[j].0 by {
            if j == r.len() {
                assert(r[i].0 <= last.0);
            } else {
                assert(r[i].0 <= r[j].0);
            }
        }
    }
}

/// A sort by index lists every entry once, in ascending index order.
pub proof fn lemma_sorted_by_index_ascending(s: Seq<(u32, String)>)
    ensures
        ascending(sorted_by_index(s)),
        sorted_by_index(s).len() == s.len(),
    decreases s.len(),
{
    if s.len() > 0 {
        lemma_sorted_by_index_ascending(s.drop_last());
        lemma_insert_ascending(sorted_by_index(s.drop_last()), s.last());
    }
}

/// Inserting after the entries up to `k`, when every later entry has a larger
/// index and the entry before `k` does not, is inserting at `k`.
proof fn lemma_insert_at(s: Seq<(u32, String)>, x: (u32, String), k: int)
    requires
        0 <= k <= s.len(),
        forall|j: int| k <= j < s.len() ==> s[j].0 > x.0,
        k > 0 ==> s[k - 1].0 <= x.0,
    ensures
        insert_by_index(s, x) == s.take(k).push(x) + s.skip(k),
    decreases s.len(),
{
    if s.len() == 0 {
        assert(s.take(k).push(x) + s.skip(k) =~= seq![x]);
    } else if s.last().0 <= x.0 {
        assert(k == s.len());
        assert(s.take(k).push(x) + s.skip(k) =~= s.push(x));
    } else {
        let t = s.drop_last();
        assert(forall|j: int| k <= j < t.len() ==> t[j] == s[j]);
        lemma_insert_at(t, x, k);
        assert(s.take(k).push(x) + s.skip(k) =~= (t.take(k).push(x) + t.skip(k)).push(s.last()));
    }
}

/// Sort bridge entries by index, keeping the listing order among equal
/// indices.
pub fn sort_by_index(devices: Vec<(u32, String)>) -> (r: Vec<(u32, String)>)
    ensures
        r@ == sorted_by_index(devices@),
{
    let mut rest = devices;
    let ghost all = rest@;
    let mut sorted: Vec<(u32, String)> = Vec::new();
    let mut taken: Vec<(u32, String)> = Vec::new();
    // Move the entries out in reverse, so that they can be inserted in order.
    while rest.len() > 0
        invariant
            all == rest@ + taken@.reverse(),
        decreases rest@.len(),
    {
        let e = rest.pop().unwrap();
        taken.push(e);
        assert(all =~= rest@ + taken@.reverse());
    }
    assert(taken@.reverse() =~= all);
    let ghost n = taken@.len();
    while taken.len() > 0
        invariant
            taken@.len() <= n,
            n == all.len(),
            taken@.reverse() =~= all.skip(n - taken@.len()),
            sorted@ == sorted_by_index(all.take(n - taken@.len())),
        decreases taken@.len(),
    {
        let ghost before = taken@;
        let x = taken.pop().unwrap();
        let ghost i = n - taken@.len() - 1;
        proof {
            assert(before == taken@.push(x));
            assert(before.reverse()[0] == x);
            assert(all.skip(i)[0] == x);
            assert(all[i] == x);
            assert(all.take(i + 1).drop_last() =~= all.take(i));
            assert forall|j: int| 0 <= j < taken@.len() implies taken@.reverse()[j] == all.skip(
                i + 1,
            )[j] by {
                assert(taken@.reverse()[j] == before.reverse()[j + 1]);
                assert(before.reverse()[j + 1] == all.skip(i)[j + 1]);
            }
            assert(taken@.reverse() =~= all.skip(i + 1));
        }
        let mut k = sorted.len();
        while k > 0 && sorted[k - 1].0 > x.0
            invariant
                k <= sorted@.len(),
                forall|j: int| k <= j < sorted@.len() ==> sorted@[j].0 > x.0,
            decreases k,
        {
            k = k - 1;
        }
        proof {
            lemma_insert_at(sorted@, x, k as int);
        }
        sorted.insert(k, x);
        assert(sorted@ =~= sorted_by_index(all.take(i + 1)));
    }
    assert(all.take(n as int) =~= all);
    sorted
}

} // verus!
