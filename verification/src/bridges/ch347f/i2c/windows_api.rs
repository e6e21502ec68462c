//! What the Windows CH347 driver reports of a device, and how it is described.

use vstd::prelude::*;
use vstd::slice::slice_subrange;

use crate::text::{from_utf8_lossy, push_str, trim, trimmed, utf8_lossy};

verus! {

/// The length of the C string at the start of `raw`: the index of its first
/// NUL byte, or the whole buffer if it has none.
pub open spec fn c_string_len(raw: Seq<u8>) -> int
    decreases raw.len(),
{
    if raw.len() == 0 || raw[0] == 0 {
        0
    } else {
        1 + c_string_len(raw.drop_first())
    }
}

/// The text of the C string in `raw`: its bytes up to the first NUL, decoded
/// as UTF-8 with replacement, without surrounding whitespace.
pub open spec fn c_string_text(raw: Seq<u8>) -> Seq<char> {
    trimmed(utf8_lossy(raw.take(c_string_len(raw))))
}

proof fn lemma_c_string_len_at(raw: Seq<u8>, k: int)
    requires
        0 <= k <= raw.len(),
        forall|j: int| 0 <= j < k ==> raw[j] != 0,
        k < raw.len() ==> raw[k] == 0,
    ensures
        c_string_len(raw) == k,
    decreases raw.len(),
{
    if k > 0 {
        assert forall|j: int| 0 <= j < k - 1 implies raw.drop_first()[j] != 0 by {
            assert(raw.drop_first()[j] == raw[j + 1]);
        }
        lemma_c_string_len_at(raw.drop_first(), k - 1);
    }
}

/// Decode a NUL-terminated string from a fixed-size driver buffer.
pub fn decode_c_string(raw: &[u8]) -> (s: String)
    ensures
        s@ == c_string_text(raw@),
{
    let mut n: usize = 0;
    while n < raw.len()
        invariant
            n <= raw@.len(),
            forall|j: int| 0 <= j < n ==> raw@[j] != 0,
        ensures
            n <= raw@.len(),
            forall|j: int| 0 <= j < n ==> raw@[j] != 0,
            n < raw@.len() ==> raw@[n as int] == 0,
        decreases raw@.len() - n,
    {
        if raw[n] == 0 {
            break;
        }
        n = n + 1;
    }
    proof {
        lemma_c_string_len_at(raw@, n as int);
    }
    let text = from_utf8_lossy(slice_subrange(raw, 0, n));
    assert(raw@.subrange(0, n as int) =~= raw@.take(n as int));
    trim(text.as_str())
}

/// The strings the Windows driver reports of a device.
pub struct DeviceInfo {
    pub product_string: [u8; 64],
    pub manufacturer_string: [u8; 64],
    pub func_desc_str: [u8; 64],
}

impl DeviceInfo {
    pub fn product(&self) -> (s: String)
        ensures
            s@ == c_string_text(self.product_string@),
    {
        decode_c_string(self.product_string.as_slice())
    }

    pub fn manufacturer(&self) -> (s: String)
        ensures
            s@ == c_string_text(self.manufacturer_string@),
    {
        decode_c_string(self.manufacturer_string.as_slice())
    }

    pub fn function_desc(&self) -> (s: String)
        ensures
            s@ == c_string_text(self.func_desc_str@),
    {
        decode_c_string(self.func_desc_str.as_slice())
    }
}

/// `parts` joined with `sep` between neighbours.
pub open spec fn join(parts: Seq<Seq<char>>, sep: Seq<char>) -> Seq<char>
    decreases parts.len(),
{
    if parts.len() == 0 {
        Seq::empty()
    } else if parts.len() == 1 {
        parts[0]
    } else {
        join(parts.drop_last(), sep) + sep + parts.last()
    }
}

/// `s` as a one-part list if it is not empty, else no part.
pub open spec fn part(s: Seq<char>) -> Seq<Seq<char>> {
    if s.len() > 0 {
        seq![s]
    } else {
        Seq::empty()
    }
}

/// The description of a device: its manufacturer, product and function
/// strings that are not empty, joined by " / ", or "CH347 bridge" if all are
/// empty.
pub open spec fn description(manufacturer: Seq<char>, product: Seq<char>, function: Seq<char>) -> Seq<
    char,
> {
    let parts = part(manufacturer) + part(product) + part(function);
    if parts.len() == 0 {
        "CH347 bridge"@
    } else {
        join(parts, " / "@)
    }
}

/// `parts` joined with `sep`.
pub(crate) fn join_strings(parts: &Vec<String>, sep: &str) -> (s: String)
    ensures
        s@ == join(parts@.map_values(|p: String| p@), sep@),
{
    let ghost views = parts@.map_values(|p: String| p@);
    let mut s = String::new();
    let mut i: usize = 0;
    while i < parts.len()
        invariant
            i <= parts@.len(),
            views == parts@.map_values(|p: String| p@),
            s@ == join(views.take(i as int), sep@),
        decreases parts@.len() - i,
    {
        assert(views.take(i + 1).drop_last() =~= views.take(i as int));
        if i > 0 {
            push_str(&mut s, sep);
        } else {
            assert(s@ =~= Seq::<char>::empty());
        }
        push_str(&mut s, parts[i].as_str());
        i = i + 1;
        proof {
            if i == 1 {
                assert(s@ =~= views.take(1)[0]);
            } else {
                assert(s@ =~= join(views.take(i - 1), sep@) + sep@ + views.take(i as int).last());
            }
        }
    }
    assert(views.take(i as int) =~= views);
    s
}

/// Describe a device by the strings the driver reported.
pub fn format_device_description(info: &DeviceInfo) -> (s: String)
    ensures
        s@ == description(
            c_string_text(info.manufacturer_string@),
            c_string_text(info.product_string@),
            c_string_text(info.func_desc_str@),
        ),
{
    let mut parts: Vec<String> = Vec::new();
    let manufacturer = info.manufacturer();
    let product = info.product();
    let function_desc = info.function_desc();
    let ghost m = manufacturer@;
    let ghost p = product@;
    let ghost f = function_desc@;
    if !manufacturer.as_str().is_empty() {
        parts.push(manufacturer);
    }
    assert(parts@.map_values(|q: String| q@) =~= part(m));
    if !product.as_str().is_empty() {
        parts.push(product);
    }
    assert(parts@.map_values(|q: String| q@) =~= part(m) + part(p));
    if !function_desc.as_str().is_empty() {
        parts.push(function_desc);
    }
    assert(parts@.map_values(|q: String| q@) =~= part(m) + part(p) + part(f));
    if parts.len() == 0 {
        "CH347 bridge".to_owned()
    } else {
        join_strings(&parts, " / ")
    }
}

/// The description of a device slot: from the driver's strings if it
/// reported them, else "CH347 bridge".
pub fn slot_description(info: Option<&DeviceInfo>) -> (s: String)
    ensures
        s@ == match info {
            Some(i) => description(
                c_string_text(i.manufacturer_string@),
                c_string_text(i.product_string@),
                c_string_text(i.func_desc_str@),
            ),
            None => "CH347 bridge"@,
        },
{
    match info {
        Some(i) => format_device_description(i),
        None => "CH347 bridge".to_owned(),
    }
}

} // verus!
