//! Raw BIN firmware images: a byte stream mapped to register addresses from 0x00.

use vstd::prelude::*;

use crate::pmu::chip::{self, model_spec, register_address_seq, ChipModel};
use crate::text::is_infix;

verus! {

/// The (address, value) pairs an image `data` holds for the register list
/// `addrs`: each listed address other than `control` that lies inside the
/// image, with the image byte at that address, in list order.
pub open spec fn image_registers(addrs: Seq<u8>, control: u8, data: Seq<u8>) -> Seq<(u8, u8)>
    decreases addrs.len(),
{
    if addrs.len() == 0 {
        Seq::empty()
    } else {
        let rest = image_registers(addrs.drop_last(), control, data);
        let a = addrs.last();
        if a != control && (a as int) < data.len() {
            rest.push((a, data[a as int]))
        } else {
            rest
        }
    }
}

/// Collect the (address, value) pairs that `data` holds for `addrs`.
/// Every pair an image holds is a listed register other than `control`,
/// inside the image, with the image byte at that address; and when the list
/// names no address twice, no address appears in two pairs.
pub proof fn lemma_image_registers_in_image(addrs: Seq<u8>, control: u8, data: Seq<u8>)
    ensures
        forall|i: int|
            0 <= i < image_registers(addrs, control, data).len() ==> {
                let p = #[trigger] image_registers(addrs, control, data)[i];
                &&& addrs.contains(p.0)
                &&& p.0 != control
                &&& (p.0 as int) < data.len()
                &&& p.1 == data[p.0 as int]
            },
        (forall|i: int, j: int| 0 <= i < j < addrs.len() ==> addrs[i] != addrs[j]) ==> forall|
            i: int,
            j: int,
        |
            0 <= i < j < image_registers(addrs, control, data).len() ==> (#[trigger] image_registers(
                addrs,
                control,
                data,
            )[i]).0 != (#[trigger] image_registers(addrs, control, data)[j]).0,
    decreases addrs.len(),
{
    if addrs.len() > 0 {
        let rest_addrs = addrs.drop_last();
        lemma_image_registers_in_image(rest_addrs, control, data);
        let rest = image_registers(rest_addrs, control, data);
        let r = image_registers(addrs, control, data);
        assert forall|i: int| 0 <= i < rest.len() implies addrs.contains(#[trigger] rest[i].0) by {
            let k = choose|k: int| 0 <= k < rest_addrs.len() && rest_addrs[k] == rest[i].0;
            assert(addrs[k] == rest_addrs[k]);
        }
        if forall|i: int, j: int| 0 <= i < j < addrs.len() ==> addrs[i] != addrs[j] {
            assert forall|i: int, j: int| 0 <= i < j < rest_addrs.len() implies rest_addrs[i]
                != rest_addrs[j] by {
                assert(rest_addrs[i] == addrs[i] && rest_addrs[j] == addrs[j]);
            }
            assert forall|i: int| 0 <= i < rest.len() implies (#[trigger] rest[i]).0 != addrs.last() by {
                let k = choose|k: int| 0 <= k < rest_addrs.len() && rest_addrs[k] == rest[i].0;
                assert(addrs[k] == rest_addrs[k]);
                assert(addrs[k] != addrs[addrs.len() - 1]);
            }
            assert forall|i: int, j: int| 0 <= i < j < r.len() implies (#[trigger] r[i]).0 != (
            #[trigger] r[j]).0 by {
                if j < rest.len() {
                    assert(r[i] == rest[i] && r[j] == rest[j]);
                } else {
                    assert(r[i] == rest[i]);
                }
            }
        }
        assert forall|i: int| 0 <= i < r.len() implies addrs.contains(#[trigger] r[i].0) by {
            if i < rest.len() {
                assert(r[i] == rest[i]);
            } else {
                assert(addrs[addrs.len() - 1] == r[i].0);
            }
        }
    }
}

pub(crate) fn collect_image_registers(addrs: &Vec<u8>, control: u8, data: &Vec<u8>) -> (r: Vec<(u8, u8)>)
    ensures
        r@ == image_registers(addrs@, control, data@),
{
    let mut r: Vec<(u8, u8)> = Vec::new();
    let mut i: usize = 0;
    while i < addrs.len()
        invariant
            i <= addrs@.len(),
            r@ == image_registers(addrs@.take(i as int), control, data@),
        decreases addrs@.len() - i,
    {
        let a = addrs[i];
        assert(addrs@.take(i + 1).drop_last() =~= addrs@.take(i as int));
        if a != control && (a as usize) < data.len() {
            r.push((a, data[a as usize]));
        }
        i = i + 1;
    }
    assert(addrs@.take(i as int) =~= addrs@);
    r
}

/// A firmware image for one chip model.
pub struct FirmwareImage {
    pub data: Vec<u8>,
    pub size: usize,
    pub register_count: usize,
    /// The (address, value) pairs the image holds, in register-list order.
    pub registers: Vec<(u8, u8)>,
}

impl FirmwareImage {
    /// The register pairs the image was parsed into.
    pub open spec fn register_pairs(&self) -> Seq<(u8, u8)> {
        self.registers@
    }

    /// The image bytes (`data`).
    pub open spec fn bytes(&self) -> Seq<u8> {
        self.data@
    }

    /// The recorded size (`size`).
    pub open spec fn size_field(&self) -> usize {
        self.size
    }

    /// The recorded register count (`register_count`).
    pub open spec fn count_field(&self) -> usize {
        self.register_count
    }

    /// Parse an image for `chip_model`; an empty image is an error.
    pub fn from_bytes(data: Vec<u8>, chip_model: ChipModel) -> (r: Result<Self, String>)
        ensures
            data@.len() == 0 <==> r is Err,
            r matches Err(e) ==> e@ == "Empty firmware file"@,
            r matches Ok(fw) ==> {
                &&& fw.bytes() == data@
                &&& fw.size_field() == data@.len()
                &&& fw.register_pairs() == image_registers(
                    register_address_seq(chip_model),
                    model_spec(chip_model).control_reg,
                    data@,
                )
                &&& fw.count_field() == fw.register_pairs().len()
            },
    {
        if data.len() == 0 {
            return Err("Empty firmware file".to_owned());
        }
        let size = data.len();
        let control_reg = chip::spec_for_model(chip_model).control_reg;
        let addrs = chip::register_addresses(chip_model);
        let registers = collect_image_registers(&addrs, control_reg, &data);
        Ok(FirmwareImage { data, size, register_count: registers.len(), registers })
    }

    pub fn get_all_registers(&self) -> (r: &[(u8, u8)])
        ensures
            r@ == self.register_pairs(),
    {
        self.registers.as_slice()
    }

    pub fn as_bytes(&self) -> (r: &[u8])
        ensures
            r@ == self.bytes(),
    {
        self.data.as_slice()
    }
}

/// Index of the last '.' in `p`, or -1 if there is none.
pub open spec fn last_dot(p: Seq<char>) -> int
    decreases p.len(),
{
    if p.len() == 0 {
        -1
    } else if p.last() == '.' {
        p.len() - 1
    } else {
        last_dot(p.drop_last())
    }
}

/// `p` is a single plain file name on every platform: non-empty, without a
/// path separator ('/' or '\\'), a drive colon, and not "." or "..".
pub open spec fn plain_file_name(p: Seq<char>) -> bool {
    &&& p.len() > 0
    &&& !p.contains('/')
    &&& !p.contains('\\')
    &&& !p.contains(':')
    &&& p != seq!['.']
    &&& p != seq!['.', '.']
}

/// The extension of a plain file name, as `Path::extension` documents it:
/// none without an embedded '.', none for a name that starts with its only
/// '.', else the text after the last '.'.
pub open spec fn plain_extension(p: Seq<char>) -> Option<Seq<char>> {
    if last_dot(p) <= 0 {
        None
    } else {
        Some(p.skip(last_dot(p) + 1))
    }
}

/// The extension of the file `path` names (`Path::extension`), as text.
/// Which part of a general `path` is the file name depends on the platform's
/// path separators; claimed of every outcome: an extension follows a '.'
/// somewhere in `path` and holds no '.' and no '/'. For a plain file name
/// (one component on every platform) the documented rule is claimed:
/// `plain_extension`.
#[verifier::external_body]
fn file_extension(path: &str) -> (r: Option<String>)
    ensures
        r matches Some(e) ==> {
            &&& is_infix(seq!['.'] + e@, path@)
            &&& !e@.contains('.')
            &&& !e@.contains('/')
        },
        plain_file_name(path@) ==> match plain_extension(path@) {
            Some(x) => r matches Some(e) && e@ == x,
            None => r is None,
        },
{
    match std::path::Path::new(path).extension() {
        Some(ext) => match ext.to_str() {
            Some(text) => Some(text.to_owned()),
            None => None,
        },
        None => None,
    }
}

/// The last component of `path` (`Path::file_name`), as text. Which part of
/// a general `path` that is depends on the platform's path separators;
/// claimed of every outcome: a name is a contiguous part of `path`. A plain
/// file name is its own file name.
#[verifier::external_body]
fn path_file_name(path: &str) -> (r: Option<String>)
    ensures
        match r {
            Some(n) => is_infix(n@, path@),
            None => !plain_file_name(path@),
        },
        plain_file_name(path@) ==> match r {
            Some(n) => n@ == path@,
            None => false,
        },
{
    std::path::Path::new(path).file_name().map(|n| n.to_string_lossy().into_owned())
}

/// The name a firmware file is shown under: the last component of `path`,
/// or `path` itself if it has none.
pub fn firmware_file_name(path: &str) -> (name: String)
    ensures
        is_infix(name@, path@),
        plain_file_name(path@) ==> (name@ == path@),
{
    match path_file_name(path) {
        Some(n) => n,
        None => {
            let whole = path.to_owned();
            proof {
                assert(path@.subrange(0, path@.len() as int) =~= path@);
            }
            whole
        },
    }
}

/// `c` with ASCII upper-case letters made lower-case.
pub open spec fn ascii_lower(c: char) -> char {
    if 'A' <= c <= 'Z' {
        ((c as u32) + 32) as char
    } else {
        c
    }
}

/// `ext` is "hex" in any ASCII letter case.
pub open spec fn is_hex_extension(ext: Seq<char>) -> bool {
    ext.len() == 3 && ascii_lower(ext[0]) == 'h' && ascii_lower(ext[1]) == 'e' && ascii_lower(ext[2])
        == 'x'
}

fn lower_char(c: char) -> (r: char)
    ensures
        r == ascii_lower(c),
{
    if 'A' <= c && c <= 'Z' {
        ((c as u32 + 32) as u8) as char
    } else {
        c
    }
}

/// The message for an Intel HEX firmware file.
pub open spec fn intel_hex_refused() -> Seq<char> {
    "Intel HEX files are not supported. Please convert the firmware to a raw .bin file first."@
}

/// Refuse a firmware file whose extension `ext` is "hex" in any ASCII
/// letter case: only raw BIN images are read.
pub fn refuse_hex_extension(ext: Option<String>) -> (r: Result<(), String>)
    ensures
        match ext {
            Some(e) => if is_hex_extension(e@) {
                r matches Err(m) && m@ == intel_hex_refused()
            } else {
                r is Ok
            },
            None => r is Ok,
        },
{
    let ext = match ext {
        Some(e) => e,
        None => {
            return Ok(());
        },
    };
    let chars = crate::text::chars_of(ext.as_str());
    let hex = chars.len() == 3 && lower_char(chars[0]) == 'h' && lower_char(chars[1]) == 'e'
        && lower_char(chars[2]) == 'x';
    if hex {
        Err("Intel HEX files are not supported. Please convert the firmware to a raw .bin file first.".to_owned())
    } else {
        Ok(())
    }
}

/// Refuse a firmware file named with the `.hex` extension (in any letter
/// case): only raw BIN images are read. A path without a '.' has no
/// extension and is accepted; a plain file name is refused exactly when the
/// text after its last '.' (not its first character) is "hex".
pub fn check_firmware_path(path: &str) -> (r: Result<(), String>)
    ensures
        r matches Err(m) ==> m@ == intel_hex_refused() && exists|e: Seq<char>|
            #[trigger] is_hex_extension(e) && is_infix(seq!['.'] + e, path@),
        !path@.contains('.') ==> r is Ok,
        plain_file_name(path@) ==> match plain_extension(path@) {
            Some(x) => if is_hex_extension(x) {
                r matches Err(m) && m@ == intel_hex_refused()
            } else {
                r is Ok
            },
            None => r is Ok,
        },
{
    let ext = file_extension(path);
    proof {
        if ext is Some && !path@.contains('.') {
            let e = ext->0@;
            let (i, j) = choose|i: int, j: int|
                0 <= i <= j <= path@.len() && seq!['.'] + e == path@.subrange(i, j);
            assert((seq!['.'] + e).len() == j - i);
            assert((seq!['.'] + e)[0] == '.');
            assert(path@.subrange(i, j)[0] == path@[i]);
            assert(path@[i] == '.');
            assert(path@.contains('.'));
        }
    }
    let r = refuse_hex_extension(ext);
    proof {
        if r is Err {
            let e = ext->0@;
            assert(is_hex_extension(e));
        }
    }
    r
}

} // verus!
