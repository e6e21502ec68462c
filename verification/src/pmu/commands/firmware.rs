//! Firmware commands: export of register values to a BIN image, programming
//! and verification against an image.

use vstd::prelude::*;

use crate::bridges::i2c::BusOp;
use crate::pmu::chip::{
    self, default_map_seq, model_spec, register_address_seq, ChipModel, ChipSpec,
};
use crate::pmu::commands::{
    last_value, matched_count, ProgramResult, VerifyAllResult, VerifyResult, WriteAllDacResult,
};
use crate::pmu::device::{
    mismatches, scanned_registers, verify_all_result, ChipDevice,
};
use crate::pmu::firmware::{image_registers, FirmwareImage};
use crate::pmu::transcript::{
    added, extends, fails_with, lemma_extends_refl, lemma_extends_trans, scan_ok,
    scan_shape, scan_values, scanned, single_write, write_then_wait, writes_each,
};
use crate::text::concat;

verus! {

/// The largest address of `addrs` other than `control`.
pub open spec fn max_exportable(addrs: Seq<u8>, control: u8) -> Option<u8>
    decreases addrs.len(),
{
    if addrs.len() == 0 {
        None
    } else {
        let rest = max_exportable(addrs.drop_last(), control);
        let a = addrs.last();
        if a == control {
            rest
        } else {
            match rest {
                Some(m) => if a > m {
                    Some(a)
                } else {
                    Some(m)
                },
                None => Some(a),
            }
        }
    }
}

/// The byte an export puts at address `a`: the last value the user gave to
/// a register of the chip (not the control register), else the register's
/// default, else 0.
pub open spec fn export_byte(model: ChipModel, entries: Seq<(u8, u8)>, a: u8) -> u8 {
    let control = model_spec(model).control_reg;
    if a != control && register_address_seq(model).contains(a) && last_value(entries, a) is Some {
        last_value(entries, a)->0
    } else if a != control && last_value(default_map_seq(model), a) is Some {
        last_value(default_map_seq(model), a)->0
    } else {
        0
    }
}

/// An LP6281 export without a value for a gamma high byte writes that
/// register's power-on default 0x02 (and 0x00 for a gamma low byte).
pub proof fn lemma_export_gamma_default(entries: Seq<(u8, u8)>, channel: int)
    requires
        0 <= channel < 14,
    ensures
        last_value(entries, (0x0C + 2 * channel) as u8) is None ==> export_byte(
            ChipModel::Lp6281,
            entries,
            (0x0C + 2 * channel) as u8,
        ) == 0x02u8,
        last_value(entries, (0x0D + 2 * channel) as u8) is None ==> export_byte(
            ChipModel::Lp6281,
            entries,
            (0x0D + 2 * channel) as u8,
        ) == 0x00u8,
{
    chip::lemma_lp6281_gamma_defaults(channel);
}

/// The BIN image an export of `entries` produces for `model`: one byte per
/// address up to the largest exportable register; `None` if the chip has no
/// exportable register.
pub open spec fn export_bin(model: ChipModel, entries: Seq<(u8, u8)>) -> Option<Seq<u8>> {
    match max_exportable(register_address_seq(model), model_spec(model).control_reg) {
        None => None,
        Some(m) => Some(Seq::new((m + 1) as nat, |i: int| export_byte(model, entries, i as u8))),
    }
}

/// Every exportable address lies at or below the maximum, and there is a
/// maximum exactly when there is an exportable address.
proof fn lemma_max_exportable(addrs: Seq<u8>, control: u8)
    ensures
        max_exportable(addrs, control) matches Some(m) ==> addrs.contains(m) && m != control,
        forall|a: u8| #[trigger]
            addrs.contains(a) && a != control ==> (max_exportable(addrs, control) matches Some(m)
                && a <= m),
    decreases addrs.len(),
{
    if addrs.len() > 0 {
        let rest = addrs.drop_last();
        lemma_max_exportable(rest, control);
        assert forall|a: u8| #[trigger] addrs.contains(a) && a != control implies (max_exportable(
            addrs,
            control,
        ) matches Some(m) && a <= m) by {
            let k = choose|k: int| 0 <= k < addrs.len() && addrs[k] == a;
            if k < addrs.len() - 1 {
                assert(rest[k] == a);
                assert(rest.contains(a));
            }
        }
        if let Some(m) = max_exportable(addrs, control) {
            if m != addrs.last() {
                let k = choose|k: int| 0 <= k < rest.len() && rest[k] == m;
                assert(addrs[k] == m);
            } else {
                assert(addrs[addrs.len() - 1] == m);
            }
        }
    }
}

/// The pairs an image holds for `addrs` are the scanned addresses with the
/// image bytes at them, when every scanned address lies inside the image.
pub proof fn lemma_image_registers_of_covering(addrs: Seq<u8>, control: u8, data: Seq<u8>)
    requires
        forall|a: u8| #[trigger] addrs.contains(a) && a != control ==> (a as int) < data.len(),
    ensures
        image_registers(addrs, control, data) == scanned(addrs, control).map_values(
            |a: u8| (a, data[a as int]),
        ),
    decreases addrs.len(),
{
    if addrs.len() > 0 {
        let rest = addrs.drop_last();
        assert forall|a: u8| #[trigger] rest.contains(a) && a != control implies (a as int)
            < data.len() by {
            let k = choose|k: int| 0 <= k < rest.len() && rest[k] == a;
            assert(addrs[k] == a);
            assert(addrs.contains(a));
        }
        lemma_image_registers_of_covering(rest, control, data);
        let a = addrs.last();
        assert(addrs[addrs.len() - 1] == a);
        let f = |a: u8| (a, data[a as int]);
        if a != control {
            assert(addrs.contains(a));
            assert(scanned(addrs, control) == scanned(rest, control).push(a));
            assert(scanned(addrs, control).map_values(f) =~= scanned(rest, control).map_values(
                f,
            ).push(f(a)));
        } else {
            assert(scanned(addrs, control) == scanned(rest, control));
        }
        assert(image_registers(addrs, control, data) =~= scanned(addrs, control).map_values(f));
    } else {
        assert(image_registers(addrs, control, data) =~= scanned(addrs, control).map_values(
            |a: u8| (a, data[a as int]),
        ));
    }
}

/// Reading back an exported image for the same chip gives every register of
/// the chip (but the control register), in register-list order, with the
/// value the user gave it last, or else its default.
pub proof fn lemma_export_then_import(model: ChipModel, entries: Seq<(u8, u8)>)
    requires
        export_bin(model, entries) is Some,
    ensures
        image_registers(
            register_address_seq(model),
            model_spec(model).control_reg,
            export_bin(model, entries)->0,
        ) == scanned(register_address_seq(model), model_spec(model).control_reg).map_values(
            |a: u8| (a, export_byte(model, entries, a)),
        ),
        export_bin(model, entries)->0.len() > 0,
{
    let addrs = register_address_seq(model);
    let control = model_spec(model).control_reg;
    let bin = export_bin(model, entries)->0;
    lemma_max_exportable(addrs, control);
    assert forall|a: u8| #[trigger] addrs.contains(a) && a != control implies (a as int)
        < bin.len() by {}
    lemma_image_registers_of_covering(addrs, control, bin);
    assert forall|a: u8| #[trigger] addrs.contains(a) && a != control implies bin[a as int]
        == export_byte(model, entries, a) by {}
    lemma_scanned_members(addrs, control);
    assert(scanned(addrs, control).map_values(|a: u8| (a, bin[a as int])) =~= scanned(
        addrs,
        control,
    ).map_values(|a: u8| (a, export_byte(model, entries, a))));
}

/// What a scan reads is in the list and is not the control register.
proof fn lemma_scanned_members(addrs: Seq<u8>, control: u8)
    ensures
        forall|i: int|
            0 <= i < scanned(addrs, control).len() ==> addrs.contains(
                #[trigger] scanned(addrs, control)[i],
            ) && scanned(addrs, control)[i] != control,
    decreases addrs.len(),
{
    if addrs.len() > 0 {
        let rest = addrs.drop_last();
        lemma_scanned_members(rest, control);
        assert forall|i: int|
            0 <= i < scanned(addrs, control).len() implies addrs.contains(
            #[trigger] scanned(addrs, control)[i],
        ) && scanned(addrs, control)[i] != control by {
            if i < scanned(rest, control).len() {
                let x = scanned(rest, control)[i];
                let k = choose|k: int| 0 <= k < rest.len() && rest[k] == x;
                assert(addrs[k] == x);
            } else {
                assert(addrs[addrs.len() - 1] == addrs.last());
            }
        }
    }
}

fn contains_u8(v: &Vec<u8>, x: u8) -> (b: bool)
    ensures
        b == v@.contains(x),
{
    let mut i: usize = 0;
    while i < v.len()
        invariant
            i <= v@.len(),
            forall|j: int| 0 <= j < i ==> v@[j] != x,
        decreases v@.len() - i,
    {
        if v[i] == x {
            assert(v@[i as int] == x);
            return true;
        }
        i = i + 1;
    }
    false
}

/// Build the BIN image for `entries` (`(address, value)` pairs from the user):
/// zero-filled up to the largest register address of the chip other than the
/// control register, then the chip's defaults, then the user's values for
/// registers of the chip. The control register is never exported.
pub fn build_export_bin(chip_model: ChipModel, entries: &[(u8, u8)]) -> (r: Result<Vec<u8>, String>)
    ensures
        match export_bin(chip_model, entries@) {
            Some(bin) => r matches Ok(v) && v@ == bin,
            None => r matches Err(e) && e@ == "No exportable registers for "@
                + chip_model.display_name_of()@,
        },
{
    let spec = chip::spec_for_model(chip_model);
    let control = spec.control_reg;
    let addresses = chip::register_addresses(chip_model);
    let ghost addrs = addresses@;
    let mut max: Option<u8> = None;
    let mut i: usize = 0;
    while i < addresses.len()
        invariant
            i <= addrs.len(),
            addresses@ == addrs,
            max == max_exportable(addrs.take(i as int), control),
        decreases addrs.len() - i,
    {
        let a = addresses[i];
        assert(addrs.take(i + 1).drop_last() =~= addrs.take(i as int));
        if a != control {
            max = match max {
                Some(m) => if a > m {
                    Some(a)
                } else {
                    Some(m)
                },
                None => Some(a),
            };
        }
        i = i + 1;
    }
    assert(addrs.take(i as int) =~= addrs);
    let max_addr = match max {
        Some(m) => m,
        None => {
            return Err(concat("No exportable registers for ", chip_model.display_name()));
        },
    };
    proof {
        lemma_max_exportable(addrs, control);
    }
    let len: usize = max_addr as usize + 1;
    let mut bin: Vec<u8> = Vec::new();
    while bin.len() < len
        invariant
            bin@.len() <= len,
            forall|j: int| 0 <= j < bin@.len() ==> bin@[j] == 0,
        decreases len - bin@.len(),
    {
        bin.push(0);
    }
    let defaults = chip::default_register_map(chip_model);
    let ghost dm = defaults@;
    let mut k: usize = 0;
    while k < defaults.len()
        invariant
            k <= dm.len(),
            defaults@ == dm,
            len <= 256,
            bin@.len() == len,
            forall|j: int|
                0 <= j < len ==> #[trigger] bin@[j] == (if j != control && last_value(
                    dm.take(k as int),
                    j as u8,
                ) is Some {
                    last_value(dm.take(k as int), j as u8)->0
                } else {
                    0
                }),
        decreases dm.len() - k,
    {
        let (addr, value) = defaults[k];
        assert(dm.take(k + 1).drop_last() =~= dm.take(k as int));
        if addr != control && (addr as usize) < bin.len() {
            bin.set(addr as usize, value);
        }
        k = k + 1;
        assert forall|j: int| 0 <= j < len implies #[trigger] bin@[j] == (if j != control
            && last_value(dm.take(k as int), j as u8) is Some {
            last_value(dm.take(k as int), j as u8)->0
        } else {
            0
        }) by {
            assert((j as u8) as int == j);
        }
    }
    assert(dm.take(k as int) =~= dm);
    let mut n: usize = 0;
    while n < entries.len()
        invariant
            n <= entries@.len(),
            len <= 256,
            bin@.len() == len,
            addresses@ == addrs,
            dm == default_map_seq(chip_model),
            addrs == register_address_seq(chip_model),
            control == model_spec(chip_model).control_reg,
            forall|a: u8| #[trigger] addrs.contains(a) && a != control ==> (a as int) < len,
            forall|j: int|
                0 <= j < len ==> #[trigger] bin@[j] == (if j != control && addrs.contains(j as u8)
                    && last_value(entries@.take(n as int), j as u8) is Some {
                    last_value(entries@.take(n as int), j as u8)->0
                } else if j != control && last_value(dm, j as u8) is Some {
                    last_value(dm, j as u8)->0
                } else {
                    0
                }),
        decreases entries@.len() - n,
    {
        let (addr, value) = entries[n];
        assert(entries@.take(n + 1).drop_last() =~= entries@.take(n as int));
        if addr != control && contains_u8(&addresses, addr) {
            bin.set(addr as usize, value);
        }
        n = n + 1;
        assert forall|j: int| 0 <= j < len implies #[trigger] bin@[j] == (if j != control
            && addrs.contains(j as u8) && last_value(entries@.take(n as int), j as u8) is Some {
            last_value(entries@.take(n as int), j as u8)->0
        } else if j != control && last_value(dm, j as u8) is Some {
            last_value(dm, j as u8)->0
        } else {
            0
        }) by {
            assert((j as u8) as int == j);
        }
    }
    assert(entries@.take(n as int) =~= entries@);
    proof {
        let expected = export_bin(chip_model, entries@)->0;
        assert forall|j: int| 0 <= j < len implies bin@[j] == expected[j] by {
            assert((j as u8) as int == j);
        }
        assert(bin@ =~= expected);
    }
    Ok(bin)
}

/// The registers an image `data` holds for the model of the chip `sp`
/// describes.
pub open spec fn image_of(sp: ChipSpec, data: Seq<u8>) -> Seq<(u8, u8)> {
    image_registers(register_address_seq(sp.model), model_spec(sp.model).control_reg, data)
}

/// `ops` programs the registers `regs` into the DAC of the chip `sp`, one
/// write each, and then, if `write_eeprom`, burns the DAC into the EEPROM and
/// waits the chip's write time;
/// `r` reports it if every transaction was acknowledged, and is an error
/// after the first one that was not.
pub open spec fn program_outcome(
    ops: Seq<BusOp>,
    sp: ChipSpec,
    regs: Seq<(u8, u8)>,
    write_eeprom: bool,
    r: Result<ProgramResult, String>,
) -> bool {
    let n = regs.len() as int;
    ||| r is Err && writes_each(ops, sp.pmic_addr, regs, r)
    ||| {
        &&& ops.len() >= n
        &&& writes_each(ops.take(n), sp.pmic_addr, regs, Ok::<(), String>(()))
        &&& if write_eeprom {
            write_then_wait(
                ops.skip(n),
                sp.pmic_addr,
                seq![sp.control_reg, sp.ctrl_write_all_eeprom],
                sp.write_delay_ms,
                r,
            )
        } else {
            ops.len() == n && r is Ok
        }
        &&& r matches Ok(p) ==> p == (ProgramResult {
            success: true,
            registers_written: regs.len() as usize,
            eeprom_written: write_eeprom,
        })
    }
}

/// Program the firmware image `data` into the device: write every register
/// the image holds to the DAC, then, if `write_eeprom`, burn the DAC into the
/// EEPROM. An empty image is refused before any transaction.
pub fn program_firmware(device: &mut ChipDevice, data: Vec<u8>, write_eeprom: bool) -> (r: Result<
    ProgramResult,
    String,
>)
    ensures
        final(device).chip() == old(device).chip(),
        extends(old(device).bus_history(), final(device).bus_history()),
        data@.len() == 0 ==> final(device).bus_history() == old(device).bus_history() && (r matches Err(
            e,
        ) && e@ == "Empty firmware file"@),
        data@.len() > 0 ==> program_outcome(
            added(old(device).bus_history(), final(device).bus_history()),
            old(device).chip(),
            image_of(old(device).chip(), data@),
            write_eeprom,
            r,
        ),
{
    proof {
        lemma_extends_refl(device.bus_history());
    }
    let fw = match FirmwareImage::from_bytes(data, device.chip_model()) {
        Ok(fw) => fw,
        Err(e) => {
            return Err(e);
        },
    };
    let ghost h0 = device.bus_history();
    let regs = fw.get_all_registers();
    let written = device.write_all_dac_registers(regs);
    let count = match written {
        Ok(n) => n,
        Err(e) => {
            return Err(e);
        },
    };
    let ghost h1 = device.bus_history();
    let eeprom_written = if write_eeprom {
        let w = device.write_all_to_eeprom();
        proof {
            lemma_extends_trans(h0, h1, device.bus_history());
            let ops = added(h0, device.bus_history());
            assert(ops.take(regs@.len() as int) =~= added(h0, h1));
            assert(ops.skip(regs@.len() as int) =~= added(h1, device.bus_history()));
        }
        if let Err(e) = w {
            return Err(e);
        }
        true
    } else {
        proof {
            assert(added(h0, h1).take(regs@.len() as int) =~= added(h0, h1));
        }
        false
    };
    Ok(ProgramResult { success: true, registers_written: count, eeprom_written })
}

/// Compare the EEPROM of the device with the firmware image `data`. An empty
/// image is refused before any transaction.
pub fn verify_firmware(device: &mut ChipDevice, data: Vec<u8>) -> (r: Result<VerifyResult, String>)
    ensures
        final(device).chip() == old(device).chip(),
        extends(old(device).bus_history(), final(device).bus_history()),
        data@.len() == 0 ==> final(device).bus_history() == old(device).bus_history() && (r matches Err(
            e,
        ) && e@ == "Empty firmware file"@),
        data@.len() > 0 ==> ({
            let ops = added(old(device).bus_history(), final(device).bus_history());
            let sp = old(device).chip();
            let regs = scanned_registers(sp);
            let total = image_of(sp, data@).len() as usize;
            &&& scan_shape(ops, sp.pmic_addr, sp.control_reg, sp.ctrl_read_eeprom, sp.read_delay_ms, regs)
            &&& (r is Ok <==> scan_ok(ops, regs))
            &&& !scan_ok(ops, regs) ==> fails_with(r, ops.last())
            &&& r matches Ok(v) ==> {
                let m = mismatches(scan_values(ops, regs), data@);
                &&& v.mismatches@ == m
                &&& v.total == total
                &&& v.matched == matched_count(total, m.len())
                &&& v.success == (m.len() == 0)
            }
        }),
{
    proof {
        lemma_extends_refl(device.bus_history());
    }
    let fw = match FirmwareImage::from_bytes(data, device.chip_model()) {
        Ok(fw) => fw,
        Err(e) => {
            return Err(e);
        },
    };
    let total = fw.get_all_registers().len();
    let found = device.verify_firmware(fw.as_bytes());
    let mismatches = match found {
        Ok(m) => m,
        Err(e) => {
            return Err(e);
        },
    };
    let matched = total.saturating_sub(mismatches.len());
    Ok(VerifyResult { success: mismatches.len() == 0, total, matched, mismatches })
}

/// Compare both the DAC and the EEPROM of the device with the firmware image
/// `data`. An empty image is refused before any transaction.
pub fn verify_all(device: &mut ChipDevice, data: Vec<u8>) -> (r: Result<VerifyAllResult, String>)
    ensures
        final(device).chip() == old(device).chip(),
        extends(old(device).bus_history(), final(device).bus_history()),
        data@.len() == 0 ==> final(device).bus_history() == old(device).bus_history() && (r matches Err(
            e,
        ) && e@ == "Empty firmware file"@),
        data@.len() > 0 ==> ({
            let ops = added(old(device).bus_history(), final(device).bus_history());
            let sp = old(device).chip();
            let total = image_of(sp, data@).len() as usize;
            exists|found: Result<(Vec<(u8, u8, u8)>, Vec<(u8, u8, u8)>), String>|
                {
                    &&& #[trigger] verify_all_result(ops, sp, data@, found)
                    &&& (r is Ok <==> found is Ok)
                    &&& r matches Ok(v) ==> found matches Ok(m) && {
                        &&& v.total == total
                        &&& v.dac_mismatches@ == m.0@
                        &&& v.eeprom_mismatches@ == m.1@
                        &&& v.dac_matched == matched_count(total, m.0@.len())
                        &&& v.eeprom_matched == matched_count(total, m.1@.len())
                    }
                }
        }),
{
    proof {
        lemma_extends_refl(device.bus_history());
    }
    let fw = match FirmwareImage::from_bytes(data, device.chip_model()) {
        Ok(fw) => fw,
        Err(e) => {
            return Err(e);
        },
    };
    let total = fw.get_all_registers().len();
    let found = device.verify_all(fw.as_bytes());
    match found {
        Ok((dac_mismatches, eeprom_mismatches)) => {
            let dac_matched = total.saturating_sub(dac_mismatches.len());
            let eeprom_matched = total.saturating_sub(eeprom_mismatches.len());
            Ok(VerifyAllResult {
                total,
                dac_matched,
                eeprom_matched,
                dac_mismatches,
                eeprom_mismatches,
            })
        },
        Err(e) => Err(e),
    }
}

/// The message for a request that names the control register.
pub open spec fn control_register_reserved() -> Seq<char> {
    "Control register 0xFF is reserved for dedicated EEPROM commands"@
}

/// Write the `(address, value)` pairs to the DAC in order, stopping at the
/// first failure; a batch that names the control register is refused before
/// any transaction.
pub fn write_all_dac_registers(device: &mut ChipDevice, entries: &[(u8, u8)]) -> (r: Result<
    WriteAllDacResult,
    String,
>)
    ensures
        final(device).chip() == old(device).chip(),
        extends(old(device).bus_history(), final(device).bus_history()),
        (exists|i: int| 0 <= i < entries@.len() && #[trigger] entries@[i].0 == old(device).chip().control_reg)
            ==> final(device).bus_history() == old(device).bus_history() && (r matches Err(e) && e@
            == control_register_reserved()),
        !(exists|i: int| 0 <= i < entries@.len() && #[trigger] entries@[i].0 == old(device).chip().control_reg)
            ==> {
            &&& writes_each(
                added(old(device).bus_history(), final(device).bus_history()),
                old(device).chip().pmic_addr,
                entries@,
                r,
            )
            &&& r matches Ok(w) ==> w == (WriteAllDacResult {
                success: true,
                registers_written: entries@.len() as usize,
            })
        },
{
    proof {
        lemma_extends_refl(device.bus_history());
    }
    let control = device.spec().control_reg;
    let mut i: usize = 0;
    while i < entries.len()
        invariant
            i <= entries@.len(),
            control == old(device).chip().control_reg,
            device.chip() == old(device).chip(),
            device.bus_history() == old(device).bus_history(),
            extends(old(device).bus_history(), device.bus_history()),
            forall|j: int| 0 <= j < i ==> entries@[j].0 != control,
        decreases entries@.len() - i,
    {
        if entries[i].0 == control {
            assert(entries@[i as int].0 == control);
            return Err("Control register 0xFF is reserved for dedicated EEPROM commands".to_owned());
        }
        i = i + 1;
    }
    let written = device.write_all_dac_registers(entries);
    match written {
        Ok(count) => Ok(WriteAllDacResult { success: true, registers_written: count }),
        Err(e) => Err(e),
    }
}

} // verus!
