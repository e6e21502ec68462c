//! Firmware commands of the EK86317A programmer: programming and
//! verification against a BIN image, and the image of an EEPROM read-back.

use vstd::prelude::*;

use crate::ek86317a::firmware::{covered_count, ek_image_registers, FirmwareImage};
use crate::pmu::ek86317a::protocol::{ek_scanned_registers, PMIC_ADDR};
use crate::ek86317a::registers::{pmic_reg_address_seq, REG_CONTROL};
use crate::ek86317a::Ek86317a;
use crate::pmu::chip::{model_spec, ChipModel};
use crate::pmu::commands::firmware::{control_register_reserved, program_outcome};
use crate::pmu::commands::{
    last_value, ProgramResult, VerifyAllResult, VerifyResult, WriteAllDacResult,
};
use crate::pmu::device::{compare_readback, mismatches};
use crate::pmu::transcript::{
    added, extends, fails_with, lemma_extends_refl, lemma_extends_trans, scan_ok, scan_shape, scan_values,
    scanned, writes_each,
};

verus! {

/// How many of `regs` lie below `size`.
pub open spec fn below(regs: Seq<u8>, size: int) -> nat
    decreases regs.len(),
{
    if regs.len() == 0 {
        0
    } else {
        below(regs.drop_last(), size) + if (regs.last() as int) < size {
            1nat
        } else {
            0nat
        }
    }
}

/// How many of the pairs `p` have an address below `size`.
pub open spec fn pairs_below(p: Seq<(u8, u8)>, size: int) -> nat
    decreases p.len(),
{
    if p.len() == 0 {
        0
    } else {
        pairs_below(p.drop_last(), size) + if (p.last().0 as int) < size {
            1nat
        } else {
            0nat
        }
    }
}

proof fn lemma_mismatches_below(p: Seq<(u8, u8)>, data: Seq<u8>)
    ensures
        mismatches(p, data).len() <= pairs_below(p, data.len() as int),
    decreases p.len(),
{
    if p.len() > 0 {
        lemma_mismatches_below(p.drop_last(), data);
    }
}

proof fn lemma_scan_values_below(ops: Seq<crate::bridges::i2c::BusOp>, regs: Seq<u8>, size: int)
    ensures
        pairs_below(scan_values(ops, regs), size) == below(regs, size),
    decreases regs.len(),
{
    if regs.len() > 0 {
        assert(scan_values(ops, regs).drop_last() =~= scan_values(ops, regs.drop_last()));
        lemma_scan_values_below(ops, regs.drop_last(), size);
    }
}

proof fn lemma_scanned_below(addrs: Seq<u8>, control: u8, size: int)
    ensures
        below(scanned(addrs, control), size) == covered_count(addrs, control, size),
    decreases addrs.len(),
{
    if addrs.len() > 0 {
        lemma_scanned_below(addrs.drop_last(), control, size);
        if addrs.last() != control {
            assert(scanned(addrs, control).drop_last() =~= scanned(addrs.drop_last(), control));
        }
    }
}

/// A comparison of a full EEPROM or DAC read-back with an image finds at most
/// as many mismatches as the image has registers, so the matched count never
/// goes below zero.
pub proof fn lemma_mismatches_within_image(ops: Seq<crate::bridges::i2c::BusOp>, data: Seq<u8>)
    ensures
        mismatches(scan_values(ops, ek_scanned_registers()), data).len() <= covered_count(
            pmic_reg_address_seq(),
            REG_CONTROL,
            data.len() as int,
        ),
{
    lemma_mismatches_below(scan_values(ops, ek_scanned_registers()), data);
    lemma_scan_values_below(ops, ek_scanned_registers(), data.len() as int);
    lemma_scanned_below(pmic_reg_address_seq(), REG_CONTROL, data.len() as int);
}

/// Program the firmware image `data`: write every register the image holds to
/// the DAC, then, if `write_eeprom`, burn the DAC into the EEPROM. An empty
/// image is refused before any transaction.
pub fn program_firmware(device: &mut Ek86317a, data: Vec<u8>, write_eeprom: bool) -> (r: Result<
    ProgramResult,
    String,
>)
    ensures
        extends(old(device).bus_history(), final(device).bus_history()),
        data@.len() == 0 ==> final(device).bus_history() == old(device).bus_history() && (r matches Err(
            e,
        ) && e@ == "Empty firmware file"@),
        data@.len() > 0 ==> program_outcome(
            added(old(device).bus_history(), final(device).bus_history()),
            model_spec(ChipModel::Ek86317a),
            ek_image_registers(data@),
            write_eeprom,
            r,
        ),
{
    proof {
        lemma_extends_refl(device.bus_history());
    }
    let fw = match FirmwareImage::from_bytes(data) {
        Ok(fw) => fw,
        Err(e) => {
            return Err(e);
        },
    };
    let regs = fw.get_all_registers();
    let ghost h0 = device.bus_history();
    let count = match device.write_all_dac_registers(regs.as_slice()) {
        Ok(n) => n,
        Err(e) => {
            return Err(e);
        },
    };
    let ghost h1 = device.bus_history();
    let eeprom_written = if write_eeprom {
        let w = device.write_all_to_eeprom();
        proof {
            lemma_extends_trans(h0, h1, device.bus_history());
            let ops = added(h0, device.bus_history());
            assert(ops.take(regs@.len() as int) =~= added(h0, h1));
            assert(ops.skip(regs@.len() as int) =~= added(h1, device.bus_history()));
        }
        if let Err(e) = w {
            return Err(e);
        }
        true
    } else {
        proof {
            assert(added(h0, h1).take(regs@.len() as int) =~= added(h0, h1));
        }
        false
    };
    Ok(ProgramResult { success: true, registers_written: count, eeprom_written })
}

/// Verify the firmware image `data` against the device's DAC register
/// contents: read the DAC bank back and list the registers inside the image
/// whose value differs; the matched count is the image's register count less
/// the mismatches. An empty image is refused before any transaction.
pub fn verify_firmware(device: &mut Ek86317a, data: Vec<u8>) -> (r: Result<VerifyResult, String>)
    ensures
        extends(old(device).bus_history(), final(device).bus_history()),
        data@.len() == 0 ==> final(device).bus_history() == old(device).bus_history() && (r matches Err(
            e,
        ) && e@ == "Empty firmware file"@),
        data@.len() > 0 ==> ({
            let ops = added(old(device).bus_history(), final(device).bus_history());
            let regs = ek_scanned_registers();
            let total = covered_count(pmic_reg_address_seq(), REG_CONTROL, data@.len() as int);
            &&& scan_shape(
                ops,
                PMIC_ADDR,
                REG_CONTROL,
                model_spec(ChipModel::Ek86317a).ctrl_read_dac,
                model_spec(ChipModel::Ek86317a).read_delay_ms,
                regs,
            )
            &&& (r is Ok <==> scan_ok(ops, regs))
            &&& !scan_ok(ops, regs) ==> fails_with(r, ops.last())
            &&& r matches Ok(v) ==> {
                let m = mismatches(scan_values(ops, regs), data@);
                &&& v.mismatches@ == m
                &&& v.total == total
                &&& v.matched == total - m.len()
                &&& v.success == (m.len() == 0)
            }
        }),
{
    proof {
        lemma_extends_refl(device.bus_history());
    }
    let fw = match FirmwareImage::from_bytes(data) {
        Ok(fw) => fw,
        Err(e) => {
            return Err(e);
        },
    };
    let total = fw.register_count;
    let ghost h0 = device.bus_history();
    let readback = match device.read_all_dac() {
        Ok(v) => v,
        Err(e) => {
            return Err(e);
        },
    };
    let mismatches = compare_readback(&readback, fw.as_bytes());
    proof {
        lemma_mismatches_within_image(added(h0, device.bus_history()), fw.data@);
    }
    let matched = total - mismatches.len();
    Ok(VerifyResult { success: mismatches.len() == 0, total, matched, mismatches })
}

/// Compare both the DAC and the EEPROM with the firmware image `data`. An
/// empty image is refused before any transaction.
pub fn verify_all(device: &mut Ek86317a, data: Vec<u8>) -> (r: Result<VerifyAllResult, String>)
    ensures
        extends(old(device).bus_history(), final(device).bus_history()),
        data@.len() == 0 ==> final(device).bus_history() == old(device).bus_history() && (r matches Err(
            e,
        ) && e@ == "Empty firmware file"@),
        data@.len() > 0 ==> ({
            let ops = added(old(device).bus_history(), final(device).bus_history());
            let regs = ek_scanned_registers();
            let n = regs.len() + 2;
            let total = covered_count(pmic_reg_address_seq(), REG_CONTROL, data@.len() as int);
            let sp = model_spec(ChipModel::Ek86317a);
            ||| scan_shape(ops, PMIC_ADDR, REG_CONTROL, sp.ctrl_read_dac, sp.read_delay_ms, regs) && !scan_ok(ops, regs)
                && fails_with(r, ops.last())
            ||| {
                &&& ops.len() >= n
                &&& scan_shape(ops.take(n as int), PMIC_ADDR, REG_CONTROL, sp.ctrl_read_dac, sp.read_delay_ms, regs)
                &&& scan_ok(ops.take(n as int), regs)
                &&& scan_shape(ops.skip(n as int), PMIC_ADDR, REG_CONTROL, sp.ctrl_read_eeprom, sp.read_delay_ms, regs)
                &&& (r is Ok <==> scan_ok(ops.skip(n as int), regs))
                &&& !scan_ok(ops.skip(n as int), regs) ==> fails_with(r, ops.last())
                &&& r matches Ok(v) ==> {
                    let dm = mismatches(scan_values(ops.take(n as int), regs), data@);
                    let em = mismatches(scan_values(ops.skip(n as int), regs), data@);
                    &&& v.total == total
                    &&& v.dac_mismatches@ == dm
                    &&& v.eeprom_mismatches@ == em
                    &&& v.dac_matched == total - dm.len()
                    &&& v.eeprom_matched == total - em.len()
                }
            }
        }),
{
    proof {
        lemma_extends_refl(device.bus_history());
    }
    let fw = match FirmwareImage::from_bytes(data) {
        Ok(fw) => fw,
        Err(e) => {
            return Err(e);
        },
    };
    let total = fw.register_count;
    let ghost h0 = device.bus_history();
    let found = device.verify_all(fw.as_bytes());
    let (dac_mismatches, eeprom_mismatches) = match found {
        Ok(m) => m,
        Err(e) => {
            return Err(e);
        },
    };
    proof {
        let ops = added(h0, device.bus_history());
        let n = ek_scanned_registers().len() + 2;
        lemma_mismatches_within_image(ops.take(n as int), fw.data@);
        lemma_mismatches_within_image(ops.skip(n as int), fw.data@);
    }
    let dac_matched = total - dac_mismatches.len();
    let eeprom_matched = total - eeprom_mismatches.len();
    Ok(VerifyAllResult { total, dac_matched, eeprom_matched, dac_mismatches, eeprom_mismatches })
}

/// Write the `(address, value)` pairs to the DAC in order, stopping at the
/// first failure; a batch that names the control register is refused before
/// any transaction.
pub fn write_all_dac_registers(device: &mut Ek86317a, entries: &[(u8, u8)]) -> (r: Result<
    WriteAllDacResult,
    String,
>)
    ensures
        extends(old(device).bus_history(), final(device).bus_history()),
        (exists|i: int| 0 <= i < entries@.len() && #[trigger] entries@[i].0 == REG_CONTROL)
            ==> final(device).bus_history() == old(device).bus_history() && (r matches Err(e) && e@
            == control_register_reserved()),
        !(exists|i: int| 0 <= i < entries@.len() && #[trigger] entries@[i].0 == REG_CONTROL) ==> {
            &&& writes_each(
                added(old(device).bus_history(), final(device).bus_history()),
                PMIC_ADDR,
                entries@,
                r,
            )
            &&& r matches Ok(w) ==> w == (WriteAllDacResult {
                success: true,
                registers_written: entries@.len() as usize,
            })
        },
{
    proof {
        lemma_extends_refl(device.bus_history());
    }
    let mut i: usize = 0;
    while i < entries.len()
        invariant
            i <= entries@.len(),
            device.bus_history() == old(device).bus_history(),
            extends(old(device).bus_history(), device.bus_history()),
            forall|j: int| 0 <= j < i ==> entries@[j].0 != REG_CONTROL,
        decreases entries@.len() - i,
    {
        if entries[i].0 == REG_CONTROL {
            assert(entries@[i as int].0 == REG_CONTROL);
            return Err("Control register 0xFF is reserved for dedicated EEPROM commands".to_owned());
        }
        i = i + 1;
    }
    match device.write_all_dac_registers(entries) {
        Ok(count) => Ok(WriteAllDacResult { success: true, registers_written: count }),
        Err(e) => Err(e),
    }
}

/// The largest address of the pairs `p`, or 0 if there is none.
pub open spec fn max_address(p: Seq<(u8, u8)>) -> u8
    decreases p.len(),
{
    if p.len() == 0 {
        0
    } else {
        let m = max_address(p.drop_last());
        if p.last().0 > m {
            p.last().0
        } else {
            m
        }
    }
}

proof fn lemma_max_address(p: Seq<(u8, u8)>)
    ensures
        forall|i: int| 0 <= i < p.len() ==> #[trigger] p[i].0 <= max_address(p),
    decreases p.len(),
{
    if p.len() > 0 {
        lemma_max_address(p.drop_last());
        assert forall|i: int| 0 <= i < p.len() implies #[trigger] p[i].0 <= max_address(p) by {
            if i < p.len() - 1 {
                assert(p.drop_last()[i] == p[i]);
            }
        }
    }
}

/// The BIN image of a register read-back: one byte per address up to the
/// largest address read, each the last value read for it, 0 where none was.
pub open spec fn readback_image(p: Seq<(u8, u8)>) -> Seq<u8> {
    Seq::new(
        (max_address(p) + 1) as nat,
        |i: int| match last_value(p, i as u8) {
            Some(v) => v,
            None => 0,
        },
    )
}

/// Build the BIN image of a register read-back (the EEPROM export).
pub fn eeprom_image(regs: &[(u8, u8)]) -> (bin: Vec<u8>)
    ensures
        bin@ == readback_image(regs@),
{
    let mut max: u8 = 0;
    let mut i: usize = 0;
    while i < regs.len()
        invariant
            i <= regs@.len(),
            max == max_address(regs@.take(i as int)),
        decreases regs@.len() - i,
    {
        assert(regs@.take(i + 1).drop_last() =~= regs@.take(i as int));
        if regs[i].0 > max {
            max = regs[i].0;
        }
        i = i + 1;
    }
    assert(regs@.take(i as int) =~= regs@);
    proof {
        lemma_max_address(regs@);
    }
    let len: usize = max as usize + 1;
    let mut bin: Vec<u8> = Vec::new();
    while bin.len() < len
        invariant
            bin@.len() <= len,
            forall|j: int| 0 <= j < bin@.len() ==> bin@[j] == 0,
        decreases len - bin@.len(),
    {
        bin.push(0);
    }
    let mut k: usize = 0;
    while k < regs.len()
        invariant
            k <= regs@.len(),
            len == max_address(regs@) + 1,
            len <= 256,
            bin@.len() == len,
            forall|i: int| 0 <= i < regs@.len() ==> #[trigger] regs@[i].0 <= max_address(regs@),
            forall|j: int|
                0 <= j < len ==> #[trigger] bin@[j] == match last_value(
                    regs@.take(k as int),
                    j as u8,
                ) {
                    Some(v) => v,
                    None => 0,
                },
        decreases regs@.len() - k,
    {
        let (addr, value) = regs[k];
        assert(regs@.take(k + 1).drop_last() =~= regs@.take(k as int));
        assert(regs@[k as int].0 <= max_address(regs@));
        bin.set(addr as usize, value);
        k = k + 1;
        assert forall|j: int| 0 <= j < len implies #[trigger] bin@[j] == match last_value(
            regs@.take(k as int),
            j as u8,
        ) {
            Some(v) => v,
            None => 0,
        } by {
            assert((j as u8) as int == j);
        }
    }
    assert(regs@.take(k as int) =~= regs@);
    assert(bin@ =~= readback_image(regs@));
    bin
}

} // verus!
