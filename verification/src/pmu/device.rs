//! A PMU chip driven over an I2C bridge, following its chip description.

use vstd::prelude::*;

use crate::bridges::i2c::{BusOp, I2cBus};
use crate::pmu::chip::{self, register_address_seq, register_name, ChipModel, ChipSpec};
use crate::pmu::transcript::{
    added, extends, fails_with, is_reg_read, lemma_extends_push, lemma_extends_refl, lemma_extends_trans,
    op_ok, read_register, register_writes, scan_bank, scan_ok, scan_result, scan_shape,
    scan_values, scanned, select_and_read, select_then_read, single_read, single_write,
    write_control, write_control_then_wait, write_registers, write_then_wait,
};
use crate::text::concat;

verus! {

/// The mismatches between read-back `(address, actual)` pairs and the image
/// `data`: `(address, expected, actual)` for each pair whose address lies in
/// the image and whose value differs, in read-back order.
pub open spec fn mismatches(readback: Seq<(u8, u8)>, data: Seq<u8>) -> Seq<(u8, u8, u8)>
    decreases readback.len(),
{
    if readback.len() == 0 {
        Seq::empty()
    } else {
        let rest = mismatches(readback.drop_last(), data);
        let (addr, actual) = readback.last();
        if (addr as int) < data.len() && data[addr as int] != actual {
            rest.push((addr, data[addr as int], actual))
        } else {
            rest
        }
    }
}

/// A read-back agrees with an image exactly when the comparison finds no
/// mismatch: every read-back register inside the image holds the image byte.
pub proof fn lemma_no_mismatch_iff_agrees(readback: Seq<(u8, u8)>, data: Seq<u8>)
    ensures
        mismatches(readback, data).len() == 0 <==> forall|i: int|
            0 <= i < readback.len() && (readback[i].0 as int) < data.len() ==> data[readback[i].0 as int]
                == #[trigger] readback[i].1,
    decreases readback.len(),
{
    if readback.len() > 0 {
        let rest = readback.drop_last();
        lemma_no_mismatch_iff_agrees(rest, data);
        lemma_mismatches_len_monotone(rest, data, readback.last());
        if mismatches(readback, data).len() == 0 {
            assert forall|i: int|
                0 <= i < readback.len() && (readback[i].0 as int) < data.len() implies data[readback[i].0 as int]
                == #[trigger] readback[i].1 by {
                if i < rest.len() {
                    assert(rest[i] == readback[i]);
                }
            }
        } else {
            if mismatches(rest, data).len() != 0 {
                let i = choose|i: int|
                    0 <= i < rest.len() && (rest[i].0 as int) < data.len() && data[rest[i].0 as int]
                        != #[trigger] rest[i].1;
                assert(readback[i] == rest[i]);
            } else {
                assert(data[readback.last().0 as int] != readback[readback.len() - 1].1);
            }
        }
    }
}

proof fn lemma_mismatches_len_monotone(rest: Seq<(u8, u8)>, data: Seq<u8>, x: (u8, u8))
    ensures
        mismatches(rest.push(x), data).len() >= mismatches(rest, data).len(),
        mismatches(rest.push(x), data).len() == 0 ==> (x.0 as int) >= data.len() || data[x.0 as int] == x.1,
{
    assert(rest.push(x).drop_last() =~= rest);
}

/// Compare read-back registers with the image they should hold.
pub(crate) fn compare_readback(readback: &Vec<(u8, u8)>, data: &[u8]) -> (m: Vec<(u8, u8, u8)>)
    ensures
        m@ == mismatches(readback@, data@),
{
    let mut m: Vec<(u8, u8, u8)> = Vec::new();
    let mut i: usize = 0;
    while i < readback.len()
        invariant
            i <= readback@.len(),
            m@ == mismatches(readback@.take(i as int), data@),
        decreases readback@.len() - i,
    {
        let (addr, actual) = readback[i];
        let idx = addr as usize;
        assert(readback@.take(i + 1).drop_last() =~= readback@.take(i as int));
        if idx < data.len() {
            let expected = data[idx];
            if expected != actual {
                m.push((addr, expected, actual));
            }
        }
        i = i + 1;
    }
    assert(readback@.take(i as int) =~= readback@);
    m
}

/// The registers a bank scan of `spec`'s chip reads.
pub open spec fn scanned_registers(spec: ChipSpec) -> Seq<u8> {
    scanned(register_address_seq(spec.model), spec.control_reg)
}

/// The VCOM slave register probed for presence: the fault register, else the
/// output register, else the control register, else 0x00.
pub open spec fn vcom_probe_register(spec: ChipSpec) -> u8 {
    match spec.vcom_fault_reg {
        Some(r) => r,
        None => match spec.vcom_output_reg {
            Some(r) => r,
            None => match spec.vcom_control_reg {
                Some(r) => r,
                None => 0x00,
            },
        },
    }
}

/// `ops` is a DAC scan followed, if that succeeded, by an EEPROM scan, and `r`
/// holds the mismatches of each against `data` if both succeeded.
pub open spec fn verify_all_result(
    ops: Seq<BusOp>,
    spec: ChipSpec,
    data: Seq<u8>,
    r: Result<(Vec<(u8, u8, u8)>, Vec<(u8, u8, u8)>), String>,
) -> bool {
    let regs = scanned_registers(spec);
    let n = regs.len() + 2;
    let dac = ops.take(n as int);
    let eeprom = ops.skip(n as int);
    ||| scan_shape(ops, spec.pmic_addr, spec.control_reg, spec.ctrl_read_dac, spec.read_delay_ms, regs) && !scan_ok(ops, regs)
        && fails_with(r, ops.last())
    ||| {
        &&& ops.len() >= n
        &&& scan_shape(dac, spec.pmic_addr, spec.control_reg, spec.ctrl_read_dac, spec.read_delay_ms, regs)
        &&& scan_ok(dac, regs)
        &&& scan_shape(eeprom, spec.pmic_addr, spec.control_reg, spec.ctrl_read_eeprom, spec.read_delay_ms, regs)
        &&& (r is Ok <==> scan_ok(eeprom, regs))
        &&& !scan_ok(eeprom, regs) ==> fails_with(r, ops.last())
        &&& r matches Ok(m) ==> m.0@ == mismatches(scan_values(dac, regs), data) && m.1@ == mismatches(
            scan_values(eeprom, regs),
            data,
        )
    }
}

/// A PMU chip behind an I2C bridge.
pub struct ChipDevice<B = Box<dyn I2cBus>> {
    bus: B,
    spec: ChipSpec,
}

impl<B: I2cBus> ChipDevice<B> {
    /// The chip description this device follows.
    pub closed spec fn chip(&self) -> ChipSpec {
        self.spec
    }

    /// The transactions carried by the device's bridge.
    pub closed spec fn bus_history(&self) -> Seq<BusOp> {
        self.bus.history()
    }

    /// A device for the chip `spec` behind `bus`.
    pub fn new(bus: B, spec: ChipSpec) -> (d: Self)
        ensures
            d.chip() == spec,
            d.bus_history() == bus.history(),
    {
        ChipDevice { bus, spec }
    }

    pub fn chip_model(&self) -> (m: ChipModel)
        ensures
            m == self.chip().model,
    {
        self.spec.model
    }

    pub fn spec(&self) -> (s: ChipSpec)
        ensures
            s == self.chip(),
    {
        self.spec
    }

    pub fn get_register_name(&self, addr: u8) -> (name: &'static str)
        ensures
            name == register_name(self.chip().model, addr),
    {
        chip::get_register_name(self.spec.model, addr)
    }

    /// Read a DAC register: select the DAC bank, wait, read the register.
    pub fn read_dac_register(&mut self, reg: u8) -> (r: Result<u8, String>)
        ensures
            final(self).chip() == old(self).chip(),
            extends(old(self).bus_history(), final(self).bus_history()),
            select_then_read(
                added(old(self).bus_history(), final(self).bus_history()),
                old(self).chip().pmic_addr,
                old(self).chip().control_reg,
                old(self).chip().ctrl_read_dac,
                old(self).chip().read_delay_ms,
                reg,
                r,
            ),
    {
        select_and_read(
            &mut self.bus,
            self.spec.pmic_addr,
            self.spec.control_reg,
            self.spec.ctrl_read_dac,
            self.spec.read_delay_ms,
            reg,
        )
    }

    /// Write one DAC register.
    pub fn write_dac_register(&mut self, reg: u8, value: u8) -> (r: Result<(), String>)
        ensures
            final(self).chip() == old(self).chip(),
            extends(old(self).bus_history(), final(self).bus_history()),
            single_write(
                added(old(self).bus_history(), final(self).bus_history()),
                old(self).chip().pmic_addr,
                seq![reg, value],
                r,
            ),
    {
        write_control(&mut self.bus, self.spec.pmic_addr, reg, value)
    }

    /// Write consecutive DAC registers from `start_reg` in one transaction.
    pub fn write_dac_registers(&mut self, start_reg: u8, data: &[u8]) -> (r: Result<(), String>)
        ensures
            final(self).chip() == old(self).chip(),
            extends(old(self).bus_history(), final(self).bus_history()),
            single_write(
                added(old(self).bus_history(), final(self).bus_history()),
                old(self).chip().pmic_addr,
                seq![start_reg] + data@,
                r,
            ),
    {
        let ghost h0 = self.bus.history();
        let mut payload: Vec<u8> = Vec::new();
        payload.push(start_reg);
        payload.extend_from_slice(data);
        assert(payload@ =~= seq![start_reg] + data@);
        let r = self.bus.write(self.spec.pmic_addr, payload.as_slice());
        proof {
            lemma_extends_push(h0, self.bus.history().last());
            assert(h0.push(self.bus.history().last()) =~= self.bus.history());
        }
        r
    }

    /// Read every DAC register of the chip (the control register excepted).
    pub fn read_all_dac(&mut self) -> (r: Result<Vec<(u8, u8)>, String>)
        ensures
            final(self).chip() == old(self).chip(),
            extends(old(self).bus_history(), final(self).bus_history()),
            scan_result(
                added(old(self).bus_history(), final(self).bus_history()),
                old(self).chip().pmic_addr,
                old(self).chip().control_reg,
                old(self).chip().ctrl_read_dac,
                old(self).chip().read_delay_ms,
                scanned_registers(old(self).chip()),
                r,
            ),
    {
        let addrs = chip::register_addresses(self.spec.model);
        scan_bank(
            &mut self.bus,
            self.spec.pmic_addr,
            self.spec.control_reg,
            self.spec.ctrl_read_dac,
            self.spec.read_delay_ms,
            &addrs,
        )
    }

    /// Read an EEPROM register: select the EEPROM bank, wait, read the register.
    pub fn read_eeprom_register(&mut self, reg: u8) -> (r: Result<u8, String>)
        ensures
            final(self).chip() == old(self).chip(),
            extends(old(self).bus_history(), final(self).bus_history()),
            select_then_read(
                added(old(self).bus_history(), final(self).bus_history()),
                old(self).chip().pmic_addr,
                old(self).chip().control_reg,
                old(self).chip().ctrl_read_eeprom,
                old(self).chip().read_delay_ms,
                reg,
                r,
            ),
    {
        select_and_read(
            &mut self.bus,
            self.spec.pmic_addr,
            self.spec.control_reg,
            self.spec.ctrl_read_eeprom,
            self.spec.read_delay_ms,
            reg,
        )
    }

    /// Read every EEPROM register of the chip (the control register excepted).
    pub fn read_all_eeprom(&mut self) -> (r: Result<Vec<(u8, u8)>, String>)
        ensures
            final(self).chip() == old(self).chip(),
            extends(old(self).bus_history(), final(self).bus_history()),
            scan_result(
                added(old(self).bus_history(), final(self).bus_history()),
                old(self).chip().pmic_addr,
                old(self).chip().control_reg,
                old(self).chip().ctrl_read_eeprom,
                old(self).chip().read_delay_ms,
                scanned_registers(old(self).chip()),
                r,
            ),
    {
        let addrs = chip::register_addresses(self.spec.model);
        scan_bank(
            &mut self.bus,
            self.spec.pmic_addr,
            self.spec.control_reg,
            self.spec.ctrl_read_eeprom,
            self.spec.read_delay_ms,
            &addrs,
        )
    }

    /// Burn all DAC registers into EEPROM, then wait for the write to finish.
    pub fn write_all_to_eeprom(&mut self) -> (r: Result<(), String>)
        ensures
            final(self).chip() == old(self).chip(),
            extends(old(self).bus_history(), final(self).bus_history()),
            write_then_wait(
                added(old(self).bus_history(), final(self).bus_history()),
                old(self).chip().pmic_addr,
                seq![old(self).chip().control_reg, old(self).chip().ctrl_write_all_eeprom],
                old(self).chip().write_delay_ms,
                r,
            ),
    {
        write_control_then_wait(
            &mut self.bus,
            self.spec.pmic_addr,
            self.spec.control_reg,
            self.spec.ctrl_write_all_eeprom,
            self.spec.write_delay_ms,
        )
    }

    /// Burn the VCOM register into EEPROM, then wait for the write to finish.
    pub fn write_vcom1_to_eeprom(&mut self) -> (r: Result<(), String>)
        ensures
            final(self).chip() == old(self).chip(),
            extends(old(self).bus_history(), final(self).bus_history()),
            write_then_wait(
                added(old(self).bus_history(), final(self).bus_history()),
                old(self).chip().pmic_addr,
                seq![old(self).chip().control_reg, old(self).chip().ctrl_write_vcom_eeprom],
                old(self).chip().write_delay_ms,
                r,
            ),
    {
        write_control_then_wait(
            &mut self.bus,
            self.spec.pmic_addr,
            self.spec.control_reg,
            self.spec.ctrl_write_vcom_eeprom,
            self.spec.write_delay_ms,
        )
    }

    /// Read the fault register of the VCOM slave; a chip without a VCOM slave
    /// or without a fault register is an error and no transaction is made.
    pub fn read_fault_flags(&mut self) -> (r: Result<u8, String>)
        ensures
            final(self).chip() == old(self).chip(),
            extends(old(self).bus_history(), final(self).bus_history()),
            match (old(self).chip().vcom_addr, old(self).chip().vcom_fault_reg) {
                (Some(vcom), Some(fault)) => single_read(
                    added(old(self).bus_history(), final(self).bus_history()),
                    vcom,
                    fault,
                    r,
                ),
                (None, _) => final(self).bus_history() == old(self).bus_history() && (r matches Err(
                    e,
                ) && e@ == old(self).chip().display_name@ + " does not expose a separate VCOM slave"@),
                (Some(_), None) => final(self).bus_history() == old(self).bus_history() && (r matches Err(
                    e,
                ) && e@ == old(self).chip().display_name@ + " does not expose fault flags"@),
            },
    {
        proof {
            lemma_extends_refl(self.bus.history());
        }
        let vcom_addr = match self.spec.vcom_addr {
            Some(a) => a,
            None => {
                return Err(concat(self.spec.display_name, " does not expose a separate VCOM slave"));
            },
        };
        let fault_reg = match self.spec.vcom_fault_reg {
            Some(f) => f,
            None => {
                return Err(concat(self.spec.display_name, " does not expose fault flags"));
            },
        };
        read_register(&mut self.bus, vcom_addr, fault_reg)
    }

    /// Compare the EEPROM bank with the image `data`; returns the mismatches.
    pub fn verify_firmware(&mut self, data: &[u8]) -> (r: Result<Vec<(u8, u8, u8)>, String>)
        ensures
            final(self).chip() == old(self).chip(),
            extends(old(self).bus_history(), final(self).bus_history()),
            ({
                let ops = added(old(self).bus_history(), final(self).bus_history());
                let regs = scanned_registers(old(self).chip());
                &&& scan_shape(
                    ops,
                    old(self).chip().pmic_addr,
                    old(self).chip().control_reg,
                    old(self).chip().ctrl_read_eeprom,
                    old(self).chip().read_delay_ms,
                    regs,
                )
                &&& (r is Ok <==> scan_ok(ops, regs))
                &&& !scan_ok(ops, regs) ==> fails_with(r, ops.last())
                &&& r matches Ok(m) ==> m@ == mismatches(scan_values(ops, regs), data@)
            }),
    {
        let eeprom = self.read_all_eeprom();
        match eeprom {
            Ok(readback) => Ok(compare_readback(&readback, data)),
            Err(e) => Err(e),
        }
    }

    /// Compare both the DAC and the EEPROM bank with the image `data`; returns
    /// (DAC mismatches, EEPROM mismatches).
    pub fn verify_all(&mut self, data: &[u8]) -> (r: Result<
        (Vec<(u8, u8, u8)>, Vec<(u8, u8, u8)>),
        String,
    >)
        ensures
            final(self).chip() == old(self).chip(),
            extends(old(self).bus_history(), final(self).bus_history()),
            verify_all_result(
                added(old(self).bus_history(), final(self).bus_history()),
                old(self).chip(),
                data@,
                r,
            ),
    {
        let ghost h0 = self.bus.history();
        let dac = self.read_all_dac();
        let dac_readback = match dac {
            Ok(v) => v,
            Err(e) => {
                return Err(e);
            },
        };
        let dac_mismatches = compare_readback(&dac_readback, data);
        let ghost h1 = self.bus.history();
        let eeprom = self.read_all_eeprom();
        proof {
            lemma_extends_trans(h0, h1, self.bus.history());
            let ops = added(h0, self.bus.history());
            let n = scanned_registers(self.spec).len() + 2;
            assert(ops.take(n as int) =~= added(h0, h1));
            assert(ops.skip(n as int) =~= added(h1, self.bus.history()));
        }
        let eeprom_readback = match eeprom {
            Ok(v) => v,
            Err(e) => {
                return Err(e);
            },
        };
        let eeprom_mismatches = compare_readback(&eeprom_readback, data);
        Ok((dac_mismatches, eeprom_mismatches))
    }

    /// Write each `(address, value)` to the DAC, stopping at the first failure;
    /// returns how many were written.
    pub fn write_all_dac_registers(&mut self, registers: &[(u8, u8)]) -> (r: Result<usize, String>)
        ensures
            final(self).chip() == old(self).chip(),
            extends(old(self).bus_history(), final(self).bus_history()),
            register_writes(
                added(old(self).bus_history(), final(self).bus_history()),
                old(self).chip().pmic_addr,
                registers@,
                r,
            ),
    {
        write_registers(&mut self.bus, self.spec.pmic_addr, registers)
    }

    /// Probe the chip: recover the bus (its failure is ignored), read the
    /// AVDD register of the PMIC slave and, if the chip has one, a register of
    /// the VCOM slave. Returns (PMIC answered, VCOM answered or `None` without
    /// a VCOM slave).
    pub fn probe(&mut self) -> (r: Result<(bool, Option<bool>), String>)
        ensures
            final(self).chip() == old(self).chip(),
            extends(old(self).bus_history(), final(self).bus_history()),
            ({
                let ops = added(old(self).bus_history(), final(self).bus_history());
                let sp = old(self).chip();
                &&& ops.len() >= 2
                &&& ops[0] is Recovery
                &&& is_reg_read(ops[1], sp.pmic_addr, sp.avdd_reg)
                &&& match sp.vcom_addr {
                    None => ops.len() == 2 && r == Ok::<(bool, Option<bool>), String>(
                        (op_ok(ops[1]), None),
                    ),
                    Some(a) => ops.len() == 3 && is_reg_read(ops[2], a, vcom_probe_register(sp))
                        && r == Ok::<(bool, Option<bool>), String>(
                        (op_ok(ops[1]), Some(op_ok(ops[2]))),
                    ),
                }
            }),
    {
        let ghost h0 = self.bus.history();
        let _ = self.bus.bus_recovery();
        let ghost hr = self.bus.history();
        proof {
            lemma_extends_push(h0, hr.last());
            assert(hr == h0.push(hr.last()));
        }
        let pmic_ok = read_register(&mut self.bus, self.spec.pmic_addr, self.spec.avdd_reg).is_ok();
        let ghost h1 = self.bus.history();
        proof {
            lemma_extends_trans(h0, hr, h1);
        }
        let vcom_detected = match self.spec.vcom_addr {
            Some(addr) => {
                let probe_reg = match self.spec.vcom_fault_reg {
                    Some(r) => r,
                    None => match self.spec.vcom_output_reg {
                        Some(r) => r,
                        None => match self.spec.vcom_control_reg {
                            Some(r) => r,
                            None => 0x00,
                        },
                    },
                };
                let ok = read_register(&mut self.bus, addr, probe_reg).is_ok();
                proof {
                    lemma_extends_trans(h0, h1, self.bus.history());
                }
                Some(ok)
            },
            None => None,
        };
        Ok((pmic_ok, vcom_detected))
    }
}

} // verus!
