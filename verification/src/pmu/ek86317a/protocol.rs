//! EK86317A I2C protocol implementation.

use vstd::prelude::*;

use crate::bridges::i2c::{BusOp, I2cBus};
use crate::ek86317a::registers::{
    pmic_reg_address_seq, pmic_reg_addresses, CTRL_READ_DAC, CTRL_READ_EEPROM,
    CTRL_WRITE_ALL_EEPROM, CTRL_WRITE_VCOM1_EEPROM, REG_CONTROL, VCOM_REG_CONTROL, VCOM_REG_FAULT,
    VCOM_REG_VCOM1_NT,
};
use crate::pmu::device::{compare_readback, mismatches};
use crate::pmu::transcript::{
    added, extends, fails_with, is_reg_read, is_write, lemma_extends_push, lemma_extends_trans, op_ok,
    read_register, register_writes, reply_byte, scan_bank, scan_ok, scan_result, scan_shape,
    scan_values, scanned, select_and_read, select_then_read, single_read, single_write,
    write_control, write_control_then_wait, write_registers, write_then_wait, is_delay,
};

verus! {

/// PMIC I2C 7-bit slave address
pub const PMIC_ADDR: u8 = 0x20;

/// VCOM I2C 7-bit slave address
pub const VCOM_ADDR: u8 = 0x74;

/// Power-on blocking delay (ms)
pub const T_PON_BLK_MS: u64 = 10;

/// Write-to-MTP blocking delay (ms)
pub const T_WR_MTP_BLK_MS: u64 = 120;

/// Read-from-MTP blocking delay (ms)
pub const T_RD_MTP_BLK_MS: u64 = 5;

/// The PMIC registers a bank scan reads.
pub open spec fn ek_scanned_registers() -> Seq<u8> {
    scanned(pmic_reg_address_seq(), REG_CONTROL)
}

/// `ops` reads the VCOM control register and, if that succeeds, writes back
/// `update` of the value read; `r` succeeds exactly when both succeed, and
/// otherwise carries the bridge's error of the one that failed.
pub open spec fn vcom_control_update<T>(ops: Seq<BusOp>, update: spec_fn(u8) -> u8, r: Result<T, String>) -> bool {
    &&& ops.len() >= 1
    &&& is_reg_read(ops[0], VCOM_ADDR, VCOM_REG_CONTROL)
    &&& if op_ok(ops[0]) {
        &&& ops.len() == 2
        &&& is_write(ops[1], VCOM_ADDR, seq![VCOM_REG_CONTROL, update(reply_byte(ops[0]))])
        &&& (r is Ok) == op_ok(ops[1])
        &&& !op_ok(ops[1]) ==> fails_with(r, ops[1])
    } else {
        ops.len() == 1 && fails_with(r, ops[0])
    }
}

/// `ops` is the VCOM control update `vcom_control_update` describes followed,
/// if it succeeded, by a wait of `ms` milliseconds.
pub open spec fn vcom_control_update_then_wait<T>(
    ops: Seq<BusOp>,
    update: spec_fn(u8) -> u8,
    ms: u64,
    r: Result<T, String>,
) -> bool {
    if r is Ok {
        &&& ops.len() == 3
        &&& vcom_control_update(ops.take(2), update, r)
        &&& is_delay(ops[2], ms)
    } else {
        vcom_control_update(ops, update, r)
    }
}

/// EK86317A device driver, wrapping an I2C bus.
pub struct Ek86317a<B = Box<dyn I2cBus>> {
    bus: B,
}

impl<B: I2cBus> Ek86317a<B> {
    /// The transactions carried by the driver's bridge.
    pub closed spec fn bus_history(&self) -> Seq<BusOp> {
        self.bus.history()
    }

    /// Create a new EK86317A driver using the given I2C bus.
    pub fn new(bus: B) -> (d: Self)
        ensures
            d.bus_history() == bus.history(),
    {
        Ek86317a { bus }
    }

    /// Read a single DAC register: select the DAC bank, wait, read.
    pub fn read_dac_register(&mut self, reg: u8) -> (r: Result<u8, String>)
        ensures
            extends(old(self).bus_history(), final(self).bus_history()),
            select_then_read(
                added(old(self).bus_history(), final(self).bus_history()),
                PMIC_ADDR,
                REG_CONTROL,
                CTRL_READ_DAC,
                T_RD_MTP_BLK_MS,
                reg,
                r,
            ),
    {
        select_and_read(&mut self.bus, PMIC_ADDR, REG_CONTROL, CTRL_READ_DAC, T_RD_MTP_BLK_MS, reg)
    }

    /// Write a single DAC register: `[reg, value]` to the PMIC slave.
    pub fn write_dac_register(&mut self, reg: u8, value: u8) -> (r: Result<(), String>)
        ensures
            extends(old(self).bus_history(), final(self).bus_history()),
            single_write(
                added(old(self).bus_history(), final(self).bus_history()),
                PMIC_ADDR,
                seq![reg, value],
                r,
            ),
    {
        write_control(&mut self.bus, PMIC_ADDR, reg, value)
    }

    /// Write multiple DAC registers starting from `start_reg`.
    pub fn write_dac_registers(&mut self, start_reg: u8, data: &[u8]) -> (r: Result<(), String>)
        ensures
            extends(old(self).bus_history(), final(self).bus_history()),
            single_write(
                added(old(self).bus_history(), final(self).bus_history()),
                PMIC_ADDR,
                seq![start_reg] + data@,
                r,
            ),
    {
        self.write_payload(start_reg, data)
    }

    fn write_payload(&mut self, start_reg: u8, data: &[u8]) -> (r: Result<(), String>)
        ensures
            extends(old(self).bus_history(), final(self).bus_history()),
            single_write(
                added(old(self).bus_history(), final(self).bus_history()),
                PMIC_ADDR,
                seq![start_reg] + data@,
                r,
            ),
    {
        let ghost h0 = self.bus.history();
        let mut payload: Vec<u8> = Vec::new();
        payload.push(start_reg);
        payload.extend_from_slice(data);
        assert(payload@ =~= seq![start_reg] + data@);
        let r = self.bus.write(PMIC_ADDR, payload.as_slice());
        proof {
            lemma_extends_push(h0, self.bus.history().last());
            assert(h0.push(self.bus.history().last()) =~= self.bus.history());
        }
        r
    }

    /// Read all DAC registers. Returns (address, value) pairs.
    pub fn read_all_dac(&mut self) -> (r: Result<Vec<(u8, u8)>, String>)
        ensures
            extends(old(self).bus_history(), final(self).bus_history()),
            scan_result(
                added(old(self).bus_history(), final(self).bus_history()),
                PMIC_ADDR,
                REG_CONTROL,
                CTRL_READ_DAC,
                T_RD_MTP_BLK_MS,
                ek_scanned_registers(),
                r,
            ),
    {
        let addrs = pmic_reg_addresses();
        scan_bank(&mut self.bus, PMIC_ADDR, REG_CONTROL, CTRL_READ_DAC, T_RD_MTP_BLK_MS, &addrs)
    }

    /// Read a single EEPROM register: select the EEPROM bank, wait, read.
    pub fn read_eeprom_register(&mut self, reg: u8) -> (r: Result<u8, String>)
        ensures
            extends(old(self).bus_history(), final(self).bus_history()),
            select_then_read(
                added(old(self).bus_history(), final(self).bus_history()),
                PMIC_ADDR,
                REG_CONTROL,
                CTRL_READ_EEPROM,
                T_RD_MTP_BLK_MS,
                reg,
                r,
            ),
    {
        select_and_read(
            &mut self.bus,
            PMIC_ADDR,
            REG_CONTROL,
            CTRL_READ_EEPROM,
            T_RD_MTP_BLK_MS,
            reg,
        )
    }

    /// Read all EEPROM registers. Returns (address, value) pairs.
    pub fn read_all_eeprom(&mut self) -> (r: Result<Vec<(u8, u8)>, String>)
        ensures
            extends(old(self).bus_history(), final(self).bus_history()),
            scan_result(
                added(old(self).bus_history(), final(self).bus_history()),
                PMIC_ADDR,
                REG_CONTROL,
                CTRL_READ_EEPROM,
                T_RD_MTP_BLK_MS,
                ek_scanned_registers(),
                r,
            ),
    {
        let addrs = pmic_reg_addresses();
        scan_bank(&mut self.bus, PMIC_ADDR, REG_CONTROL, CTRL_READ_EEPROM, T_RD_MTP_BLK_MS, &addrs)
    }

    /// Write all DAC register values to EEPROM (0xFF = 0x80), then wait.
    pub fn write_all_to_eeprom(&mut self) -> (r: Result<(), String>)
        ensures
            extends(old(self).bus_history(), final(self).bus_history()),
            write_then_wait(
                added(old(self).bus_history(), final(self).bus_history()),
                PMIC_ADDR,
                seq![REG_CONTROL, CTRL_WRITE_ALL_EEPROM],
                T_WR_MTP_BLK_MS,
                r,
            ),
    {
        write_control_then_wait(&mut self.bus, PMIC_ADDR, REG_CONTROL, CTRL_WRITE_ALL_EEPROM, T_WR_MTP_BLK_MS)
    }

    /// Write only VCOM1_NT to EEPROM (0xFF = 0x40), then wait.
    pub fn write_vcom1_to_eeprom(&mut self) -> (r: Result<(), String>)
        ensures
            extends(old(self).bus_history(), final(self).bus_history()),
            write_then_wait(
                added(old(self).bus_history(), final(self).bus_history()),
                PMIC_ADDR,
                seq![REG_CONTROL, CTRL_WRITE_VCOM1_EEPROM],
                T_WR_MTP_BLK_MS,
                r,
            ),
    {
        write_control_then_wait(&mut self.bus, PMIC_ADDR, REG_CONTROL, CTRL_WRITE_VCOM1_EEPROM, T_WR_MTP_BLK_MS)
    }

    /// Read VCOM control register.
    pub fn read_vcom_control(&mut self) -> (r: Result<u8, String>)
        ensures
            extends(old(self).bus_history(), final(self).bus_history()),
            single_read(
                added(old(self).bus_history(), final(self).bus_history()),
                VCOM_ADDR,
                VCOM_REG_CONTROL,
                r,
            ),
    {
        read_register(&mut self.bus, VCOM_ADDR, VCOM_REG_CONTROL)
    }

    /// Write VCOM control register.
    pub fn write_vcom_control(&mut self, value: u8) -> (r: Result<(), String>)
        ensures
            extends(old(self).bus_history(), final(self).bus_history()),
            single_write(
                added(old(self).bus_history(), final(self).bus_history()),
                VCOM_ADDR,
                seq![VCOM_REG_CONTROL, value],
                r,
            ),
    {
        write_control(&mut self.bus, VCOM_ADDR, VCOM_REG_CONTROL, value)
    }

    /// Read VCOM1_NT register from VCOM slave.
    pub fn read_vcom1_nt(&mut self) -> (r: Result<u8, String>)
        ensures
            extends(old(self).bus_history(), final(self).bus_history()),
            single_read(
                added(old(self).bus_history(), final(self).bus_history()),
                VCOM_ADDR,
                VCOM_REG_VCOM1_NT,
                r,
            ),
    {
        read_register(&mut self.bus, VCOM_ADDR, VCOM_REG_VCOM1_NT)
    }

    /// Write VCOM1_NT register via VCOM slave.
    pub fn write_vcom1_nt(&mut self, value: u8) -> (r: Result<(), String>)
        ensures
            extends(old(self).bus_history(), final(self).bus_history()),
            single_write(
                added(old(self).bus_history(), final(self).bus_history()),
                VCOM_ADDR,
                seq![VCOM_REG_VCOM1_NT, value],
                r,
            ),
    {
        write_control(&mut self.bus, VCOM_ADDR, VCOM_REG_VCOM1_NT, value)
    }

    /// Read fault flags from VCOM slave.
    pub fn read_fault_flags(&mut self) -> (r: Result<u8, String>)
        ensures
            extends(old(self).bus_history(), final(self).bus_history()),
            single_read(
                added(old(self).bus_history(), final(self).bus_history()),
                VCOM_ADDR,
                VCOM_REG_FAULT,
                r,
            ),
    {
        read_register(&mut self.bus, VCOM_ADDR, VCOM_REG_FAULT)
    }

    /// Read the VCOM control register, then write back `new` of it.
    fn update_vcom_control(&mut self, set: u8, clear: u8) -> (r: Result<u8, String>)
        ensures
            extends(old(self).bus_history(), final(self).bus_history()),
            vcom_control_update(
                added(old(self).bus_history(), final(self).bus_history()),
                |c: u8| (c | set) & !clear,
                r,
            ),
    {
        let ghost h0 = self.bus.history();
        let ctrl = match self.read_vcom_control() {
            Ok(c) => c,
            Err(e) => {
                return Err(e);
            },
        };
        let ghost h1 = self.bus.history();
        let w = self.write_vcom_control((ctrl | set) & !clear);
        proof {
            lemma_extends_trans(h0, h1, self.bus.history());
        }
        match w {
            Ok(()) => Ok(ctrl),
            Err(e) => Err(e),
        }
    }

    /// Enable or disable VCOM1 output: set or clear bit1 of the VCOM control register.
    pub fn set_vcom1_enable(&mut self, enable: bool) -> (r: Result<(), String>)
        ensures
            extends(old(self).bus_history(), final(self).bus_history()),
            vcom_control_update(
                added(old(self).bus_history(), final(self).bus_history()),
                if enable {
                    |c: u8| c | 0x02
                } else {
                    |c: u8| c & !0x02u8
                },
                r,
            ),
    {
        let r = if enable {
            self.update_vcom_control(0x02, 0x00)
        } else {
            self.update_vcom_control(0x00, 0x02)
        };
        proof {
            assert(forall|c: u8| #![auto] (c | 0x02u8) & !0x00u8 == c | 0x02u8) by (bit_vector);
            assert(forall|c: u8| #![auto] (c | 0x00u8) & !0x02u8 == c & !0x02u8) by (bit_vector);
        }
        match r {
            Ok(_) => Ok(()),
            Err(e) => Err(e),
        }
    }

    /// Load VCOM1_NT from EEPROM by asserting the RESET bit (bit4), then wait.
    pub fn load_vcom1_from_eeprom(&mut self) -> (r: Result<(), String>)
        ensures
            extends(old(self).bus_history(), final(self).bus_history()),
            vcom_control_update_then_wait(
                added(old(self).bus_history(), final(self).bus_history()),
                |c: u8| c | 0x10,
                T_RD_MTP_BLK_MS,
                r,
            ),
    {
        let ghost h0 = self.bus.history();
        let r = self.update_vcom_control(0x10, 0x00);
        proof {
            assert(forall|c: u8| #![auto] (c | 0x10u8) & !0x00u8 == c | 0x10u8) by (bit_vector);
        }
        match r {
            Ok(_) => {
                let ghost h1 = self.bus.history();
                self.bus.delay_ms(T_RD_MTP_BLK_MS);
                proof {
                    assert(self.bus.history().take(h0.len() as int) =~= h0);
                    assert(added(h0, self.bus.history()) =~= added(h0, h1).push(
                        BusOp::Delay { ms: T_RD_MTP_BLK_MS },
                    ));
                    assert(added(h0, self.bus.history()).take(2) =~= added(h0, h1));
                }
                Ok(())
            },
            Err(e) => Err(e),
        }
    }

    /// Write VCOM1_NT to EEPROM by asserting the W_VCOM1_NT bit (bit3), then wait.
    pub fn write_vcom1_nt_to_eeprom(&mut self) -> (r: Result<(), String>)
        ensures
            extends(old(self).bus_history(), final(self).bus_history()),
            vcom_control_update_then_wait(
                added(old(self).bus_history(), final(self).bus_history()),
                |c: u8| c | 0x08,
                T_WR_MTP_BLK_MS,
                r,
            ),
    {
        let ghost h0 = self.bus.history();
        let r = self.update_vcom_control(0x08, 0x00);
        proof {
            assert(forall|c: u8| #![auto] (c | 0x08u8) & !0x00u8 == c | 0x08u8) by (bit_vector);
        }
        match r {
            Ok(_) => {
                let ghost h1 = self.bus.history();
                self.bus.delay_ms(T_WR_MTP_BLK_MS);
                proof {
                    assert(self.bus.history().take(h0.len() as int) =~= h0);
                    assert(added(h0, self.bus.history()) =~= added(h0, h1).push(
                        BusOp::Delay { ms: T_WR_MTP_BLK_MS },
                    ));
                    assert(added(h0, self.bus.history()).take(2) =~= added(h0, h1));
                }
                Ok(())
            },
            Err(e) => Err(e),
        }
    }

    /// Write firmware data to DAC registers from register 0x00 in one
    /// multi-byte write, skipping the control register (0xFF): only the bytes
    /// for registers 0x00..=0xFE are sent. Empty data is an error and nothing
    /// is sent.
    pub fn write_firmware(&mut self, data: &[u8]) -> (r: Result<(), String>)
        ensures
            extends(old(self).bus_history(), final(self).bus_history()),
            data@.len() == 0 ==> final(self).bus_history() == old(self).bus_history() && (r matches Err(
                e,
            ) && e@ == "Empty firmware data"@),
            data@.len() > 0 ==> single_write(
                added(old(self).bus_history(), final(self).bus_history()),
                PMIC_ADDR,
                seq![0x00u8] + data@.take(
                    if data@.len() < REG_CONTROL as int {
                        data@.len() as int
                    } else {
                        REG_CONTROL as int
                    },
                ),
                r,
            ),
    {
        if data.len() == 0 {
            proof {
                crate::pmu::transcript::lemma_extends_refl(self.bus.history());
            }
            return Err("Empty firmware data".to_owned());
        }
        let n: usize = if data.len() < REG_CONTROL as usize {
            data.len()
        } else {
            REG_CONTROL as usize
        };
        let mut part: Vec<u8> = Vec::new();
        let mut i: usize = 0;
        while i < n
            invariant
                i <= n,
                n <= data@.len(),
                part@ == data@.take(i as int),
            decreases n - i,
        {
            part.push(data[i]);
            i = i + 1;
            assert(part@ =~= data@.take(i as int));
        }
        self.write_payload(0x00, part.as_slice())
    }

    /// Verify firmware by reading back EEPROM and comparing.
    /// Returns a list of mismatches: (address, expected, actual).
    pub fn verify_firmware(&mut self, data: &[u8]) -> (r: Result<Vec<(u8, u8, u8)>, String>)
        ensures
            extends(old(self).bus_history(), final(self).bus_history()),
            ({
                let ops = added(old(self).bus_history(), final(self).bus_history());
                &&& scan_shape(ops, PMIC_ADDR, REG_CONTROL, CTRL_READ_EEPROM, T_RD_MTP_BLK_MS, ek_scanned_registers())
                &&& (r is Ok <==> scan_ok(ops, ek_scanned_registers()))
                &&& !scan_ok(ops, ek_scanned_registers()) ==> fails_with(r, ops.last())
                &&& r matches Ok(m) ==> m@ == mismatches(
                    scan_values(ops, ek_scanned_registers()),
                    data@,
                )
            }),
    {
        match self.read_all_eeprom() {
            Ok(readback) => Ok(compare_readback(&readback, data)),
            Err(e) => Err(e),
        }
    }

    /// Verify firmware against both DAC and EEPROM banks.
    /// Returns (dac_mismatches, eeprom_mismatches).
    pub fn verify_all(&mut self, data: &[u8]) -> (r: Result<
        (Vec<(u8, u8, u8)>, Vec<(u8, u8, u8)>),
        String,
    >)
        ensures
            extends(old(self).bus_history(), final(self).bus_history()),
            ({
                let ops = added(old(self).bus_history(), final(self).bus_history());
                let regs = ek_scanned_registers();
                let n = regs.len() + 2;
                ||| scan_shape(ops, PMIC_ADDR, REG_CONTROL, CTRL_READ_DAC, T_RD_MTP_BLK_MS, regs) && !scan_ok(ops, regs)
                    && fails_with(r, ops.last())
                ||| {
                    &&& ops.len() >= n
                    &&& scan_shape(ops.take(n as int), PMIC_ADDR, REG_CONTROL, CTRL_READ_DAC, T_RD_MTP_BLK_MS, regs)
                    &&& scan_ok(ops.take(n as int), regs)
                    &&& scan_shape(ops.skip(n as int), PMIC_ADDR, REG_CONTROL, CTRL_READ_EEPROM, T_RD_MTP_BLK_MS, regs)
                    &&& (r is Ok <==> scan_ok(ops.skip(n as int), regs))
                    &&& !scan_ok(ops.skip(n as int), regs) ==> fails_with(r, ops.last())
                    &&& r matches Ok(m) ==> m.0@ == mismatches(
                        scan_values(ops.take(n as int), regs),
                        data@,
                    ) && m.1@ == mismatches(scan_values(ops.skip(n as int), regs), data@)
                }
            }),
    {
        let ghost h0 = self.bus.history();
        let dac_readback = match self.read_all_dac() {
            Ok(v) => v,
            Err(e) => {
                return Err(e);
            },
        };
        let dac_mismatches = compare_readback(&dac_readback, data);
        let ghost h1 = self.bus.history();
        let eeprom = self.read_all_eeprom();
        proof {
            lemma_extends_trans(h0, h1, self.bus.history());
            let ops = added(h0, self.bus.history());
            let n = ek_scanned_registers().len() + 2;
            assert(ops.take(n as int) =~= added(h0, h1));
            assert(ops.skip(n as int) =~= added(h1, self.bus.history()));
        }
        let eeprom_readback = match eeprom {
            Ok(v) => v,
            Err(e) => {
                return Err(e);
            },
        };
        let eeprom_mismatches = compare_readback(&eeprom_readback, data);
        Ok((dac_mismatches, eeprom_mismatches))
    }

    /// Write multiple DAC registers from (address, value) pairs.
    pub fn write_all_dac_registers(&mut self, registers: &[(u8, u8)]) -> (r: Result<usize, String>)
        ensures
            extends(old(self).bus_history(), final(self).bus_history()),
            register_writes(
                added(old(self).bus_history(), final(self).bus_history()),
                PMIC_ADDR,
                registers@,
                r,
            ),
    {
        write_registers(&mut self.bus, PMIC_ADDR, registers)
    }

    /// Probe for PMIC and VCOM slaves with address-only writes (like i2cdetect),
    /// after a bus recovery whose failure is ignored. Returns (pmic_detected,
    /// vcom_detected).
    pub fn probe(&mut self) -> (r: Result<(bool, bool), String>)
        ensures
            extends(old(self).bus_history(), final(self).bus_history()),
            ({
                let ops = added(old(self).bus_history(), final(self).bus_history());
                &&& ops.len() == 3
                &&& ops[0] is Recovery
                &&& is_write(ops[1], PMIC_ADDR, Seq::empty())
                &&& is_write(ops[2], VCOM_ADDR, Seq::empty())
                &&& r == Ok::<(bool, bool), String>((op_ok(ops[1]), op_ok(ops[2])))
            }),
    {
        let ghost h0 = self.bus.history();
        let _ = self.bus.bus_recovery();
        let empty: [u8; 0] = [];
        assert(empty@ =~= Seq::<u8>::empty());
        let pmic_ok = self.bus.write(PMIC_ADDR, &empty).is_ok();
        let vcom_ok = self.bus.write(VCOM_ADDR, &empty).is_ok();
        proof {
            let h = self.bus.history();
            assert(h.take(h0.len() as int) =~= h0);
            assert(added(h0, h) =~= seq![h[h.len() - 3], h[h.len() - 2], h[h.len() - 1]]);
        }
        Ok((pmic_ok, vcom_ok))
    }
}

} // verus!
