//! The FT232H bridge implementations: a development PMU simulator that
//! satisfies the shared bridge trait, and the FTDI MPSSE hardware bridge.

use vstd::prelude::*;

use crate::bridges::i2c::{err_text, BusOp, I2cBus};
use crate::pmu::chip::{
    default_map_seq, default_register_map, model_spec, spec_for_model, spec_well_formed,
    lemma_model_spec_well_formed, ChipModel, ChipSpec,
};
use crate::text::{hex2, with_hex2};

pub use crate::bridges::ft232h::mpsse::Ft232hI2cBus;



verus! {

/// A bank of byte registers addressed by a byte; a register holds a value only
/// once one has been stored in it.
pub struct RegisterBank {
    slots: Vec<Option<u8>>,
}

impl View for RegisterBank {
    type V = Map<u8, u8>;

    closed spec fn view(&self) -> Map<u8, u8> {
        Map::new(
            |k: u8| self.slots@[k as int] is Some,
            |k: u8| self.slots@[k as int]->Some_0,
        )
    }
}

impl RegisterBank {
    #[verifier::type_invariant]
    spec fn inv(self) -> bool {
        self.slots@.len() == 256
    }

    /// A bank with no register set.
    pub fn new() -> (b: Self)
        ensures
            b@ == Map::<u8, u8>::empty(),
    {
        let mut slots: Vec<Option<u8>> = Vec::new();
        let mut i: usize = 0;
        while i < 256
            invariant
                i <= 256,
                slots@.len() == i,
                forall|j: int| 0 <= j < i ==> slots@[j] is None,
            decreases 256 - i,
        {
            slots.push(None);
            i = i + 1;
        }
        let b = RegisterBank { slots };
        assert(b@ =~= Map::<u8, u8>::empty());
        b
    }

    /// The value of register `k`, if it holds one.
    pub fn get(&self, k: u8) -> (r: Option<u8>)
        ensures
            r == (if self@.contains_key(k) { Some(self@[k]) } else { None::<u8> }),
    {
        proof {
            use_type_invariant(self);
        }
        self.slots[k as usize]
    }

    /// Store `v` in register `k`.
    pub fn insert(&mut self, k: u8, v: u8)
        ensures
            final(self)@ == old(self)@.insert(k, v),
    {
        proof {
            use_type_invariant(&*self);
        }
        self.slots[k as usize] = Some(v);
        assert(final(self)@ =~= old(self)@.insert(k, v));
    }
}

/// The state of the simulated chip: the chip description, the PMIC DAC and
/// EEPROM banks, the VCOM slave registers, which PMIC bank reads come from, and
/// the slave addresses that acknowledge.
pub struct MockState {
    pub spec: ChipSpec,
    pub dac: Map<u8, u8>,
    pub eeprom: Map<u8, u8>,
    pub vcom: Map<u8, u8>,
    pub read_eeprom: bool,
    pub active: Seq<u8>,
}

/// The slaves that acknowledge on a chip: the PMIC, then the VCOM slave if any.
pub open spec fn active_slaves_of(spec: ChipSpec) -> Seq<u8> {
    match spec.vcom_addr {
        Some(v) => seq![spec.pmic_addr, v],
        None => seq![spec.pmic_addr],
    }
}

/// The map holding `pairs`, a later pair for an address replacing an earlier one.
pub open spec fn map_of_pairs(pairs: Seq<(u8, u8)>) -> Map<u8, u8>
    decreases pairs.len(),
{
    if pairs.len() == 0 {
        Map::empty()
    } else {
        map_of_pairs(pairs.drop_last()).insert(pairs.last().0, pairs.last().1)
    }
}

/// A register's value, or 0x00 if it holds none.
pub open spec fn value_or_zero(m: Map<u8, u8>, k: u8) -> u8 {
    if m.contains_key(k) {
        m[k]
    } else {
        0
    }
}

/// The state of a freshly created simulator for `model`: both PMIC banks hold
/// the defaults; the VCOM slave, if the chip has one, holds 0x00 in its control
/// and fault registers and the default of the PMIC VCOM register (or 0x00) in
/// its output register; reads come from the DAC bank.
pub open spec fn initial_state(model: ChipModel) -> MockState {
    let spec = model_spec(model);
    let defaults = map_of_pairs(default_map_seq(model));
    let v0 = Map::<u8, u8>::empty();
    let v1 = match spec.vcom_control_reg {
        Some(r) => v0.insert(r, 0),
        None => v0,
    };
    let v2 = match spec.vcom_output_reg {
        Some(r) => v1.insert(
            r,
            match spec.pmic_vcom_register {
                Some(p) => value_or_zero(defaults, p),
                None => 0,
            },
        ),
        None => v1,
    };
    let v3 = match spec.vcom_fault_reg {
        Some(r) => v2.insert(r, 0),
        None => v2,
    };
    MockState {
        spec,
        dac: defaults,
        eeprom: defaults,
        vcom: if spec.has_vcom_slave { v3 } else { v0 },
        read_eeprom: false,
        active: active_slaves_of(spec),
    }
}

/// A write of `v` to the PMIC control register: select the DAC or EEPROM bank
/// for reads, copy every DAC register but the control register to EEPROM, or
/// copy the PMIC VCOM register to EEPROM. Other codes change nothing.
pub open spec fn control_write(s: MockState, v: u8) -> MockState {
    if v == s.spec.ctrl_read_dac {
        MockState { read_eeprom: false, ..s }
    } else if v == s.spec.ctrl_read_eeprom {
        MockState { read_eeprom: true, ..s }
    } else if v == s.spec.ctrl_write_all_eeprom {
        MockState { eeprom: s.eeprom.union_prefer_right(s.dac.remove(s.spec.control_reg)), ..s }
    } else if v == s.spec.ctrl_write_vcom_eeprom {
        match s.spec.pmic_vcom_register {
            Some(r) => if s.dac.contains_key(r) {
                MockState { eeprom: s.eeprom.insert(r, s.dac[r]), ..s }
            } else {
                s
            },
            None => s,
        }
    } else {
        s
    }
}

/// Storing `v` at PMIC register `target`.
pub open spec fn pmic_write_byte(s: MockState, target: u8, v: u8) -> MockState {
    if target == s.spec.control_reg {
        control_write(s, v)
    } else {
        MockState { dac: s.dac.insert(target, v), ..s }
    }
}

/// Storing `bytes` at consecutive PMIC registers from `reg` on, wrapping at 0xFF.
#[verifier::opaque]
pub open spec fn pmic_write_bytes(s: MockState, reg: u8, bytes: Seq<u8>) -> MockState
    decreases bytes.len(),
{
    if bytes.len() == 0 {
        s
    } else {
        pmic_write_bytes(
            pmic_write_byte(s, reg, bytes[0]),
            ((reg as int + 1) % 256) as u8,
            bytes.drop_first(),
        )
    }
}

/// One step of a multi-byte PMIC write: the byte at position `i` of the
/// transaction lands at register `reg + i - 1`.
proof fn lemma_pmic_write_step(s: MockState, reg: u8, data: Seq<u8>, i: int)
    requires
        1 <= i < data.len(),
    ensures
        pmic_write_bytes(s, ((reg as int + i - 1) % 256) as u8, data.skip(i)) == pmic_write_bytes(
            pmic_write_byte(s, ((reg as int + i - 1) % 256) as u8, data[i]),
            ((reg as int + i) % 256) as u8,
            data.skip(i + 1),
        ),
{
    reveal(pmic_write_bytes);
    assert(data.skip(i).drop_first() =~= data.skip(i + 1));
    assert((((reg as int + i - 1) % 256) as u8 as int + 1) % 256 == (reg as int + i) % 256);
}

/// `v` has bit `b` set (`b` names a bit of a byte).
pub open spec fn bit_set(v: u8, b: u8) -> bool {
    b < 8 && v & (1u8 << b) != 0
}

/// A write of `v` to the VCOM control register: the value is stored; the load
/// bit copies the PMIC VCOM register from EEPROM to the VCOM output register;
/// then the write bit copies the VCOM output register to the PMIC EEPROM.
pub open spec fn vcom_control_write(s: MockState, v: u8) -> MockState {
    match s.spec.vcom_control_reg {
        None => s,
        Some(creg) => {
            let s1 = MockState { vcom: s.vcom.insert(creg, v), ..s };
            let s2 = match (s.spec.vcom_load_bit, s.spec.vcom_output_reg, s.spec.pmic_vcom_register) {
                (Some(lb), Some(o), Some(p)) => if bit_set(v, lb) && s1.eeprom.contains_key(p) {
                    MockState { vcom: s1.vcom.insert(o, s1.eeprom[p]), ..s1 }
                } else {
                    s1
                },
                _ => s1,
            };
            match (s.spec.vcom_write_bit, s.spec.vcom_output_reg, s.spec.pmic_vcom_register) {
                (Some(wb), Some(o), Some(p)) => if bit_set(v, wb) && s2.vcom.contains_key(o) {
                    MockState { eeprom: s2.eeprom.insert(p, s2.vcom[o]), ..s2 }
                } else {
                    s2
                },
                _ => s2,
            }
        },
    }
}

/// The state after a write transaction, and whether it is acknowledged.
pub open spec fn mock_write(s: MockState, addr: u8, data: Seq<u8>) -> (MockState, bool) {
    if !s.active.contains(addr) {
        (s, false)
    } else if data.len() == 0 {
        (s, true)
    } else if addr == s.spec.pmic_addr {
        if data.len() == 1 {
            (s, true)
        } else {
            (pmic_write_bytes(s, data[0], data.drop_first()), true)
        }
    } else if s.spec.vcom_addr == Some(addr) {
        if data.len() >= 2 {
            if s.spec.vcom_control_reg == Some(data[0]) {
                (vcom_control_write(s, data[1]), true)
            } else {
                (MockState { vcom: s.vcom.insert(data[0], data[1]), ..s }, true)
            }
        } else {
            (s, true)
        }
    } else {
        (s, false)
    }
}

/// The bytes of `bank` from register `reg` on, `len` of them, wrapping at 0xFF;
/// a register holding no value reads 0x00.
pub open spec fn bank_bytes(bank: Map<u8, u8>, reg: u8, len: nat) -> Seq<u8> {
    Seq::new(len, |i: int| value_or_zero(bank, ((reg as int + i) % 256) as u8))
}

/// The buffer after a read into `buf` (zeros when the slave acknowledges).
pub open spec fn mock_read_reply(s: MockState, addr: u8, buf: Seq<u8>) -> Seq<u8> {
    if s.active.contains(addr) {
        Seq::new(buf.len(), |i: int| 0u8)
    } else {
        buf
    }
}

/// Whether a write-read transaction is acknowledged.
pub open spec fn mock_write_read_ok(s: MockState, addr: u8, data: Seq<u8>) -> bool {
    s.active.contains(addr) && (data.len() == 0 || addr == s.spec.pmic_addr || s.spec.vcom_addr
        == Some(addr))
}

/// The buffer after a write-read: the first written byte selects the register
/// to read from; PMIC reads come from the selected bank.
pub open spec fn mock_write_read_reply(s: MockState, addr: u8, data: Seq<u8>, buf: Seq<u8>) -> Seq<
    u8,
> {
    if !s.active.contains(addr) {
        buf
    } else if data.len() == 0 {
        mock_read_reply(s, addr, buf)
    } else if addr == s.spec.pmic_addr {
        bank_bytes(if s.read_eeprom { s.eeprom } else { s.dac }, data[0], buf.len())
    } else if s.spec.vcom_addr == Some(addr) {
        bank_bytes(s.vcom, data[0], buf.len())
    } else {
        buf
    }
}

/// A simulated PMU bridge: answers for the PMIC slave and, if the chip has one,
/// the VCOM slave, keeping DAC and EEPROM banks as the chip does.
pub struct MockI2cBus {
    chip: ChipSpec,
    pmic_dac: RegisterBank,
    pmic_eeprom: RegisterBank,
    vcom_regs: RegisterBank,
    read_eeprom: bool,
    active_slaves: Vec<u8>,
    log: Ghost<Seq<BusOp>>,
}

impl View for MockI2cBus {
    type V = MockState;

    closed spec fn view(&self) -> MockState {
        MockState {
            spec: self.chip,
            dac: self.pmic_dac@,
            eeprom: self.pmic_eeprom@,
            vcom: self.vcom_regs@,
            read_eeprom: self.read_eeprom,
            active: self.active_slaves@,
        }
    }
}

/// Consequences of the simulator's invariant.
pub open spec fn mock_state_ok(s: MockState) -> bool {
    &&& spec_well_formed(s.spec)
    &&& s.active == active_slaves_of(s.spec)
}

impl MockI2cBus {
    /// The transactions carried so far.
    pub closed spec fn transactions(&self) -> Seq<BusOp> {
        self.log@
    }

    fn bank_from_pairs(pairs: &Vec<(u8, u8)>) -> (b: RegisterBank)
        ensures
            b@ == map_of_pairs(pairs@),
    {
        let mut b = RegisterBank::new();
        let mut i: usize = 0;
        while i < pairs.len()
            invariant
                i <= pairs@.len(),
                b@ == map_of_pairs(pairs@.take(i as int)),
            decreases pairs@.len() - i,
        {
            let (a, v) = pairs[i];
            b.insert(a, v);
            i = i + 1;
            assert(pairs@.take(i as int).drop_last() =~= pairs@.take(i - 1));
        }
        assert(pairs@.take(i as int) =~= pairs@);
        b
    }

    /// A simulator for `model` in its power-on state.
    pub fn new(chip_model: ChipModel) -> (bus: Self)
        ensures
            bus@ == initial_state(chip_model),
            mock_state_ok(bus@),
            bus.history() == Seq::<BusOp>::empty(),
    {
        proof {
            lemma_model_spec_well_formed(chip_model);
        }
        let spec = spec_for_model(chip_model);
        let defaults = default_register_map(chip_model);
        let pmic_dac = Self::bank_from_pairs(&defaults);
        let pmic_eeprom = Self::bank_from_pairs(&defaults);
        let mut vcom_regs = RegisterBank::new();
        let ghost defaults_map = map_of_pairs(defaults@);
        if spec.has_vcom_slave {
            if let Some(control_reg) = spec.vcom_control_reg {
                vcom_regs.insert(control_reg, 0x00);
            }
            if let Some(output_reg) = spec.vcom_output_reg {
                let default_vcom = match spec.pmic_vcom_register {
                    Some(reg) => match pmic_dac.get(reg) {
                        Some(v) => v,
                        None => 0x00,
                    },
                    None => 0x00,
                };
                vcom_regs.insert(output_reg, default_vcom);
            }
            if let Some(fault_reg) = spec.vcom_fault_reg {
                vcom_regs.insert(fault_reg, 0x00);
            }
        }
        let mut active_slaves: Vec<u8> = Vec::new();
        active_slaves.push(spec.pmic_addr);
        if let Some(vcom_addr) = spec.vcom_addr {
            active_slaves.push(vcom_addr);
        }
        assert(active_slaves@ =~= active_slaves_of(spec));
        let bus = MockI2cBus {
            chip: spec,
            pmic_dac,
            pmic_eeprom,
            vcom_regs,
            read_eeprom: false,
            active_slaves,
            log: Ghost(Seq::empty()),
        };
        assert(bus@.vcom =~= initial_state(chip_model).vcom);
        bus
    }

    /// Set VCOM slave register `reg` to `value` without a transaction.
    pub(crate) fn preset_vcom(&mut self, reg: u8, value: u8)
        ensures
            final(self)@ == (MockState { vcom: old(self)@.vcom.insert(reg, value), ..old(self)@ }),
            final(self).history() == old(self).history(),
    {
        self.vcom_regs.insert(reg, value);
    }

    /// Whether the slave at `addr` acknowledges.
    pub fn is_slave_active(&self, addr: u8) -> (r: bool)
        ensures
            r == self@.active.contains(addr),
    {
        let mut i: usize = 0;
        while i < self.active_slaves.len()
            invariant
                i <= self.active_slaves@.len(),
                forall|j: int| 0 <= j < i ==> self.active_slaves@[j] != addr,
            decreases self.active_slaves@.len() - i,
        {
            if self.active_slaves[i] == addr {
                assert(self.active_slaves@[i as int] == addr);
                return true;
            }
            i = i + 1;
        }
        false
    }
}

/// EEPROM `e` after copying the DAC registers of `d` below `n`, except `c`.
spec fn partial_burn(e: Map<u8, u8>, d: Map<u8, u8>, c: u8, n: int) -> Map<u8, u8> {
    Map::new(
        |a: u8| e.contains_key(a) || (a < n && a != c && d.contains_key(a)),
        |a: u8| if a < n && a != c && d.contains_key(a) { d[a] } else { e[a] },
    )
}

impl MockI2cBus {
    /// Handle a PMIC control register write.
    pub(crate) fn handle_control_write(&mut self, value: u8)
        ensures
            final(self)@ == control_write(old(self)@, value),
            final(self).history() == old(self).history(),
    {
        if value == self.chip.ctrl_read_dac {
            self.read_eeprom = false;
        } else if value == self.chip.ctrl_read_eeprom {
            self.read_eeprom = true;
        } else if value == self.chip.ctrl_write_all_eeprom {
            let ghost e0 = self.pmic_eeprom@;
            let control = self.chip.control_reg;
            let mut k: u16 = 0;
            assert(e0 =~= partial_burn(e0, self.pmic_dac@, control, 0));
            while k < 256
                invariant
                    k <= 256,
                    self.pmic_eeprom@ == partial_burn(e0, self.pmic_dac@, control, k as int),
                    e0 == old(self).pmic_eeprom@,
                    self.chip == old(self).chip,
                    self.log == old(self).log,
                    self.read_eeprom == old(self).read_eeprom,
                    self.pmic_dac@ == old(self).pmic_dac@,
                    self.vcom_regs@ == old(self).vcom_regs@,
                    self.active_slaves@ == old(self).active_slaves@,
                    control == self.chip.control_reg,
                decreases 256 - k,
            {
                let a = k as u8;
                if a != control {
                    if let Some(x) = self.pmic_dac.get(a) {
                        self.pmic_eeprom.insert(a, x);
                    }
                }
                k = k + 1;
                assert(self.pmic_eeprom@ =~= partial_burn(e0, self.pmic_dac@, control, k as int));
            }
            assert(self.pmic_eeprom@ =~= e0.union_prefer_right(self.pmic_dac@.remove(control)));
        } else if value == self.chip.ctrl_write_vcom_eeprom {
            if let Some(vcom_reg) = self.chip.pmic_vcom_register {
                if let Some(reg_value) = self.pmic_dac.get(vcom_reg) {
                    self.pmic_eeprom.insert(vcom_reg, reg_value);
                }
            }
        }
        assert(self@ =~= control_write(old(self)@, value));
    }

    /// Handle a VCOM control register write.
    fn handle_vcom_control_write(&mut self, value: u8)
        ensures
            final(self)@ == vcom_control_write(old(self)@, value),
            final(self).log == old(self).log,
    {
        let control_reg = match self.chip.vcom_control_reg {
            Some(r) => r,
            None => {
                return;
            },
        };
        self.vcom_regs.insert(control_reg, value);
        let ghost s1 = self@;
        if let (Some(load_bit), Some(output_reg), Some(pmic_reg)) = (
            self.chip.vcom_load_bit,
            self.chip.vcom_output_reg,
            self.chip.pmic_vcom_register,
        ) {
            if load_bit < 8 && value & (1u8 << load_bit) != 0 {
                if let Some(eeprom_value) = self.pmic_eeprom.get(pmic_reg) {
                    self.vcom_regs.insert(output_reg, eeprom_value);
                }
            }
        }
        let ghost s2 = self@;
        if let (Some(write_bit), Some(output_reg), Some(pmic_reg)) = (
            self.chip.vcom_write_bit,
            self.chip.vcom_output_reg,
            self.chip.pmic_vcom_register,
        ) {
            if write_bit < 8 && value & (1u8 << write_bit) != 0 {
                if let Some(output_value) = self.vcom_regs.get(output_reg) {
                    self.pmic_eeprom.insert(pmic_reg, output_value);
                }
            }
        }
        assert(self@ =~= vcom_control_write(old(self)@, value));
    }

    /// Store `val` at PMIC register `target` (the control register runs a command).
    fn pmic_store(&mut self, target: u8, val: u8)
        ensures
            final(self)@ == pmic_write_byte(old(self)@, target, val),
            final(self).log == old(self).log,
            final(self).chip == old(self).chip,
            final(self).active_slaves@ == old(self).active_slaves@,
    {
        if target == self.chip.control_reg {
            self.handle_control_write(val);
        } else {
            self.pmic_dac.insert(target, val);
        }
    }

    /// The effect of a write transaction on the simulated chip.
    fn apply_write(&mut self, addr: u8, data: &[u8]) -> (r: Result<(), String>)
        ensures
            final(self)@ == mock_write(old(self)@, addr, data@).0,
            (r is Ok) == mock_write(old(self)@, addr, data@).1,
            r matches Err(e) ==> e@ == (if old(self)@.active.contains(addr) {
                "Unknown slave address 0x"@
            } else {
                "No ACK from slave 0x"@
            }) + hex2(addr),
            final(self).log == old(self).log,
    {
        if !self.is_slave_active(addr) {
            return Err(with_hex2("No ACK from slave 0x", addr));
        }
        if data.len() == 0 {
            return Ok(());
        }
        let reg_addr = data[0];
        if addr == self.chip.pmic_addr {
            if data.len() == 1 {
                return Ok(());
            }
            let ghost goal = pmic_write_bytes(self@, reg_addr, data@.drop_first());
            assert(data@.drop_first() =~= data@.skip(1));
            let mut i: usize = 1;
            while i < data.len()
                invariant
                    1 <= i <= data@.len(),
                    self.chip == old(self).chip,
                    self.active_slaves@ == old(self).active_slaves@,
                    self.log == old(self).log,
                    pmic_write_bytes(
                        self@,
                        ((reg_addr as int + i - 1) % 256) as u8,
                        data@.skip(i as int),
                    ) == goal,
                decreases data@.len() - i,
            {
                let offset = i - 1;
                let target_reg = reg_addr.wrapping_add((offset % 256) as u8);
                assert(target_reg == ((reg_addr as int + i - 1) % 256) as u8);
                let val = data[i];
                proof {
                    lemma_pmic_write_step(self@, reg_addr, data@, i as int);
                }
                self.pmic_store(target_reg, val);
                i = i + 1;
            }
            assert(data@.skip(i as int) =~= Seq::<u8>::empty());
            reveal(pmic_write_bytes);
            return Ok(());
        }
        if self.chip.vcom_addr == Some(addr) {
            if data.len() >= 2 {
                let value = data[1];
                if self.chip.vcom_control_reg == Some(reg_addr) {
                    self.handle_vcom_control_write(value);
                } else {
                    self.vcom_regs.insert(reg_addr, value);
                }
            }
            return Ok(());
        }
        Err(with_hex2("Unknown slave address 0x", addr))
    }

    /// Fill `read_buf` from `bank`, starting at register `reg`.
    fn fill_from_bank(bank: &RegisterBank, reg: u8, read_buf: &mut [u8])
        ensures
            final(read_buf)@ == bank_bytes(bank@, reg, old(read_buf)@.len()),
    {
        let n = read_buf.len();
        let mut i: usize = 0;
        while i < n
            invariant
                i <= n,
                n == read_buf@.len(),
                n == old(read_buf)@.len(),
                forall|j: int| 0 <= j < i ==> read_buf@[j] == bank_bytes(bank@, reg, n as nat)[j],
            decreases n - i,
        {
            let target_reg = reg.wrapping_add((i % 256) as u8);
            assert(target_reg == ((reg as int + i) % 256) as u8);
            read_buf[i] = match bank.get(target_reg) {
                Some(v) => v,
                None => 0x00,
            };
            i = i + 1;
        }
        assert(read_buf@ =~= bank_bytes(bank@, reg, n as nat));
    }

    /// Fill `buf` with zeros.
    fn fill_zeros(buf: &mut [u8])
        ensures
            final(buf)@ == Seq::new(old(buf)@.len(), |i: int| 0u8),
    {
        let n = buf.len();
        let mut i: usize = 0;
        while i < n
            invariant
                i <= n,
                n == buf@.len(),
                forall|j: int| 0 <= j < i ==> buf@[j] == 0u8,
            decreases n - i,
        {
            buf[i] = 0x00;
            i = i + 1;
        }
        assert(buf@ =~= Seq::new(n as nat, |i: int| 0u8));
    }
}

impl I2cBus for MockI2cBus {
    closed spec fn history(&self) -> Seq<BusOp> {
        self.log@
    }

    fn write(&mut self, addr: u8, data: &[u8]) -> (r: Result<(), String>)
        ensures
            final(self)@ == mock_write(old(self)@, addr, data@).0,
            (r is Ok) == mock_write(old(self)@, addr, data@).1,
            r matches Err(e) ==> e@ == (if old(self)@.active.contains(addr) {
                "Unknown slave address 0x"@
            } else {
                "No ACK from slave 0x"@
            }) + hex2(addr),
    {
        let r = self.apply_write(addr, data);
        self.log = Ghost(self.log@.push(BusOp::Write { addr, data: data@, ok: r is Ok, err: err_text(r) }));
        r
    }

    fn read(&mut self, addr: u8, buf: &mut [u8]) -> (r: Result<(), String>)
        ensures
            final(self)@ == old(self)@,
            (r is Ok) == old(self)@.active.contains(addr),
            final(buf)@ == mock_read_reply(old(self)@, addr, old(buf)@),
            r matches Err(e) ==> e@ == "No ACK from slave 0x"@ + hex2(addr),
    {
        if !self.is_slave_active(addr) {
            let r: Result<(), String> = Err(with_hex2("No ACK from slave 0x", addr));
            self.log = Ghost(self.log@.push(BusOp::Read { addr, reply: buf@, ok: false, err: err_text(r) }));
            return r;
        }
        Self::fill_zeros(buf);
        self.log = Ghost(self.log@.push(BusOp::Read { addr, reply: buf@, ok: true, err: Seq::empty() }));
        Ok(())
    }

    fn write_read(&mut self, addr: u8, write_data: &[u8], read_buf: &mut [u8]) -> (r: Result<
        (),
        String,
    >)
        ensures
            final(self)@ == old(self)@,
            (r is Ok) == mock_write_read_ok(old(self)@, addr, write_data@),
            final(read_buf)@ == mock_write_read_reply(old(self)@, addr, write_data@, old(read_buf)@),
            r matches Err(e) ==> e@ == (if old(self)@.active.contains(addr) {
                "Unknown slave address 0x"@
            } else {
                "No ACK from slave 0x"@
            }) + hex2(addr),
    {
        let r = if !self.is_slave_active(addr) {
            Err(with_hex2("No ACK from slave 0x", addr))
        } else if write_data.len() == 0 {
            Self::fill_zeros(read_buf);
            Ok(())
        } else if addr == self.chip.pmic_addr {
            let reg_addr = write_data[0];
            if self.read_eeprom {
                Self::fill_from_bank(&self.pmic_eeprom, reg_addr, read_buf);
            } else {
                Self::fill_from_bank(&self.pmic_dac, reg_addr, read_buf);
            }
            Ok(())
        } else if self.chip.vcom_addr == Some(addr) {
            let reg_addr = write_data[0];
            Self::fill_from_bank(&self.vcom_regs, reg_addr, read_buf);
            Ok(())
        } else {
            Err(with_hex2("Unknown slave address 0x", addr))
        };
        self.log = Ghost(
            self.log@.push(
                BusOp::WriteRead {
                    addr,
                    data: write_data@,
                    reply: read_buf@,
                    ok: r is Ok,
                    err: err_text(r),
                },
            ),
        );
        r
    }

    /// The simulated bus never needs recovery: it always succeeds and changes
    /// no register.
    fn bus_recovery(&mut self) -> (r: Result<(), String>)
        ensures
            final(self)@ == old(self)@,
            r is Ok,
    {
        self.log = Ghost(self.log@.push(BusOp::Recovery { ok: true, err: Seq::empty() }));
        Ok(())
    }

    /// The simulated chip needs no time: the wait is recorded, nothing else
    /// changes.
    fn delay_ms(&mut self, ms: u64)
        ensures
            final(self)@ == old(self)@,
    {
        self.log = Ghost(self.log@.push(BusOp::Delay { ms }));
    }
}

/// The simulator state after a PMIC write of `data`.
pub open spec fn after_pmic_write(s: MockState, data: Seq<u8>) -> MockState {
    mock_write(s, s.spec.pmic_addr, data).0
}

/// The byte a one-register PMIC read of `reg` returns in state `s`.
pub open spec fn pmic_read(s: MockState, reg: u8) -> u8 {
    mock_write_read_reply(s, s.spec.pmic_addr, seq![reg], seq![0u8])[0]
}

proof fn lemma_single_pmic_write(s: MockState, reg: u8, v: u8)
    ensures
        pmic_write_bytes(s, reg, seq![v]) == pmic_write_byte(s, reg, v),
{
    reveal(pmic_write_bytes);
    assert(seq![v].drop_first() =~= Seq::<u8>::empty());
    reveal_with_fuel(pmic_write_bytes, 2);
}

/// Reading back a DAC register gives what was last written to it: a write of
/// `v` to register `reg` (not the control register), then selecting the DAC
/// bank, then a read of `reg`, gives `v`; each transaction is acknowledged.
pub proof fn lemma_dac_write_then_read(s: MockState, reg: u8, v: u8)
    requires
        mock_state_ok(s),
        reg != s.spec.control_reg,
    ensures
        mock_write(s, s.spec.pmic_addr, seq![reg, v]).1,
        mock_write(
            after_pmic_write(s, seq![reg, v]),
            s.spec.pmic_addr,
            seq![s.spec.control_reg, s.spec.ctrl_read_dac],
        ).1,
        mock_write_read_ok(
            after_pmic_write(after_pmic_write(s, seq![reg, v]), seq![s.spec.control_reg, s.spec.ctrl_read_dac]),
            s.spec.pmic_addr,
            seq![reg],
        ),
        pmic_read(
            after_pmic_write(after_pmic_write(s, seq![reg, v]), seq![s.spec.control_reg, s.spec.ctrl_read_dac]),
            reg,
        ) == v,
{
    assert(s.active[0] == s.spec.pmic_addr);
    assert(seq![reg, v].drop_first() =~= seq![v]);
    lemma_single_pmic_write(s, reg, v);
    let s1 = after_pmic_write(s, seq![reg, v]);
    let c = s.spec.control_reg;
    assert(seq![c, s.spec.ctrl_read_dac].drop_first() =~= seq![s.spec.ctrl_read_dac]);
    lemma_single_pmic_write(s1, c, s.spec.ctrl_read_dac);
    assert(s1.active[0] == s.spec.pmic_addr);
}

/// Burning the DAC into the EEPROM copies every DAC register but the control
/// register: after the burn command and selecting the EEPROM bank, a read of
/// any such register gives its DAC value.
pub proof fn lemma_burn_then_eeprom_read(s: MockState, reg: u8)
    requires
        mock_state_ok(s),
        reg != s.spec.control_reg,
        s.dac.contains_key(reg),
    ensures
        ({
            let c = s.spec.control_reg;
            let s1 = after_pmic_write(s, seq![c, s.spec.ctrl_write_all_eeprom]);
            let s2 = after_pmic_write(s1, seq![c, s.spec.ctrl_read_eeprom]);
            &&& mock_write_read_ok(s2, s.spec.pmic_addr, seq![reg])
            &&& pmic_read(s2, reg) == s.dac[reg]
        }),
{
    let c = s.spec.control_reg;
    assert(s.active[0] == s.spec.pmic_addr);
    assert(seq![c, s.spec.ctrl_write_all_eeprom].drop_first() =~= seq![s.spec.ctrl_write_all_eeprom]);
    lemma_single_pmic_write(s, c, s.spec.ctrl_write_all_eeprom);
    let s1 = after_pmic_write(s, seq![c, s.spec.ctrl_write_all_eeprom]);
    assert(seq![c, s.spec.ctrl_read_eeprom].drop_first() =~= seq![s.spec.ctrl_read_eeprom]);
    lemma_single_pmic_write(s1, c, s.spec.ctrl_read_eeprom);
    assert(s1.active[0] == s.spec.pmic_addr);
}

/// The VCOM slave's write bit stores the VCOM output register in the PMIC
/// EEPROM: after writing `v` to the output register and then the write bit
/// to the VCOM control register, the EEPROM's VCOM register holds `v`.
pub proof fn lemma_vcom_write_to_eeprom(s: MockState, v: u8)
    requires
        mock_state_ok(s),
        s.spec.vcom_addr is Some,
        s.spec.vcom_control_reg is Some,
        s.spec.vcom_output_reg is Some,
        s.spec.vcom_write_bit is Some,
        s.spec.pmic_vcom_register is Some,
    ensures
        ({
            let a = s.spec.vcom_addr->0;
            let w = 1u8 << s.spec.vcom_write_bit->0;
            let s1 = mock_write(s, a, seq![s.spec.vcom_output_reg->0, v]).0;
            let s2 = mock_write(s1, a, seq![s.spec.vcom_control_reg->0, w]).0;
            &&& mock_write(s, a, seq![s.spec.vcom_output_reg->0, v]).1
            &&& mock_write(s1, a, seq![s.spec.vcom_control_reg->0, w]).1
            &&& s2.eeprom.contains_key(s.spec.pmic_vcom_register->0)
            &&& s2.eeprom[s.spec.pmic_vcom_register->0] == v
        }),
{
    let a = s.spec.vcom_addr->0;
    assert(s.active[1] == a);
    let wb = s.spec.vcom_write_bit->0;
    let lb = s.spec.vcom_load_bit->0;
    assert(s.spec == model_spec(s.spec.model));
    assert(wb == 3 && lb == 4);
    assert(((1u8 << 3u8) & (1u8 << 3u8)) != 0 && ((1u8 << 3u8) & (1u8 << 4u8)) == 0) by (bit_vector);
}

/// The VCOM slave's load bit reloads the VCOM output register from the PMIC
/// EEPROM: after the load bit is written to the VCOM control register, the
/// output register holds the EEPROM's VCOM register.
pub proof fn lemma_vcom_load_from_eeprom(s: MockState)
    requires
        mock_state_ok(s),
        s.spec.vcom_addr is Some,
        s.spec.vcom_control_reg is Some,
        s.spec.vcom_output_reg is Some,
        s.spec.vcom_load_bit is Some,
        s.spec.pmic_vcom_register is Some,
        s.eeprom.contains_key(s.spec.pmic_vcom_register->0),
    ensures
        ({
            let a = s.spec.vcom_addr->0;
            let l = 1u8 << s.spec.vcom_load_bit->0;
            let s1 = mock_write(s, a, seq![s.spec.vcom_control_reg->0, l]).0;
            &&& mock_write(s, a, seq![s.spec.vcom_control_reg->0, l]).1
            &&& s1.vcom.contains_key(s.spec.vcom_output_reg->0)
            &&& s1.vcom[s.spec.vcom_output_reg->0] == s.eeprom[s.spec.pmic_vcom_register->0]
        }),
{
    let a = s.spec.vcom_addr->0;
    assert(s.active[1] == a);
    assert(s.spec == model_spec(s.spec.model));
    assert(((1u8 << 4u8) & (1u8 << 4u8)) != 0 && ((1u8 << 4u8) & (1u8 << 3u8)) == 0) by (bit_vector);
}

} // verus!
