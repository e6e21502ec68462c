//! Chip models and the per-chip protocol description.

use vstd::prelude::*;

use crate::ek86317a::registers as ek_registers;
use crate::pmu::{ek86317a, lp6281};

verus! {

/// A supported PMIC model.
#[derive(Debug, Clone, Copy, PartialEq, Eq, Hash, Structural)]
pub enum ChipModel {
    Ek86317a,
    Lp6281,
}

impl ChipModel {
    /// Display name of the model.
    pub open spec fn display_name_of(self) -> &'static str {
        match self {
            ChipModel::Ek86317a => "EK86317A",
            ChipModel::Lp6281 => "LP6281",
        }
    }

    /// Prefix of the model's keys in persistent storage.
    pub open spec fn storage_prefix_of(self) -> &'static str {
        match self {
            ChipModel::Ek86317a => "ek86317a",
            ChipModel::Lp6281 => "lp6281",
        }
    }

    pub fn display_name(self) -> (r: &'static str)
        ensures
            r == self.display_name_of(),
    {
        match self {
            ChipModel::Ek86317a => "EK86317A",
            ChipModel::Lp6281 => "LP6281",
        }
    }

    pub fn storage_prefix(self) -> (r: &'static str)
        ensures
            r == self.storage_prefix_of(),
    {
        match self {
            ChipModel::Ek86317a => "ek86317a",
            ChipModel::Lp6281 => "lp6281",
        }
    }
}

/// How to talk to one chip model: slave addresses, the control register and its
/// command codes, timing, and the optional VCOM slave layout.
#[derive(Debug, Clone, Copy)]
pub struct ChipSpec {
    pub model: ChipModel,
    pub display_name: &'static str,
    pub pmic_addr: u8,
    pub vcom_addr: Option<u8>,
    pub control_reg: u8,
    pub ctrl_write_all_eeprom: u8,
    pub ctrl_write_vcom_eeprom: u8,
    pub ctrl_read_eeprom: u8,
    pub ctrl_read_dac: u8,
    pub read_delay_ms: u64,
    pub write_delay_ms: u64,
    pub has_vcom_slave: bool,
    pub supports_fault_flags: bool,
    pub supports_vcom2dac: bool,
    pub supports_mnt_mode: bool,
    pub avdd_reg: u8,
    pub vcom_min_reg: Option<u8>,
    pub vcom_max_reg: Option<u8>,
    pub mode_reg: Option<u8>,
    pub vcom_control_reg: Option<u8>,
    pub vcom_output_reg: Option<u8>,
    pub vcom_fault_reg: Option<u8>,
    pub vcom_enable_bit: Option<u8>,
    pub vcom_load_bit: Option<u8>,
    pub vcom_write_bit: Option<u8>,
    pub pmic_vcom_register: Option<u8>,
}

/// Fault flags decoded for any chip model.
#[derive(Debug, Clone)]
pub struct FaultFlags {
    pub raw: u8,
    pub otp: bool,
    pub vbk1: bool,
    pub avdd: bool,
    pub vgh: bool,
    pub vgl: bool,
    pub vss1: bool,
    pub havdd: bool,
}

/// The description of `model`.
pub open spec fn model_spec(model: ChipModel) -> ChipSpec {
    match model {
        ChipModel::Ek86317a => ek86317a::ek86317a_spec(),
        ChipModel::Lp6281 => lp6281::lp6281_spec(),
    }
}

/// A description is usable by the drivers: the VCOM bit positions fit in a byte
/// and the described model is the one the description is for.
pub open spec fn spec_well_formed(spec: ChipSpec) -> bool {
    &&& spec == model_spec(spec.model)
    &&& spec.vcom_load_bit matches Some(b) ==> b < 8
    &&& spec.vcom_write_bit matches Some(b) ==> b < 8
    &&& spec.vcom_enable_bit matches Some(b) ==> b < 8
    &&& spec.vcom_addr != Some(spec.pmic_addr)
}

/// Every model's description is well formed and names that model.
pub proof fn lemma_model_spec_well_formed(model: ChipModel)
    ensures
        spec_well_formed(model_spec(model)),
        model_spec(model).model == model,
        model_spec(model).display_name == model.display_name_of(),
{
}

/// Each model selects its EEPROM bank and its DAC bank with its register
/// map's own codes, and the two codes differ, so an EEPROM read never reads
/// the DAC; the burn commands are distinct from both and from each other.
pub proof fn lemma_bank_select_codes(model: ChipModel)
    ensures
        model_spec(model).ctrl_read_eeprom != model_spec(model).ctrl_read_dac,
        model_spec(model).ctrl_write_all_eeprom != model_spec(model).ctrl_read_eeprom,
        model_spec(model).ctrl_write_all_eeprom != model_spec(model).ctrl_read_dac,
        model_spec(model).ctrl_write_vcom_eeprom != model_spec(model).ctrl_read_eeprom,
        model_spec(model).ctrl_write_vcom_eeprom != model_spec(model).ctrl_read_dac,
        model_spec(model).ctrl_write_vcom_eeprom != model_spec(model).ctrl_write_all_eeprom,
        model == ChipModel::Ek86317a ==> model_spec(model).ctrl_read_eeprom
            == ek_registers::CTRL_READ_EEPROM && model_spec(model).ctrl_read_dac
            == ek_registers::CTRL_READ_DAC,
        model == ChipModel::Lp6281 ==> model_spec(model).ctrl_read_eeprom
            == lp6281::registers::CTRL_READ_EEPROM && model_spec(model).ctrl_read_dac
            == lp6281::registers::CTRL_READ_DAC,
{
}

/// The EK86317A description agrees with the EK86317A driver: the same slave
/// addresses, control register and command codes, the same bank-read and
/// EEPROM-write times, and VCOM control bits at the positions of the masks the
/// driver sets (enable 0x02, write to EEPROM 0x08, load from EEPROM 0x10).
pub proof fn lemma_ek86317a_description_matches_driver()
    ensures
        ({
            let sp = model_spec(ChipModel::Ek86317a);
            &&& sp.pmic_addr == crate::pmu::ek86317a::protocol::PMIC_ADDR
            &&& sp.vcom_addr == Some(crate::pmu::ek86317a::protocol::VCOM_ADDR)
            &&& sp.control_reg == ek_registers::REG_CONTROL
            &&& sp.ctrl_write_all_eeprom == ek_registers::CTRL_WRITE_ALL_EEPROM
            &&& sp.ctrl_write_vcom_eeprom == ek_registers::CTRL_WRITE_VCOM1_EEPROM
            &&& sp.read_delay_ms == crate::pmu::ek86317a::protocol::T_RD_MTP_BLK_MS
            &&& sp.write_delay_ms == crate::pmu::ek86317a::protocol::T_WR_MTP_BLK_MS
            &&& sp.pmic_vcom_register == Some(ek_registers::REG_VCOM1_NT)
            &&& sp.vcom_min_reg == Some(ek_registers::REG_VCOM_MIN)
            &&& sp.vcom_max_reg == Some(ek_registers::REG_VCOM_MAX)
            &&& sp.avdd_reg == ek_registers::REG_AVDD
            &&& sp.vcom_enable_bit matches Some(b) && (1u8 << b) == 0x02u8
            &&& sp.vcom_write_bit matches Some(b) && (1u8 << b) == 0x08u8
            &&& sp.vcom_load_bit matches Some(b) && (1u8 << b) == 0x10u8
        }),
{
    assert((1u8 << 1u8) == 0x02u8) by (bit_vector);
    assert((1u8 << 3u8) == 0x08u8) by (bit_vector);
    assert((1u8 << 4u8) == 0x10u8) by (bit_vector);
}

/// The LP6281 description agrees with its register map: the control
/// register and command codes, the VCOM output and range registers and the
/// AVDD register, and it has no VCOM slave.
pub proof fn lemma_lp6281_description_matches_registers()
    ensures
        ({
            let sp = model_spec(ChipModel::Lp6281);
            &&& sp.control_reg == lp6281::registers::REG_CONTROL
            &&& sp.ctrl_write_all_eeprom == lp6281::registers::CTRL_WRITE_ALL_EEPROM
            &&& sp.ctrl_write_vcom_eeprom == lp6281::registers::CTRL_WRITE_VCOM1_EEPROM
            &&& sp.pmic_vcom_register == Some(lp6281::registers::REG_VCOM_NT)
            &&& sp.vcom_min_reg == Some(lp6281::registers::REG_VCOM_MIN)
            &&& sp.vcom_max_reg == Some(lp6281::registers::REG_VCOM_MAX)
            &&& sp.avdd_reg == lp6281::registers::REG_AVDD
            &&& sp.vcom_addr is None
            &&& !sp.has_vcom_slave
        }),
{
}

/// The registers of a chip's VCOM slave are three different registers: the
/// fault flags are read from the fault register, never from the control or
/// the output register. On the EK86317A it is the VCOM slave's fault register
/// of the register map.
pub proof fn lemma_vcom_slave_registers(model: ChipModel)
    ensures
        model_spec(model).vcom_fault_reg matches Some(f) ==> model_spec(model).vcom_control_reg
            != Some(f) && model_spec(model).vcom_output_reg != Some(f),
        model_spec(model).vcom_control_reg matches Some(c) ==> model_spec(model).vcom_output_reg
            != Some(c),
        model == ChipModel::Ek86317a ==> {
            &&& model_spec(model).vcom_fault_reg == Some(ek_registers::VCOM_REG_FAULT)
            &&& model_spec(model).vcom_control_reg == Some(ek_registers::VCOM_REG_CONTROL)
            &&& model_spec(model).vcom_output_reg == Some(ek_registers::VCOM_REG_VCOM1_NT)
        },
{
}

/// A later pair for the same address overrides an earlier one: the last
/// pair's value is what `last_value` finds when no later pair names it.
proof fn lemma_last_value_at(pairs: Seq<(u8, u8)>, i: int)
    requires
        0 <= i < pairs.len(),
        forall|j: int| i < j < pairs.len() ==> (#[trigger] pairs[j]).0 != pairs[i].0,
    ensures
        crate::pmu::commands::last_value(pairs, pairs[i].0) == Some(pairs[i].1),
    decreases pairs.len(),
{
    if i < pairs.len() - 1 {
        let rest = pairs.drop_last();
        assert(pairs.last() == pairs[pairs.len() - 1]);
        assert forall|j: int| i < j < rest.len() implies (#[trigger] rest[j]).0 != rest[i].0 by {
            assert(rest[j] == pairs[j]);
        }
        lemma_last_value_at(rest, i);
    }
}

/// The LP6281 power-on defaults of the fourteen gamma channels: each high
/// byte (even address 0x0C..=0x26) is 0x02 and each low byte (odd address
/// 0x0D..=0x27) is 0x00.
pub proof fn lemma_lp6281_gamma_defaults(channel: int)
    requires
        0 <= channel < 14,
    ensures
        crate::pmu::commands::last_value(
            default_map_seq(ChipModel::Lp6281),
            (0x0C + 2 * channel) as u8,
        ) == Some(0x02u8),
        crate::pmu::commands::last_value(
            default_map_seq(ChipModel::Lp6281),
            (0x0D + 2 * channel) as u8,
        ) == Some(0x00u8),
{
    let d = default_map_seq(ChipModel::Lp6281);
    let hi = 0x0C + 2 * channel;
    let lo = hi + 1;
    assert(d[hi].0 == hi as u8);
    assert(d[lo].0 == lo as u8);
    assert forall|j: int| hi < j < d.len() implies (#[trigger] d[j]).0 != d[hi].0 by {
        assert(d[j].0 == j as u8);
    }
    assert forall|j: int| lo < j < d.len() implies (#[trigger] d[j]).0 != d[lo].0 by {
        assert(d[j].0 == j as u8);
    }
    lemma_last_value_at(d, hi);
    lemma_last_value_at(d, lo);
    assert((hi as u8) % 2 == 0);
    assert((lo as u8) % 2 == 1);
}

pub fn spec_for_model(model: ChipModel) -> (s: ChipSpec)
    ensures
        s == model_spec(model),
{
    match model {
        ChipModel::Ek86317a => ek86317a::chip_spec(),
        ChipModel::Lp6281 => lp6281::chip_spec(),
    }
}

/// The PMIC register addresses of `model`, in the order the drivers walk them.
pub open spec fn register_address_seq(model: ChipModel) -> Seq<u8> {
    match model {
        ChipModel::Ek86317a => ek_registers::pmic_reg_address_seq(),
        ChipModel::Lp6281 => lp6281::registers::pmic_reg_address_seq(),
    }
}

/// A chip's register list is strictly ascending, so it names no address
/// twice, and it names a register other than the control register.
pub proof fn lemma_register_addresses_distinct(model: ChipModel)
    ensures
        forall|i: int, j: int|
            0 <= i < j < register_address_seq(model).len() ==> #[trigger] register_address_seq(
                model,
            )[i] < #[trigger] register_address_seq(model)[j],
        exists|i: int|
            0 <= i < register_address_seq(model).len() && #[trigger] register_address_seq(model)[i]
                != model_spec(model).control_reg,
{
    let s = register_address_seq(model);
    assert forall|i: int, j: int| 0 <= i < j < s.len() implies #[trigger] s[i] < #[trigger] s[j] by {
        match model {
            ChipModel::Ek86317a => {
                if j < 51 {
                    assert(s[i] == i as u8 && s[j] == j as u8);
                } else if i < 51 {
                    assert(s[i] == i as u8);
                }
            },
            ChipModel::Lp6281 => {
                assert(s[i] == i as u8 && s[j] == j as u8);
            },
        }
    }
    assert(s[0] == 0u8);
}

pub fn register_addresses(model: ChipModel) -> (v: Vec<u8>)
    ensures
        v@ == register_address_seq(model),
{
    match model {
        ChipModel::Ek86317a => ek_registers::pmic_reg_addresses(),
        ChipModel::Lp6281 => lp6281::registers::pmic_reg_addresses(),
    }
}

/// The (address, default value) pairs of `model`.
pub open spec fn default_map_seq(model: ChipModel) -> Seq<(u8, u8)> {
    match model {
        ChipModel::Ek86317a => ek_registers::pmic_register_table().map_values(
            |d: ek_registers::RegisterDef| (d.address, d.default_value),
        ),
        ChipModel::Lp6281 => lp6281::registers::default_register_seq(),
    }
}

pub fn default_register_map(model: ChipModel) -> (v: Vec<(u8, u8)>)
    ensures
        v@ == default_map_seq(model),
{
    match model {
        ChipModel::Ek86317a => {
            let table = ek_registers::pmic_registers();
            let mut v: Vec<(u8, u8)> = Vec::new();
            let mut i: usize = 0;
            while i < table.len()
                invariant
                    i <= table@.len(),
                    v@ =~= table@.take(i as int).map_values(
                        |d: ek_registers::RegisterDef| (d.address, d.default_value),
                    ),
                decreases table@.len() - i,
            {
                v.push((table[i].address, table[i].default_value));
                i = i + 1;
                proof {
                    assert(table@.take(i as int).drop_last() =~= table@.take(i - 1));
                }
            }
            assert(table@.take(i as int) =~= table@);
            v
        },
        ChipModel::Lp6281 => lp6281::registers::default_register_map(),
    }
}

/// The name of register `addr` of `model`.
pub open spec fn register_name(model: ChipModel, addr: u8) -> &'static str {
    match model {
        ChipModel::Ek86317a => ek_registers::register_name_of(addr),
        ChipModel::Lp6281 => lp6281::registers::register_name_of(addr),
    }
}

pub fn get_register_name(model: ChipModel, addr: u8) -> (name: &'static str)
    ensures
        name == register_name(model, addr),
{
    match model {
        ChipModel::Ek86317a => ek_registers::get_register_name(addr),
        ChipModel::Lp6281 => lp6281::registers::get_register_name(addr),
    }
}

/// The fault flags that `raw` reports on `model`. EK86317A: bit6 OTP, bit5 VBK1,
/// bit4 AVDD, bit3 VGH, bit2 VGL, bit1 VSS1, bit0 HAVDD. LP6281 reports no
/// flags.
pub open spec fn fault_flags_of(model: ChipModel, raw: u8) -> FaultFlags {
    match model {
        ChipModel::Ek86317a => FaultFlags {
            raw,
            otp: raw & 0x40 != 0,
            vbk1: raw & 0x20 != 0,
            avdd: raw & 0x10 != 0,
            vgh: raw & 0x08 != 0,
            vgl: raw & 0x04 != 0,
            vss1: raw & 0x02 != 0,
            havdd: raw & 0x01 != 0,
        },
        ChipModel::Lp6281 => FaultFlags {
            raw,
            otp: false,
            vbk1: false,
            avdd: false,
            vgh: false,
            vgl: false,
            vss1: false,
            havdd: false,
        },
    }
}

pub fn decode_fault_flags(model: ChipModel, raw: u8) -> (f: FaultFlags)
    ensures
        f == fault_flags_of(model, raw),
{
    match model {
        ChipModel::Ek86317a => {
            let flags = ek_registers::FaultFlags::from_raw(raw);
            FaultFlags {
                raw,
                otp: flags.otp,
                vbk1: flags.vbk1,
                avdd: flags.avdd,
                vgh: flags.vgh,
                vgl: flags.vgl,
                vss1: flags.vss1,
                havdd: flags.havdd,
            }
        },
        ChipModel::Lp6281 => FaultFlags {
            raw,
            otp: false,
            vbk1: false,
            avdd: false,
            vgh: false,
            vgl: false,
            vss1: false,
            havdd: false,
        },
    }
}

} // verus!
