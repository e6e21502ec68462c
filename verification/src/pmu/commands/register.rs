//! Register read/write commands: the guard on DAC writes and the register
//! values a voltage decode needs beside the register itself.

use vstd::prelude::*;

use crate::bridges::i2c::BusOp;
use crate::ek86317a::registers as ek_registers;
use crate::pmu::chip::{model_spec, ChipModel, ChipSpec};
use crate::pmu::lp6281::registers as lp_registers;
use crate::pmu::commands::firmware::control_register_reserved;
use crate::pmu::commands::last_value;
use crate::pmu::device::ChipDevice;
use crate::pmu::transcript::{
    added, extends, is_delay, is_reg_read, is_write, lemma_extends_refl, lemma_extends_trans, op_ok,
    reply_byte, single_write,
};

verus! {

/// Register values that the voltage of another register depends on.
#[derive(Debug, Clone, Copy, PartialEq, Eq, Structural)]
pub struct DecodeContext {
    pub avdd_value: Option<u8>,
    pub vcom_min_value: Option<u8>,
    pub vcom_max_value: Option<u8>,
    pub mode_value: Option<u8>,
}

/// The registers whose voltage depends on the VCOM range.
pub open spec fn is_vcom_context_register(addr: u8) -> bool {
    addr == 0x08 || addr == 0x09 || addr == 0x0A || addr == 0x0B || addr == 0x45
}

pub fn needs_vcom_context(addr: u8) -> (b: bool)
    ensures
        b == is_vcom_context_register(addr),
{
    addr == 0x08 || addr == 0x09 || addr == 0x0A || addr == 0x0B || addr == 0x45
}

/// The registers whose voltage is decoded over the chip's VCOM range all
/// gather the VCOM context: on every model the VCOM output register and its
/// high-temperature partner (the next address), the VCOM range limits, and
/// on the EK86317A the VCOM2DAC output; so their context reads the VCOM
/// minimum and maximum registers.
pub proof fn lemma_vcom_registers_need_context(model: ChipModel)
    ensures
        model_spec(model).pmic_vcom_register is Some,
        is_vcom_context_register(model_spec(model).pmic_vcom_register->0),
        is_vcom_context_register((model_spec(model).pmic_vcom_register->0 + 1) as u8),
        model_spec(model).vcom_min_reg matches Some(r) && is_vcom_context_register(r),
        model_spec(model).vcom_max_reg matches Some(r) && is_vcom_context_register(r),
        model == ChipModel::Ek86317a ==> {
            &&& is_vcom_context_register(ek_registers::REG_VCOM1_NT)
            &&& is_vcom_context_register(ek_registers::REG_VCOM1_HT)
            &&& is_vcom_context_register(ek_registers::REG_VCOM_MAX)
            &&& is_vcom_context_register(ek_registers::REG_VCOM_MIN)
            &&& is_vcom_context_register(ek_registers::REG_VCOM2DAC)
        },
        model == ChipModel::Lp6281 ==> {
            &&& is_vcom_context_register(lp_registers::REG_VCOM_NT)
            &&& is_vcom_context_register(lp_registers::REG_VCOM_HT)
            &&& is_vcom_context_register(lp_registers::REG_VCOM_MAX)
            &&& is_vcom_context_register(lp_registers::REG_VCOM_MIN)
        },
{
}

/// The value the last pair for `reg` in `regs` gives, for an optional register.
pub open spec fn last_value_of(regs: Seq<(u8, u8)>, reg: Option<u8>) -> Option<u8> {
    match reg {
        Some(r) => last_value(regs, r),
        None => None,
    }
}

/// The decode context a list of read registers gives for the chip `sp`: for
/// each context register, the value of its last pair in `regs`.
pub open spec fn context_from_regs(sp: ChipSpec, regs: Seq<(u8, u8)>) -> DecodeContext {
    DecodeContext {
        avdd_value: last_value(regs, sp.avdd_reg),
        vcom_min_value: last_value_of(regs, sp.vcom_min_reg),
        vcom_max_value: last_value_of(regs, sp.vcom_max_reg),
        mode_value: last_value_of(regs, sp.mode_reg),
    }
}

/// Build the decode context of the chip `sp` from a list of registers.
pub fn decode_context_for(sp: ChipSpec, regs: &[(u8, u8)]) -> (ctx: DecodeContext)
    ensures
        ctx == context_from_regs(sp, regs@),
{
    let mut ctx = DecodeContext {
        avdd_value: None,
        vcom_min_value: None,
        vcom_max_value: None,
        mode_value: None,
    };
    let mut i: usize = 0;
    while i < regs.len()
        invariant
            i <= regs@.len(),
            ctx == context_from_regs(sp, regs@.take(i as int)),
        decreases regs@.len() - i,
    {
        let (addr, value) = regs[i];
        assert(regs@.take(i + 1).drop_last() =~= regs@.take(i as int));
        if addr == sp.avdd_reg {
            ctx.avdd_value = Some(value);
        }
        if sp.vcom_min_reg == Some(addr) {
            ctx.vcom_min_value = Some(value);
        }
        if sp.vcom_max_reg == Some(addr) {
            ctx.vcom_max_value = Some(value);
        }
        if sp.mode_reg == Some(addr) {
            ctx.mode_value = Some(value);
        }
        i = i + 1;
    }
    assert(regs@.take(i as int) =~= regs@);
    ctx
}

/// Build the decode context of the device's chip from a list of read
/// registers.
pub fn build_decode_context_from_regs(device: &ChipDevice, regs: &[(u8, u8)]) -> (ctx: DecodeContext)
    ensures
        ctx == context_from_regs(device.chip(), regs@),
{
    decode_context_for(device.spec(), regs)
}

/// `ops` is one DAC register read of `reg` on the chip `sp` (select the DAC
/// bank, then read the register if the selection was acknowledged), and `v`
/// is the byte read, or `None` if either transaction failed.
pub open spec fn dac_read(ops: Seq<BusOp>, sp: ChipSpec, reg: u8, v: Option<u8>) -> bool {
    &&& ops.len() >= 1
    &&& is_write(ops[0], sp.pmic_addr, seq![sp.control_reg, sp.ctrl_read_dac])
    &&& if op_ok(ops[0]) {
        &&& ops.len() == 3
        &&& is_delay(ops[1], sp.read_delay_ms)
        &&& is_reg_read(ops[2], sp.pmic_addr, reg)
        &&& v == if op_ok(ops[2]) {
            Some(reply_byte(ops[2]))
        } else {
            None
        }
    } else {
        ops.len() == 1 && v is None
    }
}

/// `ops` obtains one context value `v` for the register `reg` (if the chip
/// has it and the context needs it), knowing that register `addr` holds
/// `value`: no transaction and `value` if `reg` is `addr`, one DAC read
/// otherwise, and nothing if the context does not need the register.
pub open spec fn context_read(
    ops: Seq<BusOp>,
    sp: ChipSpec,
    addr: u8,
    value: u8,
    needed: bool,
    reg: Option<u8>,
    v: Option<u8>,
) -> bool {
    match reg {
        Some(r) if needed => if r == addr {
            ops.len() == 0 && v == Some(value)
        } else {
            dac_read(ops, sp, r, v)
        },
        _ => ops.len() == 0 && v is None,
    }
}

/// `ops` gathers the decode context `ctx` for register `addr` holding `value`:
/// the AVDD register, then, for registers that depend on the VCOM range, the
/// VCOM minimum and maximum registers, then the mode register.
pub open spec fn context_reads(ops: Seq<BusOp>, sp: ChipSpec, addr: u8, value: u8, ctx: DecodeContext) -> bool {
    exists|o1: Seq<BusOp>, o2: Seq<BusOp>, o3: Seq<BusOp>, o4: Seq<BusOp>|
        #![trigger context_read(o1, sp, addr, value, true, Some(sp.avdd_reg), ctx.avdd_value), context_read(o4, sp, addr, value, true, sp.mode_reg, ctx.mode_value), o2 + o3]
        {
            &&& ops == o1 + o2 + o3 + o4
            &&& context_read(o1, sp, addr, value, true, Some(sp.avdd_reg), ctx.avdd_value)
            &&& context_read(
                o2,
                sp,
                addr,
                value,
                is_vcom_context_register(addr),
                sp.vcom_min_reg,
                ctx.vcom_min_value,
            )
            &&& context_read(
                o3,
                sp,
                addr,
                value,
                is_vcom_context_register(addr),
                sp.vcom_max_reg,
                ctx.vcom_max_value,
            )
            &&& context_read(o4, sp, addr, value, true, sp.mode_reg, ctx.mode_value)
        }
}

/// Obtain one context value: `value` if `reg` is `addr`, else a DAC read of
/// `reg`, or nothing if not `needed` or the chip lacks the register.
fn read_context_value(device: &mut ChipDevice, addr: u8, value: u8, needed: bool, reg: Option<u8>) -> (v: Option<u8>)
    ensures
        final(device).chip() == old(device).chip(),
        extends(old(device).bus_history(), final(device).bus_history()),
        context_read(
            added(old(device).bus_history(), final(device).bus_history()),
            old(device).chip(),
            addr,
            value,
            needed,
            reg,
            v,
        ),
{
    proof {
        lemma_extends_refl(device.bus_history());
        assert(added(device.bus_history(), device.bus_history()) =~= Seq::<BusOp>::empty());
    }
    if !needed {
        return None;
    }
    match reg {
        Some(r) => if r == addr {
            Some(value)
        } else {
            let read = device.read_dac_register(r);
            proof {
                let ops = added(old(device).bus_history(), device.bus_history());
                if op_ok(ops[0]) {
                    assert(ops.skip(2)[0] == ops[2]);
                }
            }
            match read {
                Ok(b) => Some(b),
                Err(_) => None,
            }
        },
        None => None,
    }
}

/// Gather the decode context for register `addr`, just read as `value`: read
/// the other registers its voltage depends on from the DAC; a failed read
/// leaves that value out.
pub fn read_decode_context_for_single(device: &mut ChipDevice, addr: u8, value: u8) -> (ctx: DecodeContext)
    ensures
        final(device).chip() == old(device).chip(),
        extends(old(device).bus_history(), final(device).bus_history()),
        context_reads(
            added(old(device).bus_history(), final(device).bus_history()),
            old(device).chip(),
            addr,
            value,
            ctx,
        ),
{
    let spec = device.spec();
    let vcom = needs_vcom_context(addr);
    let ghost h0 = device.bus_history();
    let avdd_value = read_context_value(device, addr, value, true, Some(spec.avdd_reg));
    let ghost h1 = device.bus_history();
    let vcom_min_value = read_context_value(device, addr, value, vcom, spec.vcom_min_reg);
    let ghost h2 = device.bus_history();
    let vcom_max_value = read_context_value(device, addr, value, vcom, spec.vcom_max_reg);
    let ghost h3 = device.bus_history();
    let mode_value = read_context_value(device, addr, value, true, spec.mode_reg);
    let ghost h4 = device.bus_history();
    let ctx = DecodeContext { avdd_value, vcom_min_value, vcom_max_value, mode_value };
    proof {
        lemma_extends_trans(h0, h1, h2);
        lemma_extends_trans(h0, h2, h3);
        lemma_extends_trans(h0, h3, h4);
        let o1 = added(h0, h1);
        let o2 = added(h1, h2);
        let o3 = added(h2, h3);
        let o4 = added(h3, h4);
        assert(added(h0, h4) =~= o1 + o2 + o3 + o4);
        assert(context_read(o1, spec, addr, value, true, Some(spec.avdd_reg), ctx.avdd_value));
        assert(context_read(o4, spec, addr, value, true, spec.mode_reg, ctx.mode_value));
        let _ = o2 + o3;
    }
    ctx
}

/// Write one DAC register; the control register is refused before any
/// transaction.
pub fn write_dac_register(device: &mut ChipDevice, addr: u8, value: u8) -> (r: Result<(), String>)
    ensures
        final(device).chip() == old(device).chip(),
        extends(old(device).bus_history(), final(device).bus_history()),
        addr == old(device).chip().control_reg ==> final(device).bus_history() == old(
            device,
        ).bus_history() && (r matches Err(e) && e@ == control_register_reserved()),
        addr != old(device).chip().control_reg ==> single_write(
            added(old(device).bus_history(), final(device).bus_history()),
            old(device).chip().pmic_addr,
            seq![addr, value],
            r,
        ),
{
    proof {
        lemma_extends_refl(device.bus_history());
    }
    if addr == device.spec().control_reg {
        return Err("Control register 0xFF is reserved for dedicated EEPROM commands".to_owned());
    }
    device.write_dac_register(addr, value)
}

} // verus!
