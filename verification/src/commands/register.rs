//! Register commands of the EK86317A programmer: the register values a
//! voltage decode needs beside the register itself.

use vstd::prelude::*;

use crate::bridges::i2c::BusOp;
use crate::ek86317a::registers::{
    REG_AVDD, REG_VCOM1_HT, REG_VCOM1_NT, REG_VCOM2DAC, REG_VCOM_MAX, REG_VCOM_MIN,
};
use crate::ek86317a::Ek86317a;
use crate::pmu::chip::{model_spec, ChipModel};
use crate::pmu::commands::last_value;
use crate::pmu::commands::register::context_read;
use crate::pmu::transcript::{added, extends, lemma_extends_refl, lemma_extends_trans, op_ok};

verus! {

/// Register values that the voltage of another register depends on.
#[derive(Debug, Clone, Copy, PartialEq, Eq, Structural)]
pub struct DecodeContext {
    pub avdd_value: Option<u8>,
    pub vcom_min_value: Option<u8>,
    pub vcom_max_value: Option<u8>,
}

/// The registers whose voltage depends on the VCOM range: VCOM1_NT, VCOM1_HT,
/// VCOM_MAX, VCOM_MIN and VCOM2DAC.
pub open spec fn is_vcom_context_register(addr: u8) -> bool {
    addr == REG_VCOM1_NT || addr == REG_VCOM1_HT || addr == REG_VCOM_MAX || addr == REG_VCOM_MIN
        || addr == REG_VCOM2DAC
}

pub fn needs_vcom_context(addr: u8) -> (b: bool)
    ensures
        b == is_vcom_context_register(addr),
{
    addr == REG_VCOM1_NT || addr == REG_VCOM1_HT || addr == REG_VCOM_MAX || addr == REG_VCOM_MIN
        || addr == REG_VCOM2DAC
}

/// The EK86317A registers whose voltage is decoded over the VCOM range all
/// gather the VCOM context: VCOM1 at normal and at high temperature, the
/// VCOM range limits and the VCOM2DAC output.
pub proof fn lemma_vcom_registers_need_context()
    ensures
        is_vcom_context_register(REG_VCOM1_NT),
        is_vcom_context_register(REG_VCOM1_HT),
        is_vcom_context_register(REG_VCOM_MAX),
        is_vcom_context_register(REG_VCOM_MIN),
        is_vcom_context_register(REG_VCOM2DAC),
{
}

/// The decode context a list of read registers gives: for each context
/// register, the value of its last pair.
pub open spec fn context_from_regs(regs: Seq<(u8, u8)>) -> DecodeContext {
    DecodeContext {
        avdd_value: last_value(regs, REG_AVDD),
        vcom_min_value: last_value(regs, REG_VCOM_MIN),
        vcom_max_value: last_value(regs, REG_VCOM_MAX),
    }
}

pub fn build_decode_context_from_regs(regs: &[(u8, u8)]) -> (ctx: DecodeContext)
    ensures
        ctx == context_from_regs(regs@),
{
    let mut ctx = DecodeContext { avdd_value: None, vcom_min_value: None, vcom_max_value: None };
    let mut i: usize = 0;
    while i < regs.len()
        invariant
            i <= regs@.len(),
            ctx == context_from_regs(regs@.take(i as int)),
        decreases regs@.len() - i,
    {
        let (addr, value) = regs[i];
        assert(regs@.take(i + 1).drop_last() =~= regs@.take(i as int));
        if addr == REG_AVDD {
            ctx.avdd_value = Some(value);
        } else if addr == REG_VCOM_MIN {
            ctx.vcom_min_value = Some(value);
        } else if addr == REG_VCOM_MAX {
            ctx.vcom_max_value = Some(value);
        }
        i = i + 1;
    }
    assert(regs@.take(i as int) =~= regs@);
    ctx
}

/// `ops` gathers the decode context `ctx` for register `addr` holding `value`
/// on an EK86317A: the AVDD register, then, for registers that depend on the
/// VCOM range, the VCOM minimum and maximum registers.
pub open spec fn context_reads(ops: Seq<BusOp>, addr: u8, value: u8, ctx: DecodeContext) -> bool {
    let sp = model_spec(ChipModel::Ek86317a);
    exists|o1: Seq<BusOp>, o2: Seq<BusOp>, o3: Seq<BusOp>|
        #![trigger context_read(o1, sp, addr, value, true, Some(REG_AVDD), ctx.avdd_value), o2 + o3]
        {
            &&& ops == o1 + o2 + o3
            &&& context_read(o1, sp, addr, value, true, Some(REG_AVDD), ctx.avdd_value)
            &&& context_read(
                o2,
                sp,
                addr,
                value,
                is_vcom_context_register(addr),
                Some(REG_VCOM_MIN),
                ctx.vcom_min_value,
            )
            &&& context_read(
                o3,
                sp,
                addr,
                value,
                is_vcom_context_register(addr),
                Some(REG_VCOM_MAX),
                ctx.vcom_max_value,
            )
        }
}

fn read_context_value(device: &mut Ek86317a, addr: u8, value: u8, needed: bool, reg: u8) -> (v: Option<u8>)
    ensures
        extends(old(device).bus_history(), final(device).bus_history()),
        context_read(
            added(old(device).bus_history(), final(device).bus_history()),
            model_spec(ChipModel::Ek86317a),
            addr,
            value,
            needed,
            Some(reg),
            v,
        ),
{
    proof {
        lemma_extends_refl(device.bus_history());
        assert(added(device.bus_history(), device.bus_history()) =~= Seq::<BusOp>::empty());
    }
    if !needed {
        return None;
    }
    if reg == addr {
        return Some(value);
    }
    let read = device.read_dac_register(reg);
    proof {
        let ops = added(old(device).bus_history(), device.bus_history());
        if op_ok(ops[0]) {
            assert(ops.skip(2)[0] == ops[2]);
        }
    }
    match read {
        Ok(b) => Some(b),
        Err(_) => None,
    }
}

/// Gather the decode context for register `addr`, just read as `value`; a
/// failed read leaves that value out.
pub fn read_decode_context_for_single(device: &mut Ek86317a, addr: u8, value: u8) -> (ctx: DecodeContext)
    ensures
        extends(old(device).bus_history(), final(device).bus_history()),
        context_reads(added(old(device).bus_history(), final(device).bus_history()), addr, value, ctx),
{
    let vcom = needs_vcom_context(addr);
    let ghost h0 = device.bus_history();
    let avdd_value = read_context_value(device, addr, value, true, REG_AVDD);
    let ghost h1 = device.bus_history();
    let vcom_min_value = read_context_value(device, addr, value, vcom, REG_VCOM_MIN);
    let ghost h2 = device.bus_history();
    let vcom_max_value = read_context_value(device, addr, value, vcom, REG_VCOM_MAX);
    let ghost h3 = device.bus_history();
    let ctx = DecodeContext { avdd_value, vcom_min_value, vcom_max_value };
    proof {
        lemma_extends_trans(h0, h1, h2);
        lemma_extends_trans(h0, h2, h3);
        let o1 = added(h0, h1);
        let o2 = added(h1, h2);
        let o3 = added(h2, h3);
        assert(added(h0, h3) =~= o1 + o2 + o3);
        let sp = model_spec(ChipModel::Ek86317a);
        assert(context_read(o1, sp, addr, value, true, Some(REG_AVDD), ctx.avdd_value));
        let _ = o2 + o3;
    }
    ctx
}

} // verus!
