//! The bus transactions the chip drivers issue, and how their results follow
//! from the replies.

use vstd::prelude::*;

use crate::bridges::i2c::{BusOp, I2cBus};

verus! {

/// `h1` is `h0` followed by more transactions.
pub open spec fn extends(h0: Seq<BusOp>, h1: Seq<BusOp>) -> bool {
    h1.len() >= h0.len() && h1.take(h0.len() as int) == h0
}

/// The transactions in `h1` after those of `h0`.
pub open spec fn added(h0: Seq<BusOp>, h1: Seq<BusOp>) -> Seq<BusOp> {
    h1.skip(h0.len() as int)
}

/// A write of `data` to `addr`, acknowledged or not.
pub open spec fn is_write(op: BusOp, addr: u8, data: Seq<u8>) -> bool {
    op matches BusOp::Write { addr: a, data: d, .. } && a == addr && d == data
}

/// A one-byte register read of `reg` at `addr` (write `reg`, read one byte).
pub open spec fn is_reg_read(op: BusOp, addr: u8, reg: u8) -> bool {
    op matches BusOp::WriteRead { addr: a, data: d, reply: rep, .. } && a == addr && d == seq![
        reg,
    ] && rep.len() == 1
}

/// Whether the bridge reported success for `op`.
pub open spec fn op_ok(op: BusOp) -> bool {
    match op {
        BusOp::Write { ok, .. } => ok,
        BusOp::Read { ok, .. } => ok,
        BusOp::WriteRead { ok, .. } => ok,
        BusOp::Recovery { ok, .. } => ok,
        BusOp::Delay { .. } => true,
    }
}

/// A wait of `ms` milliseconds.
pub open spec fn is_delay(op: BusOp, ms: u64) -> bool {
    op matches BusOp::Delay { ms: m } && m == ms
}

/// The error text the bridge returned for `op`.
pub open spec fn op_err(op: BusOp) -> Seq<char> {
    match op {
        BusOp::Write { err, .. } => err,
        BusOp::Read { err, .. } => err,
        BusOp::WriteRead { err, .. } => err,
        BusOp::Recovery { err, .. } => err,
        BusOp::Delay { .. } => Seq::empty(),
    }
}

/// `r` is an error with the text the bridge returned for `op`.
pub open spec fn fails_with<T>(r: Result<T, String>, op: BusOp) -> bool {
    r matches Err(e) && e@ == op_err(op)
}

/// The first byte received in `op`.
pub open spec fn reply_byte(op: BusOp) -> u8 {
    match op {
        BusOp::WriteRead { reply, .. } => reply[0],
        BusOp::Read { reply, .. } => reply[0],
        BusOp::Write { .. } => 0,
        BusOp::Recovery { .. } => 0,
        BusOp::Delay { .. } => 0,
    }
}

/// `ops` is a single register read of `reg` at `addr`, and `r` is the byte
/// read if the bridge reported success and the bridge's error otherwise.
pub open spec fn single_read(ops: Seq<BusOp>, addr: u8, reg: u8, r: Result<u8, String>) -> bool {
    &&& ops.len() == 1
    &&& is_reg_read(ops[0], addr, reg)
    &&& if op_ok(ops[0]) {
        r == Ok::<u8, String>(reply_byte(ops[0]))
    } else {
        fails_with(r, ops[0])
    }
}

/// `ops` is a control-register write of `code` at `pmic` (selecting a bank or
/// running a command), a wait of `ms` milliseconds and a register read of
/// `reg`; the wait and the read happen only if the control write is
/// acknowledged. `r` is the byte read, or the bridge's error of the
/// transaction that failed.
pub open spec fn select_then_read(
    ops: Seq<BusOp>,
    pmic: u8,
    control: u8,
    code: u8,
    ms: u64,
    reg: u8,
    r: Result<u8, String>,
) -> bool {
    &&& ops.len() >= 1
    &&& is_write(ops[0], pmic, seq![control, code])
    &&& if op_ok(ops[0]) {
        &&& ops.len() >= 2
        &&& is_delay(ops[1], ms)
        &&& single_read(ops.skip(2), pmic, reg, r)
    } else {
        ops.len() == 1 && fails_with(r, ops[0])
    }
}

/// `ops` is one write of `data` to `addr`; `r` succeeds exactly when it is
/// acknowledged, and otherwise carries the bridge's error.
pub open spec fn single_write<T>(ops: Seq<BusOp>, addr: u8, data: Seq<u8>, r: Result<T, String>) -> bool {
    &&& ops.len() == 1
    &&& is_write(ops[0], addr, data)
    &&& (r is Ok) == op_ok(ops[0])
    &&& !op_ok(ops[0]) ==> fails_with(r, ops[0])
}

/// `ops` is one write of `data` to `addr` followed, if it is acknowledged, by
/// a wait of `ms` milliseconds; `r` succeeds exactly when the write is
/// acknowledged, and otherwise carries the bridge's error.
pub open spec fn write_then_wait<T>(
    ops: Seq<BusOp>,
    addr: u8,
    data: Seq<u8>,
    ms: u64,
    r: Result<T, String>,
) -> bool {
    &&& ops.len() >= 1
    &&& is_write(ops[0], addr, data)
    &&& (r is Ok) == op_ok(ops[0])
    &&& if op_ok(ops[0]) {
        ops.len() == 2 && is_delay(ops[1], ms)
    } else {
        ops.len() == 1 && fails_with(r, ops[0])
    }
}

/// The register addresses a bank scan reads: the chip's register list without
/// the control register, in order.
pub open spec fn scanned(addrs: Seq<u8>, control: u8) -> Seq<u8>
    decreases addrs.len(),
{
    if addrs.len() == 0 {
        Seq::empty()
    } else if addrs.last() == control {
        scanned(addrs.drop_last(), control)
    } else {
        scanned(addrs.drop_last(), control).push(addrs.last())
    }
}

/// Scanning a prefix of the list reads a prefix of what scanning the whole
/// list reads.
pub proof fn lemma_scanned_prefix(addrs: Seq<u8>, control: u8, i: int)
    requires
        0 <= i <= addrs.len(),
    ensures
        scanned(addrs.take(i), control).len() <= scanned(addrs, control).len(),
        scanned(addrs, control).take(scanned(addrs.take(i), control).len() as int) == scanned(
            addrs.take(i),
            control,
        ),
    decreases addrs.len() - i,
{
    if i == addrs.len() {
        assert(addrs.take(i) =~= addrs);
        assert(scanned(addrs, control).take(scanned(addrs, control).len() as int) =~= scanned(
            addrs,
            control,
        ));
    } else {
        lemma_scanned_prefix(addrs, control, i + 1);
        assert(addrs.take(i + 1).drop_last() =~= addrs.take(i));
        let a = scanned(addrs.take(i), control);
        let b = scanned(addrs.take(i + 1), control);
        let c = scanned(addrs, control);
        assert(c.take(a.len() as int) =~= b.take(a.len() as int));
        assert(b.take(a.len() as int) =~= a);
    }
}


/// `ops` is a bank scan at `pmic`: a control write of `code`, then, if it is
/// acknowledged, a wait of `ms` milliseconds and one register read per
/// address of `regs` in order, stopping after the first read the bridge
/// reports as failed.
pub open spec fn scan_shape(ops: Seq<BusOp>, pmic: u8, control: u8, code: u8, ms: u64, regs: Seq<u8>) -> bool {
    &&& ops.len() >= 1
    &&& is_write(ops[0], pmic, seq![control, code])
    &&& if op_ok(ops[0]) {
        let reads = ops.skip(2);
        &&& ops.len() >= 2
        &&& is_delay(ops[1], ms)
        &&& reads.len() <= regs.len()
        &&& forall|i: int| 0 <= i < reads.len() ==> is_reg_read(#[trigger] reads[i], pmic, regs[i])
        &&& forall|i: int| 0 <= i < reads.len() - 1 ==> op_ok(#[trigger] reads[i])
        &&& reads.len() < regs.len() ==> reads.len() > 0 && !op_ok(reads.last())
    } else {
        ops.len() == 1
    }
}

/// Every transaction of a bank scan succeeded.
pub open spec fn scan_ok(ops: Seq<BusOp>, regs: Seq<u8>) -> bool {
    &&& ops.len() == regs.len() + 2
    &&& forall|i: int| 0 <= i < ops.len() ==> op_ok(#[trigger] ops[i])
}

/// The (address, value) pairs a successful bank scan read.
pub open spec fn scan_values(ops: Seq<BusOp>, regs: Seq<u8>) -> Seq<(u8, u8)> {
    Seq::new(regs.len(), |i: int| (regs[i], reply_byte(ops[i + 2])))
}

/// `r` is the outcome of the bank scan `ops`: the values read if every
/// transaction succeeded, else the bridge's error of the failed (last) one.
pub open spec fn scan_result(ops: Seq<BusOp>, pmic: u8, control: u8, code: u8, ms: u64, regs: Seq<u8>, r: Result<
    Vec<(u8, u8)>,
    String,
>) -> bool {
    &&& scan_shape(ops, pmic, control, code, ms, regs)
    &&& (r is Ok <==> scan_ok(ops, regs))
    &&& r matches Ok(v) ==> v@ == scan_values(ops, regs)
    &&& !scan_ok(ops, regs) ==> fails_with(r, ops.last())
}

/// `ops` writes each `(address, value)` of `regs` to `pmic` in order, one
/// write per register, stopping after the first write that is not
/// acknowledged; `r` succeeds exactly when every write was acknowledged, and
/// otherwise carries the bridge's error of the failed write.
pub open spec fn writes_each<T>(ops: Seq<BusOp>, pmic: u8, regs: Seq<(u8, u8)>, r: Result<T, String>) -> bool {
    &&& ops.len() <= regs.len()
    &&& forall|i: int| 0 <= i < ops.len() ==> is_write(#[trigger] ops[i], pmic, seq![regs[i].0, regs[i].1])
    &&& forall|i: int| 0 <= i < ops.len() - 1 ==> op_ok(#[trigger] ops[i])
    &&& if r is Ok {
        ops.len() == regs.len() && (ops.len() == 0 || op_ok(ops.last()))
    } else {
        ops.len() > 0 && !op_ok(ops.last()) && fails_with(r, ops.last())
    }
}

/// `ops` writes each `(address, value)` of `regs` to `pmic` as `writes_each`
/// says; `r` is the number of registers written if all were.
pub open spec fn register_writes(ops: Seq<BusOp>, pmic: u8, regs: Seq<(u8, u8)>, r: Result<usize, String>) -> bool {
    &&& writes_each(ops, pmic, regs, r)
    &&& r matches Ok(n) ==> n == regs.len()
}

/// Every history extends itself, adding nothing.
pub proof fn lemma_extends_refl(h: Seq<BusOp>)
    ensures
        extends(h, h),
        added(h, h) == Seq::<BusOp>::empty(),
{
    assert(h.take(h.len() as int) =~= h);
    assert(added(h, h) =~= Seq::<BusOp>::empty());
}

/// Extension is transitive, and what is added accumulates.
pub proof fn lemma_extends_trans(h0: Seq<BusOp>, h1: Seq<BusOp>, h2: Seq<BusOp>)
    requires
        extends(h0, h1),
        extends(h1, h2),
    ensures
        extends(h0, h2),
        added(h0, h2) == added(h0, h1) + added(h1, h2),
{
    assert(h2.take(h0.len() as int) =~= h1.take(h0.len() as int)) by {
        assert(h2.take(h1.len() as int) == h1);
    }
    assert(added(h0, h2) =~= added(h0, h1) + added(h1, h2)) by {
        assert(h2.take(h1.len() as int) == h1);
    }
}

/// Appending one transaction extends a history by that transaction.
pub proof fn lemma_extends_push(h: Seq<BusOp>, op: BusOp)
    ensures
        extends(h, h.push(op)),
        added(h, h.push(op)) == seq![op],
{
    assert(h.push(op).take(h.len() as int) =~= h);
    assert(added(h, h.push(op)) =~= seq![op]);
}

/// One register read of `reg` at `addr` into a one-byte buffer.
pub fn read_register<B: I2cBus>(bus: &mut B, addr: u8, reg: u8) -> (r: Result<u8, String>)
    ensures
        extends(old(bus).history(), final(bus).history()),
        single_read(added(old(bus).history(), final(bus).history()), addr, reg, r),
{
    let ghost h0 = bus.history();
    let mut buf = [0u8; 1];
    let wdata = [reg];
    assert(wdata@ =~= seq![reg]);
    let res = bus.write_read(addr, &wdata, &mut buf);
    proof {
        assert(bus.history().take(h0.len() as int) =~= h0);
        assert(added(h0, bus.history()) =~= seq![bus.history().last()]);
        assert(bus.history().last() matches BusOp::WriteRead { reply, .. } && reply == buf@);
    }
    match res {
        Ok(()) => {
            let b = buf[0];
            assert(buf@[0] == b);
            Ok(b)
        },
        Err(e) => Err(e),
    }
}

/// A control-register write of `code` at `pmic`.
pub fn write_control<B: I2cBus>(bus: &mut B, pmic: u8, control: u8, code: u8) -> (r: Result<(), String>)
    ensures
        extends(old(bus).history(), final(bus).history()),
        single_write(added(old(bus).history(), final(bus).history()), pmic, seq![control, code], r),
{
    let ghost h0 = bus.history();
    let data = [control, code];
    assert(data@ =~= seq![control, code]);
    let r = bus.write(pmic, &data);
    proof {
        assert(bus.history().take(h0.len() as int) =~= h0);
        assert(added(h0, bus.history()) =~= seq![bus.history().last()]);
    }
    r
}

/// A control-register write of `code` at `pmic` (a command such as an EEPROM
/// burn), then, if it was acknowledged, a wait of `ms` milliseconds.
pub fn write_control_then_wait<B: I2cBus>(bus: &mut B, pmic: u8, control: u8, code: u8, ms: u64) -> (r:
    Result<(), String>)
    ensures
        extends(old(bus).history(), final(bus).history()),
        write_then_wait(added(old(bus).history(), final(bus).history()), pmic, seq![control, code], ms, r),
{
    let ghost h0 = bus.history();
    let w = write_control(bus, pmic, control, code);
    if let Err(e) = w {
        return Err(e);
    }
    let ghost h1 = bus.history();
    bus.delay_ms(ms);
    proof {
        assert(bus.history().take(h0.len() as int) =~= h0);
        assert(added(h0, bus.history()) =~= added(h0, h1).push(BusOp::Delay { ms }));
    }
    Ok(())
}

/// Select a bank (or run a command) with the control register, wait `delay_ms`,
/// then read register `reg`.
pub fn select_and_read<B: I2cBus>(
    bus: &mut B,
    pmic: u8,
    control: u8,
    code: u8,
    delay_ms: u64,
    reg: u8,
) -> (r: Result<u8, String>)
    ensures
        extends(old(bus).history(), final(bus).history()),
        select_then_read(added(old(bus).history(), final(bus).history()), pmic, control, code, delay_ms, reg, r),
{
    let ghost h0 = bus.history();
    let w = write_control(bus, pmic, control, code);
    if let Err(e) = w {
        return Err(e);
    }
    bus.delay_ms(delay_ms);
    let ghost h1 = bus.history();
    let r = read_register(bus, pmic, reg);
    proof {
        assert(bus.history().take(h0.len() as int) =~= h0) by {
            assert(bus.history().take(h1.len() as int) == h1);
            assert(h1.take(h0.len() as int) == h0);
        }
        assert(added(h0, bus.history()).skip(2) =~= added(h1, bus.history()));
        assert(added(h0, bus.history())[0] == added(h0, h1)[0]);
        assert(added(h0, bus.history())[1] == added(h0, h1)[1]);
    }
    r
}

/// Scanning one more address of the list reads it unless it is the control register.
proof fn lemma_scanned_step(addrs: Seq<u8>, control: u8, i: int)
    requires
        0 <= i < addrs.len(),
    ensures
        scanned(addrs.take(i + 1), control) == if addrs[i] == control {
            scanned(addrs.take(i), control)
        } else {
            scanned(addrs.take(i), control).push(addrs[i])
        },
{
    assert(addrs.take(i + 1).drop_last() =~= addrs.take(i));
}

/// Select a bank with the control register, wait `delay_ms`, then read every
/// register of `addrs` except the control register, in order.
pub fn scan_bank<B: I2cBus>(
    bus: &mut B,
    pmic: u8,
    control: u8,
    code: u8,
    delay_ms: u64,
    addrs: &Vec<u8>,
) -> (r: Result<Vec<(u8, u8)>, String>)
    ensures
        extends(old(bus).history(), final(bus).history()),
        scan_result(
            added(old(bus).history(), final(bus).history()),
            pmic,
            control,
            code,
            delay_ms,
            scanned(addrs@, control),
            r,
        ),
{
    let ghost h0 = bus.history();
    let ghost regs = scanned(addrs@, control);
    let w = write_control(bus, pmic, control, code);
    if let Err(e) = w {
        return Err(e);
    }
    let ghost hw = bus.history();
    bus.delay_ms(delay_ms);
    let ghost h1 = bus.history();
    let ghost sel = added(h0, h1)[0];
    let ghost dl = added(h0, h1)[1];
    proof {
        lemma_extends_refl(h1);
        assert(added(h0, hw) =~= seq![hw.last()]);
        assert(h1.take(h0.len() as int) =~= h0);
        assert(added(h0, h1) =~= seq![sel, dl]);
    }
    let mut results: Vec<(u8, u8)> = Vec::new();
    let mut i: usize = 0;
    assert(addrs@.take(0) =~= Seq::<u8>::empty());
    while i < addrs.len()
        invariant
            i <= addrs@.len(),
            h0 == old(bus).history(),
            extends(h0, h1),
            added(h0, h1) == seq![sel, dl],
            op_ok(sel),
            is_delay(dl, delay_ms),
            is_write(sel, pmic, seq![control, code]),
            regs == scanned(addrs@, control),
            extends(h1, bus.history()),
            added(h1, bus.history()).len() == results@.len(),
            results@.len() == scanned(addrs@.take(i as int), control).len(),
            forall|j: int|
                0 <= j < results@.len() ==> {
                    &&& is_reg_read(
                        #[trigger] added(h1, bus.history())[j],
                        pmic,
                        scanned(addrs@.take(i as int), control)[j],
                    )
                    &&& op_ok(added(h1, bus.history())[j])
                    &&& results@[j] == (
                        scanned(addrs@.take(i as int), control)[j],
                        reply_byte(added(h1, bus.history())[j]),
                    )
                },
        decreases addrs@.len() - i,
    {
        let a = addrs[i];
        let ghost hb = bus.history();
        proof {
            lemma_scanned_step(addrs@, control, i as int);
        }
        if a != control {
            let rr = read_register(bus, pmic, a);
            proof {
                lemma_extends_trans(h1, hb, bus.history());
            }
            match rr {
                Ok(b) => {
                    results.push((a, b));
                },
                Err(e) => {
                    proof {
                        lemma_extends_trans(h0, h1, bus.history());
                        lemma_scanned_prefix(addrs@, control, i + 1);
                        let ops = added(h0, bus.history());
                        let reads = added(h1, bus.history());
                        let sc = scanned(addrs@.take(i + 1), control);
                        assert(ops.skip(2) =~= reads);
                        assert(ops[0] == sel);
                        assert(ops[1] == dl);
                        let prior = added(h1, hb);
                        assert(reads =~= prior + added(hb, bus.history()));
                        assert(reads.last() == added(hb, bus.history())[0]);
                        assert(!op_ok(reads.last()));
                        assert(!op_ok(ops[ops.len() - 1]));
                        assert forall|j: int| 0 <= j < reads.len() - 1 implies op_ok(#[trigger] reads[j]) by {
                            assert(reads[j] == prior[j]);
                        }
                        assert forall|j: int| 0 <= j < reads.len() implies is_reg_read(
                            #[trigger] reads[j],
                            pmic,
                            regs[j],
                        ) by {
                            assert(regs[j] == sc[j]);
                        }
                    }
                    return Err(e);
                },
            }
        }
        i = i + 1;
    }
    proof {
        assert(addrs@.take(i as int) =~= addrs@);
        lemma_extends_trans(h0, h1, bus.history());
        let ops = added(h0, bus.history());
        let reads = added(h1, bus.history());
        assert(ops.skip(2) =~= reads);
        assert(ops[1] == dl);
        assert forall|k: int| 0 <= k < ops.len() implies op_ok(#[trigger] ops[k]) by {
            if k > 1 {
                assert(ops[k] == reads[k - 2]);
            }
        }
        assert(results@ =~= scan_values(ops, regs)) by {
            assert forall|k: int| 0 <= k < regs.len() implies results@[k] == #[trigger] scan_values(
                ops,
                regs,
            )[k] by {
                assert(ops[k + 2] == reads[k]);
            }
        }
    }
    Ok(results)
}

/// Write each `(address, value)` of `registers` to `pmic`, one write per
/// register, stopping at the first failure; returns how many were written.
pub fn write_registers<B: I2cBus>(bus: &mut B, pmic: u8, registers: &[(u8, u8)]) -> (r: Result<
    usize,
    String,
>)
    ensures
        extends(old(bus).history(), final(bus).history()),
        register_writes(added(old(bus).history(), final(bus).history()), pmic, registers@, r),
{
    let ghost h0 = bus.history();
    proof {
        lemma_extends_refl(h0);
    }
    let mut count: usize = 0;
    while count < registers.len()
        invariant
            count <= registers@.len(),
            h0 == old(bus).history(),
            extends(h0, bus.history()),
            added(h0, bus.history()).len() == count,
            forall|i: int|
                0 <= i < count ==> is_write(
                    #[trigger] added(h0, bus.history())[i],
                    pmic,
                    seq![registers@[i].0, registers@[i].1],
                ),
            forall|i: int| 0 <= i < count ==> op_ok(#[trigger] added(h0, bus.history())[i]),
        decreases registers@.len() - count,
    {
        let (addr, value) = registers[count];
        let ghost hb = bus.history();
        let data = [addr, value];
        assert(data@ =~= seq![addr, value]);
        let w = bus.write(pmic, &data);
        proof {
            lemma_extends_push(hb, bus.history().last());
            assert(hb.push(bus.history().last()) =~= bus.history());
            lemma_extends_trans(h0, hb, bus.history());
        }
        if let Err(e) = w {
            return Err(e);
        }
        count = count + 1;
    }
    Ok(count)
}

} // verus!
