//! Shared I2C bridge abstraction used by PMU drivers and concrete bridge backends.

use vstd::prelude::*;

verus! {

/// One step on the bus as the bus master saw it: an addressed transaction
/// (the 7-bit slave address, the bytes sent, the bytes received) or a bus
/// recovery, with whether the bridge reported success and, if it did not,
/// the text of the error it returned; or a wait of `ms` milliseconds.
pub enum BusOp {
    Write { addr: u8, data: Seq<u8>, ok: bool, err: Seq<char> },
    Read { addr: u8, reply: Seq<u8>, ok: bool, err: Seq<char> },
    WriteRead { addr: u8, data: Seq<u8>, reply: Seq<u8>, ok: bool, err: Seq<char> },
    Recovery { ok: bool, err: Seq<char> },
    Delay { ms: u64 },
}

/// The text of the error `r` carries; empty for a success.
pub open spec fn err_text<T>(r: Result<T, String>) -> Seq<char> {
    match r {
        Ok(_) => Seq::empty(),
        Err(e) => e@,
    }
}

/// Generic I2C bus interface. All addresses are 7-bit.
///
/// Each transaction method, bus recovery and each wait appends what it
/// carried out to `history`.
pub trait I2cBus: Send {
    /// The transactions, recoveries and waits this bus has carried, oldest
    /// first.
    spec fn history(&self) -> Seq<BusOp>;

    /// Write `data` to the slave at `addr` (an empty `data` is an address-only probe).
    fn write(&mut self, addr: u8, data: &[u8]) -> (r: Result<(), String>)
        ensures
            final(self).history() == old(self).history().push(
                BusOp::Write { addr, data: data@, ok: r is Ok, err: err_text(r) },
            ),
    ;

    /// Read `buf.len()` bytes from the slave at `addr`.
    fn read(&mut self, addr: u8, buf: &mut [u8]) -> (r: Result<(), String>)
        ensures
            final(buf)@.len() == old(buf)@.len(),
            final(self).history() == old(self).history().push(
                BusOp::Read { addr, reply: final(buf)@, ok: r is Ok, err: err_text(r) },
            ),
    ;

    /// Write `write_data`, then read `read_buf.len()` bytes (repeated START).
    fn write_read(&mut self, addr: u8, write_data: &[u8], read_buf: &mut [u8]) -> (r: Result<
        (),
        String,
    >)
        ensures
            final(read_buf)@.len() == old(read_buf)@.len(),
            final(self).history() == old(self).history().push(
                BusOp::WriteRead {
                    addr,
                    data: write_data@,
                    reply: final(read_buf)@,
                    ok: r is Ok,
                    err: err_text(r),
                },
            ),
    ;

    /// Free a slave that holds SDA low.
    fn bus_recovery(&mut self) -> (r: Result<(), String>)
        ensures
            final(self).history() == old(self).history().push(
                BusOp::Recovery { ok: r is Ok, err: err_text(r) },
            ),
    ;

    /// Wait `ms` milliseconds between transactions that the chip needs time
    /// for.
    fn delay_ms(&mut self, ms: u64)
        ensures
            final(self).history() == old(self).history().push(BusOp::Delay { ms }),
    ;
}

/// A boxed bus is a bus: each call goes to the bus inside.
impl<T: I2cBus + ?Sized> I2cBus for Box<T> {
    open spec fn history(&self) -> Seq<BusOp> {
        (**self).history()
    }

    fn write(&mut self, addr: u8, data: &[u8]) -> (r: Result<(), String>) {
        (**self).write(addr, data)
    }

    fn read(&mut self, addr: u8, buf: &mut [u8]) -> (r: Result<(), String>) {
        (**self).read(addr, buf)
    }

    fn write_read(&mut self, addr: u8, write_data: &[u8], read_buf: &mut [u8]) -> (r: Result<
        (),
        String,
    >) {
        (**self).write_read(addr, write_data, read_buf)
    }

    fn bus_recovery(&mut self) -> (r: Result<(), String>) {
        (**self).bus_recovery()
    }

    fn delay_ms(&mut self, ms: u64) {
        (**self).delay_ms(ms)
    }
}

} // verus!
