//! The CH34x/CH347 I2C bridge: framing of I2C transactions into the bridge's
//! stream transfers, and the clock-mode table.

pub mod linux_api;
pub mod windows_api;

use vstd::prelude::*;

use crate::bridges::i2c::{err_text, BusOp, I2cBus};

verus! {

/// The address byte that starts a write: the 7-bit address shifted left, R/W
/// bit 0 (the top bit of `addr` falls off, as `u8` shifting does).
pub open spec fn write_addr_byte(addr: u8) -> u8 {
    ((addr as int * 2) % 256) as u8
}

/// The address byte that starts a read: the write byte with the R/W bit set.
pub open spec fn read_addr_byte(addr: u8) -> u8 {
    (write_addr_byte(addr) + 1) as u8
}

pub fn encode_write_addr(addr: u8) -> (b: u8)
    ensures
        b == write_addr_byte(addr),
{
    assert(addr << 1u8 == ((addr as int * 2) % 256) as u8) by (bit_vector);
    addr << 1
}

pub fn encode_read_addr(addr: u8) -> (b: u8)
    ensures
        b == read_addr_byte(addr),
{
    assert((addr << 1u8) | 1u8 == (((addr as int * 2) % 256) + 1) as u8) by (bit_vector);
    (addr << 1) | 0x01
}

/// A 7-bit slave address comes back from its address bytes by dropping the
/// R/W bit, and the read byte differs from the write byte in that bit alone.
pub proof fn lemma_address_bytes(addr: u8)
    requires
        addr < 128,
    ensures
        write_addr_byte(addr) / 2 == addr,
        read_addr_byte(addr) / 2 == addr,
        write_addr_byte(addr) % 2 == 0,
        read_addr_byte(addr) % 2 == 1,
{
}

/// The CH347 I2C mode for a bus clock in Hz: 20 kHz, 50 kHz, 100 kHz,
/// 200 kHz, 400 kHz, 750 kHz or 1 MHz, by the range the clock falls in.
pub open spec fn clock_mode(clock_hz: u32) -> u32 {
    if clock_hz <= 35_000 {
        0x00
    } else if clock_hz <= 75_000 {
        0x04
    } else if clock_hz <= 150_000 {
        0x01
    } else if clock_hz <= 300_000 {
        0x05
    } else if clock_hz <= 600_000 {
        0x02
    } else if clock_hz <= 875_000 {
        0x03
    } else {
        0x06
    }
}

pub fn i2c_mode_for_clock(clock_hz: u32) -> (mode: u32)
    ensures
        mode == clock_mode(clock_hz),
{
    if clock_hz <= 35_000 {
        0x00
    } else if clock_hz <= 75_000 {
        0x04
    } else if clock_hz <= 150_000 {
        0x01
    } else if clock_hz <= 300_000 {
        0x05
    } else if clock_hz <= 600_000 {
        0x02
    } else if clock_hz <= 875_000 {
        0x03
    } else {
        0x06
    }
}

/// The stream transfers of an opened CH34x/CH347 device.
pub trait Ch347Transport: Send {
    /// Send `write_buf` (the address byte first) as one I2C stream.
    fn write_only(&mut self, write_buf: &mut [u8]) -> (r: Result<(), String>)
        ensures
            final(write_buf)@.len() == old(write_buf)@.len(),
    ;

    /// Send the address byte `read_addr`, then read `read_buf.len()` bytes.
    fn read_only(&mut self, read_addr: u8, read_buf: &mut [u8]) -> (r: Result<(), String>)
        ensures
            final(read_buf)@.len() == old(read_buf)@.len(),
    ;

    /// Block the calling thread for `ms` milliseconds.
    fn sleep_ms(&mut self, ms: u64);
}

/// The transport of a build without CH34x/CH347 support: every transfer fails.
pub struct Unavailable;

impl Ch347Transport for Unavailable {
    fn write_only(&mut self, write_buf: &mut [u8]) -> (r: Result<(), String>)
        ensures
            r matches Err(e) && e@ == "CH347F I2C write is unavailable on this build"@,
    {
        Err("CH347F I2C write is unavailable on this build".to_owned())
    }

    fn read_only(&mut self, read_addr: u8, read_buf: &mut [u8]) -> (r: Result<(), String>)
        ensures
            r matches Err(e) && e@ == "CH347F I2C read is unavailable on this build"@,
    {
        Err("CH347F I2C read is unavailable on this build".to_owned())
    }

    /// There is no device to wait for.
    fn sleep_ms(&mut self, ms: u64) {
    }
}

/// A transfer the bridge handed to its transport: a write stream (its bytes)
/// or a read (its address byte), with the transport's error text if the
/// transfer failed (`None` if it succeeded).
pub enum Frame {
    Write(Seq<u8>, Option<Seq<char>>),
    Read(u8, Option<Seq<char>>),
}

/// The error text of a transport result, `None` for a success.
pub open spec fn transfer_error(r: Result<(), String>) -> Option<Seq<char>> {
    match r {
        Ok(_) => None,
        Err(e) => Some(e@),
    }
}

/// The error a frame recorded.
pub open spec fn frame_error(f: Frame) -> Option<Seq<char>> {
    match f {
        Frame::Write(_, e) => e,
        Frame::Read(_, e) => e,
    }
}

/// `r` succeeds exactly when every frame of `f` succeeded, and otherwise
/// carries the error of the last frame, the one that failed.
pub open spec fn frames_result(f: Seq<Frame>, r: Result<(), String>) -> bool {
    &&& (r is Ok <==> forall|i: int| 0 <= i < f.len() ==> (#[trigger] frame_error(f[i])) is None)
    &&& r matches Err(e) ==> f.len() > 0 && frame_error(f.last()) == Some(e@)
}

/// The frames of a write-then-read of `data` and `n` bytes at `addr`: a write
/// stream if `data` is not empty, then, if that succeeded (or there was
/// none), a read if `n` is not zero.
pub open spec fn write_read_frames(f: Seq<Frame>, addr: u8, data: Seq<u8>, n: nat) -> bool {
    if data.len() > 0 {
        &&& f.len() >= 1
        &&& f[0] matches Frame::Write(b, o) && b == seq![write_addr_byte(addr)] + data
        &&& if frame_error(f[0]) is Some || n == 0 {
            f.len() == 1
        } else {
            f.len() == 2 && (f[1] matches Frame::Read(a, _) && a == read_addr_byte(addr))
        }
    } else if n > 0 {
        f.len() == 1 && (f[0] matches Frame::Read(a, _) && a == read_addr_byte(addr))
    } else {
        f.len() == 0
    }
}

/// A CH34x/CH347 I2C bridge over the transport `T`.
pub struct Ch347I2cBus<T> {
    bus_recovery_logged: bool,
    transport: T,
    log: Ghost<Seq<BusOp>>,
    frames: Ghost<Seq<Frame>>,
}

/// The message of a build without CH34x/CH347 support.
pub open spec fn not_compiled_in() -> Seq<char> {
    "CH347F support not compiled in. Rebuild with --features ch347f"@
}

impl Ch347I2cBus<Unavailable> {
    /// Enumerate the bridges; this build has no CH34x/CH347 support.
    pub fn list_devices() -> (r: Result<Vec<(u32, String)>, String>)
        ensures
            r matches Err(e) && e@ == not_compiled_in(),
    {
        Err("CH347F support not compiled in. Rebuild with --features ch347f".to_owned())
    }

    /// Open a bridge; this build has no CH34x/CH347 support.
    pub fn open(index: u32, clock_hz: u32) -> (r: Result<Self, String>)
        ensures
            r matches Err(e) && e@ == not_compiled_in(),
    {
        Err("CH347F support not compiled in. Rebuild with --features ch347f".to_owned())
    }
}

impl<T: Ch347Transport> Ch347I2cBus<T> {
    /// The transfers started so far, oldest first.
    pub closed spec fn sent(&self) -> Seq<Frame> {
        self.frames@
    }

    /// Whether the bus-recovery notice has been given.
    pub closed spec fn recovery_noticed(&self) -> bool {
        self.bus_recovery_logged
    }

    /// A bridge over an opened transport.
    pub fn with_transport(transport: T) -> (b: Self)
        ensures
            b.history() == Seq::<BusOp>::empty(),
            b.sent() == Seq::<Frame>::empty(),
            !b.recovery_noticed(),
    {
        Ch347I2cBus {
            bus_recovery_logged: false,
            transport,
            log: Ghost(Seq::empty()),
            frames: Ghost(Seq::empty()),
        }
    }

    fn stream_write_only(&mut self, write_buf: &mut [u8]) -> (r: Result<(), String>)
        ensures
            final(self).history() == old(self).history(),
            final(self).sent() == old(self).sent().push(
                Frame::Write(old(write_buf)@, transfer_error(r)),
            ),
            final(self).recovery_noticed() == old(self).recovery_noticed(),
    {
        let ghost bytes = write_buf@;
        let r = self.transport.write_only(write_buf);
        self.frames = Ghost(self.frames@.push(Frame::Write(bytes, transfer_error(r))));
        r
    }

    fn stream_read_only(&mut self, addr: u8, read_buf: &mut [u8]) -> (r: Result<(), String>)
        ensures
            final(read_buf)@.len() == old(read_buf)@.len(),
            final(self).history() == old(self).history(),
            final(self).sent() == old(self).sent().push(
                Frame::Read(read_addr_byte(addr), transfer_error(r)),
            ),
            final(self).recovery_noticed() == old(self).recovery_noticed(),
    {
        let read_addr = encode_read_addr(addr);
        let r = self.transport.read_only(read_addr, read_buf);
        self.frames = Ghost(self.frames@.push(Frame::Read(read_addr, transfer_error(r))));
        r
    }

    /// The write stream for `data` to `addr`: the write address byte, then `data`.
    fn write_frame(addr: u8, data: &[u8]) -> (v: Vec<u8>)
        ensures
            v@ == seq![write_addr_byte(addr)] + data@,
    {
        let mut v: Vec<u8> = Vec::new();
        v.push(encode_write_addr(addr));
        let mut i: usize = 0;
        while i < data.len()
            invariant
                i <= data@.len(),
                v@ == seq![write_addr_byte(addr)] + data@.take(i as int),
            decreases data@.len() - i,
        {
            v.push(data[i]);
            i = i + 1;
            assert(v@ =~= seq![write_addr_byte(addr)] + data@.take(i as int));
        }
        assert(data@.take(i as int) =~= data@);
        v
    }
}

impl<T: Ch347Transport> I2cBus for Ch347I2cBus<T> {
    closed spec fn history(&self) -> Seq<BusOp> {
        self.log@
    }

    /// One write stream: the write address byte, then `data`.
    fn write(&mut self, addr: u8, data: &[u8]) -> (r: Result<(), String>)
        ensures
            final(self).sent() == old(self).sent().push(
                Frame::Write(seq![write_addr_byte(addr)] + data@, transfer_error(r)),
            ),
            final(self).recovery_noticed() == old(self).recovery_noticed(),
    {
        let mut write_buf = Self::write_frame(addr, data);
        let r = self.stream_write_only(write_buf.as_mut_slice());
        self.log = Ghost(self.log@.push(BusOp::Write { addr, data: data@, ok: r is Ok, err: err_text(r) }));
        r
    }

    /// A read of nothing succeeds without a transfer; otherwise one read.
    fn read(&mut self, addr: u8, buf: &mut [u8]) -> (r: Result<(), String>)
        ensures
            old(buf)@.len() == 0 ==> r is Ok && final(self).sent() == old(self).sent(),
            old(buf)@.len() > 0 ==> final(self).sent() == old(self).sent().push(
                Frame::Read(read_addr_byte(addr), transfer_error(r)),
            ),
            final(self).recovery_noticed() == old(self).recovery_noticed(),
    {
        if buf.len() == 0 {
            self.log = Ghost(self.log@.push(BusOp::Read { addr, reply: buf@, ok: true, err: Seq::empty() }));
            return Ok(());
        }
        let r = self.stream_read_only(addr, buf);
        self.log = Ghost(self.log@.push(BusOp::Read { addr, reply: buf@, ok: r is Ok, err: err_text(r) }));
        r
    }

    /// A write stream for `write_data` if there is any, then, if it succeeded,
    /// a read if `read_buf` is not empty.
    fn write_read(&mut self, addr: u8, write_data: &[u8], read_buf: &mut [u8]) -> (r: Result<
        (),
        String,
    >)
        ensures
            final(self).sent().len() >= old(self).sent().len(),
            final(self).sent().take(old(self).sent().len() as int) == old(self).sent(),
            write_read_frames(
                final(self).sent().skip(old(self).sent().len() as int),
                addr,
                write_data@,
                old(read_buf)@.len(),
            ),
            frames_result(final(self).sent().skip(old(self).sent().len() as int), r),
            final(self).recovery_noticed() == old(self).recovery_noticed(),
    {
        let ghost f0 = self.frames@;
        if write_data.len() > 0 {
            let mut write_buf = Self::write_frame(addr, write_data);
            let w = self.stream_write_only(write_buf.as_mut_slice());
            proof {
                assert(self.frames@.take(f0.len() as int) =~= f0);
                assert(self.frames@.skip(f0.len() as int) =~= seq![self.frames@.last()]);
            }
            if let Err(e) = w {
                self.log = Ghost(
                    self.log@.push(
                        BusOp::WriteRead {
                            addr,
                            data: write_data@,
                            reply: read_buf@,
                            ok: false,
                            err: e@,
                        },
                    ),
                );
                return Err(e);
            }
        }
        let ghost f1 = self.frames@;
        if read_buf.len() > 0 {
            let rd = self.stream_read_only(addr, read_buf);
            proof {
                assert(self.frames@.take(f0.len() as int) =~= f0);
                assert(self.frames@.skip(f0.len() as int) =~= f1.skip(f0.len() as int).push(
                    self.frames@.last(),
                ));
            }
            if let Err(e) = rd {
                self.log = Ghost(
                    self.log@.push(
                        BusOp::WriteRead {
                            addr,
                            data: write_data@,
                            reply: read_buf@,
                            ok: false,
                            err: e@,
                        },
                    ),
                );
                return Err(e);
            }
        }
        proof {
            assert(self.frames@.take(f0.len() as int) =~= f0);
        }
        self.log = Ghost(
            self.log@.push(
                BusOp::WriteRead {
                    addr,
                    data: write_data@,
                    reply: read_buf@,
                    ok: true,
                    err: Seq::empty(),
                },
            ),
        );
        Ok(())
    }

    /// Bus recovery is a no-op on this bridge; the first call notes it.
    fn bus_recovery(&mut self) -> (r: Result<(), String>)
        ensures
            r is Ok,
            final(self).sent() == old(self).sent(),
            final(self).recovery_noticed(),
    {
        if !self.bus_recovery_logged {
            self.bus_recovery_logged = true;
        }
        self.log = Ghost(self.log@.push(BusOp::Recovery { ok: true, err: Seq::empty() }));
        Ok(())
    }

    /// Sleep on the transport for `ms` milliseconds; no transfer is made.
    fn delay_ms(&mut self, ms: u64)
        ensures
            final(self).sent() == old(self).sent(),
            final(self).recovery_noticed() == old(self).recovery_noticed(),
    {
        self.transport.sleep_ms(ms);
        self.log = Ghost(self.log@.push(BusOp::Delay { ms }));
    }
}

} // verus!
