//! The FTDI MPSSE I2C bridge: which FTDI devices serve as I2C bridges and at
//! which clocks, the MPSSE command sequences for the I2C bus conditions, and
//! the I2C transactions run over an opened MPSSE port.

use vstd::prelude::*;

use ftdi_mpsse::{ClockBitsIn, ClockBitsOut, ClockDataOut, MpsseCmdBuilder};

use crate::bridges::i2c::{err_text, BusOp, I2cBus};
use crate::bridges::ch347f::i2c::{read_addr_byte, write_addr_byte};
use crate::text::{concat, decimal, hex2, push_decimal, push_hex2, push_str, with_hex2};

verus! {

/// The FTDI device types (as the FTDI driver reports them).
#[allow(non_camel_case_types)]
#[derive(Debug, Clone, Copy, PartialEq, Eq, Structural)]
pub enum FtdiDeviceType {
    FTBM,
    FTAM,
    FT100AX,
    Unknown,
    FT2232C,
    FT232R,
    FT2232H,
    FT4232H,
    FT232H,
    FT_X_SERIES,
    FT4222H_0,
    FT4222H_1_2,
    FT4222H_3,
    FT4222_PROG,
    FT900,
    FT930,
    FTUMFTPD3A,
    FT2233HP,
    FT4233HP,
    FT2232HP,
    FT4232HP,
    FT233HP,
    FT232HP,
    FT2232HA,
    FT4232HA,
}

impl FtdiDeviceType {
    /// The type's name, as the driver's types print.
    pub open spec fn name_of(self) -> &'static str {
        match self {
            FtdiDeviceType::FTBM => "FTBM",
            FtdiDeviceType::FTAM => "FTAM",
            FtdiDeviceType::FT100AX => "FT100AX",
            FtdiDeviceType::Unknown => "Unknown",
            FtdiDeviceType::FT2232C => "FT2232C",
            FtdiDeviceType::FT232R => "FT232R",
            FtdiDeviceType::FT2232H => "FT2232H",
            FtdiDeviceType::FT4232H => "FT4232H",
            FtdiDeviceType::FT232H => "FT232H",
            FtdiDeviceType::FT_X_SERIES => "FT_X_SERIES",
            FtdiDeviceType::FT4222H_0 => "FT4222H_0",
            FtdiDeviceType::FT4222H_1_2 => "FT4222H_1_2",
            FtdiDeviceType::FT4222H_3 => "FT4222H_3",
            FtdiDeviceType::FT4222_PROG => "FT4222_PROG",
            FtdiDeviceType::FT900 => "FT900",
            FtdiDeviceType::FT930 => "FT930",
            FtdiDeviceType::FTUMFTPD3A => "FTUMFTPD3A",
            FtdiDeviceType::FT2233HP => "FT2233HP",
            FtdiDeviceType::FT4233HP => "FT4233HP",
            FtdiDeviceType::FT2232HP => "FT2232HP",
            FtdiDeviceType::FT4232HP => "FT4232HP",
            FtdiDeviceType::FT233HP => "FT233HP",
            FtdiDeviceType::FT232HP => "FT232HP",
            FtdiDeviceType::FT2232HA => "FT2232HA",
            FtdiDeviceType::FT4232HA => "FT4232HA",
        }
    }

    pub fn name(self) -> (r: &'static str)
        ensures
            r == self.name_of(),
    {
        match self {
            FtdiDeviceType::FTBM => "FTBM",
            FtdiDeviceType::FTAM => "FTAM",
            FtdiDeviceType::FT100AX => "FT100AX",
            FtdiDeviceType::Unknown => "Unknown",
            FtdiDeviceType::FT2232C => "FT2232C",
            FtdiDeviceType::FT232R => "FT232R",
            FtdiDeviceType::FT2232H => "FT2232H",
            FtdiDeviceType::FT4232H => "FT4232H",
            FtdiDeviceType::FT232H => "FT232H",
            FtdiDeviceType::FT_X_SERIES => "FT_X_SERIES",
            FtdiDeviceType::FT4222H_0 => "FT4222H_0",
            FtdiDeviceType::FT4222H_1_2 => "FT4222H_1_2",
            FtdiDeviceType::FT4222H_3 => "FT4222H_3",
            FtdiDeviceType::FT4222_PROG => "FT4222_PROG",
            FtdiDeviceType::FT900 => "FT900",
            FtdiDeviceType::FT930 => "FT930",
            FtdiDeviceType::FTUMFTPD3A => "FTUMFTPD3A",
            FtdiDeviceType::FT2233HP => "FT2233HP",
            FtdiDeviceType::FT4233HP => "FT4233HP",
            FtdiDeviceType::FT2232HP => "FT2232HP",
            FtdiDeviceType::FT4232HP => "FT4232HP",
            FtdiDeviceType::FT233HP => "FT233HP",
            FtdiDeviceType::FT232HP => "FT232HP",
            FtdiDeviceType::FT2232HA => "FT2232HA",
            FtdiDeviceType::FT4232HA => "FT4232HA",
        }
    }
}

/// The devices with an MPSSE that can drive I2C: FT232H, FT2232H, FT2232C,
/// FT4232H and FT4232HA.
pub open spec fn is_i2c_bridge(t: FtdiDeviceType) -> bool {
    t == FtdiDeviceType::FT232H || t == FtdiDeviceType::FT2232H || t == FtdiDeviceType::FT2232C
        || t == FtdiDeviceType::FT4232H || t == FtdiDeviceType::FT4232HA
}

/// The bridges with three-phase data clocking: the high-speed ones.
pub open spec fn has_3phase_clocking(t: FtdiDeviceType) -> bool {
    t == FtdiDeviceType::FT232H || t == FtdiDeviceType::FT2232H || t == FtdiDeviceType::FT4232H
        || t == FtdiDeviceType::FT4232HA
}

pub fn is_supported_ftdi_bridge(device_type: FtdiDeviceType) -> (b: bool)
    ensures
        b == is_i2c_bridge(device_type),
{
    match device_type {
        FtdiDeviceType::FT232H | FtdiDeviceType::FT2232H | FtdiDeviceType::FT2232C
        | FtdiDeviceType::FT4232H | FtdiDeviceType::FT4232HA => true,
        _ => false,
    }
}

pub fn supports_3phase_clocking(device_type: FtdiDeviceType) -> (b: bool)
    ensures
        b == has_3phase_clocking(device_type),
{
    match device_type {
        FtdiDeviceType::FT232H | FtdiDeviceType::FT2232H | FtdiDeviceType::FT4232H
        | FtdiDeviceType::FT4232HA => true,
        _ => false,
    }
}

/// The highest MPSSE clock of a bridge: 6 MHz on the FT2232C, 30 MHz on the
/// high-speed bridges; no other device is a bridge.
pub open spec fn max_clock(t: FtdiDeviceType) -> Option<u32> {
    if t == FtdiDeviceType::FT2232C {
        Some(6_000_000)
    } else if has_3phase_clocking(t) {
        Some(30_000_000)
    } else {
        None
    }
}

/// The MPSSE clock setting for `frequency` on `t`: the divisor of the base
/// clock and whether to divide the 60 MHz clock by 5 (`None` on the FT2232C,
/// whose base clock is 12 MHz); an error for other devices and for clocks
/// outside 92 Hz up to the device's maximum.
pub open spec fn clock_setting(t: FtdiDeviceType, frequency: u32) -> Result<(u32, Option<bool>), Seq<char>> {
    match max_clock(t) {
        None => Err("Unsupported FTDI bridge "@ + t.name_of()@),
        Some(max) => if frequency < 92 || frequency > max {
            Err("FTDI "@ + t.name_of()@ + " clock "@ + decimal(frequency as nat) + "Hz is outside supported range 92..="@
                + decimal(max as nat) + "Hz"@)
        } else if t == FtdiDeviceType::FT2232C {
            Ok(((6_000_000u32 / frequency - 1) as u32, None))
        } else if frequency <= 6_000_000 {
            Ok(((6_000_000u32 / frequency - 1) as u32, Some(true)))
        } else {
            Ok(((30_000_000u32 / frequency - 1) as u32, Some(false)))
        },
    }
}

pub fn clock_divisor(device_type: FtdiDeviceType, frequency: u32) -> (r: Result<(u32, Option<bool>), String>)
    ensures
        match clock_setting(device_type, frequency) {
            Ok(v) => r == Ok::<(u32, Option<bool>), String>(v),
            Err(m) => r matches Err(e) && e@ == m,
        },
{
    let max: u32 = match device_type {
        FtdiDeviceType::FT2232C => 6_000_000,
        FtdiDeviceType::FT232H | FtdiDeviceType::FT2232H | FtdiDeviceType::FT4232H
        | FtdiDeviceType::FT4232HA => 30_000_000,
        _ => {
            let mut e = "Unsupported FTDI bridge ".to_owned();
            push_str(&mut e, device_type.name());
            return Err(e);
        },
    };
    if frequency < 92 || frequency > max {
        let mut e = "FTDI ".to_owned();
        push_str(&mut e, device_type.name());
        push_str(&mut e, " clock ");
        push_decimal(&mut e, frequency);
        push_str(&mut e, "Hz is outside supported range 92..=");
        push_decimal(&mut e, max);
        push_str(&mut e, "Hz");
        return Err(e);
    }
    if device_type == FtdiDeviceType::FT2232C || frequency <= 6_000_000 {
        assert(6_000_000u32 / frequency >= 1) by (nonlinear_arith)
            requires
                92 <= frequency <= 6_000_000,
        ;
    } else {
        assert(30_000_000u32 / frequency >= 1) by (nonlinear_arith)
            requires
                6_000_000 < frequency <= 30_000_000,
        ;
    }
    if device_type == FtdiDeviceType::FT2232C {
        Ok((6_000_000 / frequency - 1, None))
    } else if frequency <= 6_000_000 {
        Ok((6_000_000 / frequency - 1, Some(true)))
    } else {
        Ok((30_000_000 / frequency - 1, Some(false)))
    }
}

/// What the driver lists of a device: whether it is open elsewhere, its type,
/// serial number and description.
pub struct FtdiDeviceInfo {
    pub port_open: bool,
    pub device_type: FtdiDeviceType,
    pub serial_number: String,
    pub description: String,
}

/// The listing text of device `index`: its type, then its description and
/// serial number as far as they are known, or its index if neither is.
pub open spec fn listing(index: nat, t: FtdiDeviceType, serial: Seq<char>, description: Seq<char>) -> Seq<char> {
    if serial.len() == 0 && description.len() == 0 {
        t.name_of()@ + " #"@ + decimal(index)
    } else if description.len() == 0 {
        t.name_of()@ + " ("@ + serial + ")"@
    } else {
        t.name_of()@ + " "@ + description + " ("@ + serial + ")"@
    }
}

/// The bridges among listed devices: each device not open elsewhere and able
/// to drive I2C, with its index in the listing and its listing text.
pub open spec fn bridges_of(devices: Seq<FtdiDeviceInfo>) -> Seq<(u32, Seq<char>)>
    decreases devices.len(),
{
    if devices.len() == 0 {
        Seq::empty()
    } else {
        let rest = bridges_of(devices.drop_last());
        let i = devices.len() - 1;
        let d = devices.last();
        if d.port_open || !is_i2c_bridge(d.device_type) {
            rest
        } else {
            rest.push((i as u32, listing(i as nat, d.device_type, d.serial_number@, d.description@)))
        }
    }
}

/// The I2C bridges among the devices the driver listed, with their listing
/// texts.
pub fn supported_devices(devices: &Vec<FtdiDeviceInfo>) -> (r: Vec<(u32, String)>)
    requires
        devices@.len() <= u32::MAX,
    ensures
        r@.len() == bridges_of(devices@).len(),
        forall|k: int|
            0 <= k < r@.len() ==> (#[trigger] r@[k]).0 == bridges_of(devices@)[k].0 && r@[k].1@
                == bridges_of(devices@)[k].1,
{
    let mut r: Vec<(u32, String)> = Vec::new();
    let mut i: usize = 0;
    while i < devices.len()
        invariant
            i <= devices@.len() <= u32::MAX,
            r@.len() == bridges_of(devices@.take(i as int)).len(),
            forall|k: int|
                0 <= k < r@.len() ==> (#[trigger] r@[k]).0 == bridges_of(devices@.take(i as int))[k].0
                    && r@[k].1@ == bridges_of(devices@.take(i as int))[k].1,
        decreases devices@.len() - i,
    {
        let d = &devices[i];
        assert(devices@.take(i + 1).drop_last() =~= devices@.take(i as int));
        assert(devices@.take(i + 1).last() == devices@[i as int]);
        if !d.port_open && is_supported_ftdi_bridge(d.device_type) {
            let mut desc = d.device_type.name().to_owned();
            if d.serial_number.as_str().is_empty() && d.description.as_str().is_empty() {
                push_str(&mut desc, " #");
                push_decimal(&mut desc, i as u32);
            } else if d.description.as_str().is_empty() {
                push_str(&mut desc, " (");
                push_str(&mut desc, d.serial_number.as_str());
                push_str(&mut desc, ")");
            } else {
                push_str(&mut desc, " ");
                push_str(&mut desc, d.description.as_str());
                push_str(&mut desc, " (");
                push_str(&mut desc, d.serial_number.as_str());
                push_str(&mut desc, ")");
            }
            r.push((i as u32, desc));
        }
        i = i + 1;
    }
    assert(devices@.take(i as int) =~= devices@);
    r
}

/// The error for a device that is not an I2C bridge.
pub fn check_supported(device_type: FtdiDeviceType) -> (r: Result<(), String>)
    ensures
        is_i2c_bridge(device_type) ==> r is Ok,
        !is_i2c_bridge(device_type) ==> (r matches Err(e) && e@ == "Unsupported FTDI bridge "@
            + device_type.name_of()@ + "; supported: FT232H, FT2232H, FT2232C, FT4232H/HA"@),
{
    if is_supported_ftdi_bridge(device_type) {
        Ok(())
    } else {
        let mut e = "Unsupported FTDI bridge ".to_owned();
        push_str(&mut e, device_type.name());
        push_str(&mut e, "; supported: FT232H, FT2232H, FT2232C, FT4232H/HA");
        Err(e)
    }
}

// ---------------------------------------------------------------------------
// MPSSE command sequences
// ---------------------------------------------------------------------------

/// `ftdi_mpsse::MpsseCmdBuilder`, a growing MPSSE command sequence.
#[verifier::external_type_specification]
#[verifier::external_body]
pub struct ExMpsseCmdBuilder(MpsseCmdBuilder);

/// The bytes an MPSSE command builder holds.
pub uninterp spec fn command_bytes(b: MpsseCmdBuilder) -> Seq<u8>;

/// `MpsseCmdBuilder::new`: claimed to hold no bytes.
#[verifier::external_body]
fn cmd_new() -> (b: MpsseCmdBuilder)
    ensures
        command_bytes(b) == Seq::<u8>::empty(),
{
    MpsseCmdBuilder::new()
}

/// `MpsseCmdBuilder::set_gpio_lower`: claimed to append `0x80, state,
/// direction`.
#[verifier::external_body]
fn cmd_set_gpio_lower(b: MpsseCmdBuilder, state: u8, direction: u8) -> (r: MpsseCmdBuilder)
    ensures
        command_bytes(r) == command_bytes(b) + seq![0x80u8, state, direction],
{
    b.set_gpio_lower(state, direction)
}

/// `MpsseCmdBuilder::send_immediate`: claimed to append `0x87`.
#[verifier::external_body]
fn cmd_send_immediate(b: MpsseCmdBuilder) -> (r: MpsseCmdBuilder)
    ensures
        command_bytes(r) == command_bytes(b).push(0x87u8),
{
    b.send_immediate()
}

/// `MpsseCmdBuilder::enable_3phase_data_clocking`: claimed to append `0x8C`.
#[verifier::external_body]
fn cmd_enable_3phase(b: MpsseCmdBuilder) -> (r: MpsseCmdBuilder)
    ensures
        command_bytes(r) == command_bytes(b).push(0x8Cu8),
{
    b.enable_3phase_data_clocking()
}

/// `MpsseCmdBuilder::enable_loopback`: claimed to append `0x84`.
#[verifier::external_body]
fn cmd_enable_loopback(b: MpsseCmdBuilder) -> (r: MpsseCmdBuilder)
    ensures
        command_bytes(r) == command_bytes(b).push(0x84u8),
{
    b.enable_loopback()
}

/// `MpsseCmdBuilder::disable_loopback`: claimed to append `0x85`.
#[verifier::external_body]
fn cmd_disable_loopback(b: MpsseCmdBuilder) -> (r: MpsseCmdBuilder)
    ensures
        command_bytes(r) == command_bytes(b).push(0x85u8),
{
    b.disable_loopback()
}

/// The bytes `MpsseCmdBuilder::set_clock` appends: `0x8B` (divide by 5) or
/// `0x8A` (do not) if the divider is given, then `0x86` and the divisor's two
/// low bytes, low first.
pub open spec fn set_clock_bytes(divisor: u32, clkdiv: Option<bool>) -> Seq<u8> {
    let prefix = match clkdiv {
        Some(true) => seq![0x8Bu8],
        Some(false) => seq![0x8Au8],
        None => Seq::empty(),
    };
    prefix + seq![0x86u8, (divisor % 256) as u8, ((divisor / 256) % 256) as u8]
}

/// `MpsseCmdBuilder::set_clock`: claimed to append `set_clock_bytes`.
#[verifier::external_body]
fn cmd_set_clock(b: MpsseCmdBuilder, divisor: u32, clkdiv: Option<bool>) -> (r: MpsseCmdBuilder)
    ensures
        command_bytes(r) == command_bytes(b) + set_clock_bytes(divisor, clkdiv),
{
    b.set_clock(divisor, clkdiv)
}

/// `MpsseCmdBuilder::clock_data_out` in mode `MsbNeg` (`0x11`) with one byte:
/// claimed to append `0x11, 0x00, 0x00, byte` (the length less one, low byte
/// first, then the data).
#[verifier::external_body]
fn cmd_clock_byte_out(b: MpsseCmdBuilder, byte: u8) -> (r: MpsseCmdBuilder)
    ensures
        command_bytes(r) == command_bytes(b) + seq![0x11u8, 0x00u8, 0x00u8, byte],
{
    b.clock_data_out(ClockDataOut::MsbNeg, &[byte])
}

/// `MpsseCmdBuilder::clock_bits_in` in mode `MsbPos` (`0x22`): claimed to
/// append `0x22, len - 1` (nothing for `len` 0; it panics above 8).
#[verifier::external_body]
fn cmd_clock_bits_in(b: MpsseCmdBuilder, len: u8) -> (r: MpsseCmdBuilder)
    requires
        len <= 8,
    ensures
        command_bytes(r) == command_bytes(b) + if len == 0 {
            Seq::<u8>::empty()
        } else {
            seq![0x22u8, (len - 1) as u8]
        },
{
    b.clock_bits_in(ClockBitsIn::MsbPos, len)
}

/// `MpsseCmdBuilder::clock_bits_out` in mode `MsbNeg` (`0x13`): claimed to
/// append `0x13, len - 1, data` (nothing for `len` 0; it panics above 8).
#[verifier::external_body]
fn cmd_clock_bits_out(b: MpsseCmdBuilder, data: u8, len: u8) -> (r: MpsseCmdBuilder)
    requires
        len <= 8,
    ensures
        command_bytes(r) == command_bytes(b) + if len == 0 {
            Seq::<u8>::empty()
        } else {
            seq![0x13u8, (len - 1) as u8, data]
        },
{
    b.clock_bits_out(ClockBitsOut::MsbNeg, data, len)
}

/// `MpsseCmdBuilder::as_slice`: claimed to give the bytes held.
#[verifier::external_body]
fn cmd_as_slice(b: &MpsseCmdBuilder) -> (r: &[u8])
    ensures
        r@ == command_bytes(*b),
{
    b.as_slice()
}

/// The command of an I2C START: SDA falls while SCL is high (idle, SDA low,
/// SCL low), sent at once.
pub open spec fn start_cmd() -> Seq<u8> {
    seq![0x80u8, 0x03, 0x03, 0x80, 0x01, 0x03, 0x80, 0x00, 0x03, 0x87]
}

/// The command of an I2C STOP: SDA rises while SCL is high.
pub open spec fn stop_cmd() -> Seq<u8> {
    seq![0x80u8, 0x00, 0x03, 0x80, 0x01, 0x03, 0x80, 0x03, 0x03, 0x87]
}

/// The command writing `byte` (MSB first, on the falling edge), then
/// releasing SDA and clocking in the acknowledge bit.
pub open spec fn write_byte_cmd(byte: u8) -> Seq<u8> {
    seq![0x11u8, 0x00, 0x00, byte, 0x80, 0x00, 0x01, 0x22, 0x00, 0x80, 0x00, 0x03, 0x87]
}

/// The command reading one byte (MSB first, on the rising edge), then
/// clocking out an acknowledge (`send_ack`) or a not-acknowledge.
pub open spec fn read_byte_cmd(send_ack: bool) -> Seq<u8> {
    seq![
        0x80u8,
        0x00,
        0x01,
        0x22,
        0x07,
        0x80,
        0x00,
        0x03,
        0x13,
        0x00,
        if send_ack {
            0x00u8
        } else {
            0xFFu8
        },
        0x87,
    ]
}

/// Nine SCL pulses with SDA released.
pub open spec fn recovery_pulses(n: nat) -> Seq<u8>
    decreases n,
{
    if n == 0 {
        Seq::empty()
    } else {
        recovery_pulses((n - 1) as nat) + seq![0x80u8, 0x01, 0x01, 0x80, 0x00, 0x01]
    }
}

/// The bus recovery command: release SDA, nine SCL pulses, then a STOP.
pub open spec fn recovery_cmd() -> Seq<u8> {
    seq![0x80u8, 0x00, 0x01] + recovery_pulses(9) + seq![
        0x80u8,
        0x00,
        0x03,
        0x80,
        0x01,
        0x03,
        0x80,
        0x03,
        0x03,
        0x87,
    ]
}

/// The I2C pin configuration command: three-phase clocking where the bridge
/// has it, SCL and SDA high as outputs, sent at once.
pub open spec fn config_cmd(three_phase: bool) -> Seq<u8> {
    (if three_phase {
        seq![0x8Cu8]
    } else {
        Seq::empty()
    }) + seq![0x80u8, 0x03, 0x03, 0x87]
}

/// One operation on an MPSSE port, as the bridge carried it out: a command
/// sent, bytes read, or the receive buffer purged, each with the port's error
/// if it failed.
pub enum Wire {
    Sent { bytes: Seq<u8>, err: Option<Seq<char>> },
    Received { bytes: Seq<u8>, err: Option<Seq<char>> },
    Purged { err: Option<Seq<char>> },
    Configured { err: Option<Seq<char>> },
}

/// The byte channel to an opened FTDI device in MPSSE mode.
pub trait MpssePort: Send {
    /// Write all of `bytes`.
    fn write_all(&mut self, bytes: &[u8]) -> Result<(), String>;

    /// Fill `buf`.
    fn read_all(&mut self, buf: &mut [u8]) -> Result<(), String>;

    /// Discard what the receive buffer holds.
    fn purge_rx(&mut self) -> Result<(), String>;

    /// Put the device into MPSSE mode with the default MPSSE settings: reset
    /// it, purge its receive buffer, set the USB transfer size, the event
    /// characters, the timeouts, the latency timer and RTS/CTS flow control,
    /// then reset the bit mode and select MPSSE.
    fn configure(&mut self) -> Result<(), String>;

    /// Block the calling thread for `ms` milliseconds.
    fn sleep_ms(&mut self, ms: u64);
}

/// One step of an I2C transaction.
#[derive(Clone, Copy)]
pub enum Step {
    Start,
    Stop,
    WriteByte(u8),
    ReadByte(bool),
}

/// How a run of steps ended: all done (with the bytes read), a written byte
/// not acknowledged (at the step's index, after a STOP), or a port failure
/// (with the message and the bytes read before it); `Garbled` if the events
/// are not those the steps issue.
pub enum Outcome {
    Done(Seq<u8>),
    Nacked(nat),
    Failed(Seq<char>, Seq<u8>),
    Garbled,
}

/// `w` sent `cmd`.
pub open spec fn sent_cmd(w: Wire, cmd: Seq<u8>) -> bool {
    w matches Wire::Sent { bytes, .. } && bytes == cmd
}

/// `w` read `n` bytes.
pub open spec fn received_len(w: Wire, n: nat) -> bool {
    w matches Wire::Received { bytes, .. } && bytes.len() == n
}

/// The port's error in `w`.
pub open spec fn err_of(w: Wire) -> Option<Seq<char>> {
    match w {
        Wire::Sent { err, .. } => err,
        Wire::Received { err, .. } => err,
        Wire::Purged { err } => err,
        Wire::Configured { err } => err,
    }
}

/// The bytes read in `w`.
pub open spec fn bytes_of(w: Wire) -> Seq<u8> {
    match w {
        Wire::Received { bytes, .. } => bytes,
        _ => Seq::empty(),
    }
}

/// Running `steps`, the first being step `idx` of its transaction, on the
/// events `w` from their start, with `acc` read so far: how many events the
/// steps take and how they end. A written byte whose acknowledge bit reads 1
/// is not acknowledged; a STOP follows it and the run ends.
pub open spec fn run(w: Seq<Wire>, steps: Seq<Step>, idx: nat, acc: Seq<u8>) -> (nat, Outcome)
    decreases steps.len(),
{
    if steps.len() == 0 {
        (0, Outcome::Done(acc))
    } else if w.len() == 0 {
        (0, Outcome::Garbled)
    } else {
        let rest = steps.drop_first();
        match steps[0] {
            Step::Start => if !sent_cmd(w[0], start_cmd()) {
                (0, Outcome::Garbled)
            } else {
                match err_of(w[0]) {
                    Some(e) => (1, Outcome::Failed("I2C START failed: "@ + e, acc)),
                    None => {
                        let (n, o) = run(w.skip(1), rest, idx + 1, acc);
                        (n + 1, o)
                    },
                }
            },
            Step::Stop => if !sent_cmd(w[0], stop_cmd()) {
                (0, Outcome::Garbled)
            } else {
                match err_of(w[0]) {
                    Some(e) => (1, Outcome::Failed("I2C STOP failed: "@ + e, acc)),
                    None => {
                        let (n, o) = run(w.skip(1), rest, idx + 1, acc);
                        (n + 1, o)
                    },
                }
            },
            Step::WriteByte(b) => if !sent_cmd(w[0], write_byte_cmd(b)) {
                (0, Outcome::Garbled)
            } else {
                match err_of(w[0]) {
                    Some(e) => (1, Outcome::Failed("I2C write byte MPSSE failed: "@ + e, acc)),
                    None => if w.len() < 2 || !received_len(w[1], 1) {
                        (0, Outcome::Garbled)
                    } else {
                        match err_of(w[1]) {
                            Some(e) => (2, Outcome::Failed("I2C read ACK failed: "@ + e, acc)),
                            None => if bytes_of(w[1])[0] & 1 == 0 {
                                let (n, o) = run(w.skip(2), rest, idx + 1, acc);
                                (n + 2, o)
                            } else if w.len() < 3 || !sent_cmd(w[2], stop_cmd()) {
                                (0, Outcome::Garbled)
                            } else {
                                match err_of(w[2]) {
                                    Some(e) => (3, Outcome::Failed("I2C STOP failed: "@ + e, acc)),
                                    None => (3, Outcome::Nacked(idx)),
                                }
                            },
                        }
                    },
                }
            },
            Step::ReadByte(a) => if !sent_cmd(w[0], read_byte_cmd(a)) {
                (0, Outcome::Garbled)
            } else {
                match err_of(w[0]) {
                    Some(e) => (1, Outcome::Failed("I2C read byte MPSSE failed: "@ + e, acc)),
                    None => if w.len() < 2 || !received_len(w[1], 1) {
                        (0, Outcome::Garbled)
                    } else {
                        match err_of(w[1]) {
                            Some(e) => (2, Outcome::Failed("I2C read data failed: "@ + e, acc)),
                            None => {
                                let (n, o) = run(w.skip(2), rest, idx + 1, acc.push(bytes_of(w[1])[0]));
                                (n + 2, o)
                            },
                        }
                    },
                }
            },
        }
    }
}

/// Events that ran some steps to completion are followed by the events of the
/// steps after them.
proof fn lemma_run_append(w1: Seq<Wire>, w2: Seq<Wire>, s1: Seq<Step>, s2: Seq<Step>, idx: nat, acc: Seq<u8>, acc1: Seq<u8>)
    requires
        run(w1, s1, idx, acc) == (w1.len(), Outcome::Done(acc1)),
    ensures
        run(w1 + w2, s1 + s2, idx, acc) == (
            w1.len() + run(w2, s2, idx + s1.len(), acc1).0,
            run(w2, s2, idx + s1.len(), acc1).1,
        ),
    decreases s1.len(),
{
    if s1.len() == 0 {
        assert(s1 + s2 =~= s2);
        assert(w1.len() == 0);
        assert(w1 + w2 =~= w2);
    } else {
        let w = w1 + w2;
        let s = s1 + s2;
        assert(s.drop_first() =~= s1.drop_first() + s2);
        assert(s[0] == s1[0]);
        assert(w1.len() > 0);
        assert(w[0] == w1[0]);
        match s1[0] {
            Step::Start => {
                assert(w.skip(1) =~= w1.skip(1) + w2);
                lemma_run_append(w1.skip(1), w2, s1.drop_first(), s2, idx + 1, acc, acc1);
            },
            Step::Stop => {
                assert(w.skip(1) =~= w1.skip(1) + w2);
                lemma_run_append(w1.skip(1), w2, s1.drop_first(), s2, idx + 1, acc, acc1);
            },
            Step::WriteByte(b) => {
                assert(w[1] == w1[1]);
                assert(w.skip(2) =~= w1.skip(2) + w2);
                lemma_run_append(w1.skip(2), w2, s1.drop_first(), s2, idx + 1, acc, acc1);
            },
            Step::ReadByte(a) => {
                assert(w[1] == w1[1]);
                assert(w.skip(2) =~= w1.skip(2) + w2);
                lemma_run_append(
                    w1.skip(2),
                    w2,
                    s1.drop_first(),
                    s2,
                    idx + 1,
                    acc.push(bytes_of(w1[1])[0]),
                    acc1,
                );
            },
        }
    }
}

/// A step that ends its run (a failure, or a byte not acknowledged) ends it
/// whatever steps follow.
proof fn lemma_run_stops(ev: Seq<Wire>, s: Step, rest: Seq<Step>, idx: nat, acc: Seq<u8>)
    requires
        run(ev, seq![s], idx, acc).0 == ev.len(),
        run(ev, seq![s], idx, acc).1 is Nacked || run(ev, seq![s], idx, acc).1 is Failed,
    ensures
        run(ev, seq![s] + rest, idx, acc) == run(ev, seq![s], idx, acc),
{
    reveal_with_fuel(run, 2);
    let all = seq![s] + rest;
    assert(all[0] == s);
    assert(seq![s].drop_first() =~= Seq::<Step>::empty());
}

/// The result of running the steps of a transaction.
enum StepsResult {
    Done(Vec<u8>),
    Nacked(usize),
    Failed(String, Vec<u8>),
}

/// The FTDI MPSSE I2C bridge over the port `P`.
pub struct Ft232hI2cBus<P> {
    port: P,
    device_type: FtdiDeviceType,
    log: Ghost<Seq<BusOp>>,
    wire: Ghost<Seq<Wire>>,
}

/// `w` is `h` followed by one more event.
pub open spec fn one_more(h: Seq<Wire>, w: Seq<Wire>) -> bool {
    w.len() == h.len() + 1 && w.drop_last() == h
}

impl<P: MpssePort> Ft232hI2cBus<P> {
    /// The operations carried out on the port, oldest first.
    pub closed spec fn wire_log(&self) -> Seq<Wire> {
        self.wire@
    }

    /// The bridge's device type.
    pub closed spec fn bridge_type(&self) -> FtdiDeviceType {
        self.device_type
    }

    /// Send `bytes`; a failure is reported with `context` before the port's
    /// error.
    fn send(&mut self, bytes: &[u8], context: &str) -> (r: Result<(), String>)
        ensures
            one_more(old(self).wire_log(), final(self).wire_log()),
            sent_cmd(final(self).wire_log().last(), bytes@),
            match err_of(final(self).wire_log().last()) {
                None => r is Ok,
                Some(e) => r matches Err(m) && m@ == context@ + e,
            },
            final(self).log@ == old(self).log@,
            final(self).bridge_type() == old(self).bridge_type(),
    {
        let sent = self.port.write_all(bytes);
        match sent {
            Ok(()) => {
                self.wire = Ghost(self.wire@.push(Wire::Sent { bytes: bytes@, err: None }));
                assert(self.wire@.drop_last() =~= old(self).wire@);
                Ok(())
            },
            Err(e) => {
                self.wire = Ghost(self.wire@.push(Wire::Sent { bytes: bytes@, err: Some(e@) }));
                assert(self.wire@.drop_last() =~= old(self).wire@);
                Err(concat(context, e.as_str()))
            },
        }
    }

    /// Read into `buf`; a failure is reported with `context` before the port's
    /// error.
    fn receive(&mut self, buf: &mut [u8], context: &str) -> (r: Result<(), String>)
        ensures
            one_more(old(self).wire_log(), final(self).wire_log()),
            final(self).wire_log().last() == (Wire::Received {
                bytes: final(buf)@,
                err: err_of(final(self).wire_log().last()),
            }),
            match err_of(final(self).wire_log().last()) {
                None => r is Ok,
                Some(e) => r matches Err(m) && m@ == context@ + e,
            },
            final(self).log@ == old(self).log@,
            final(self).bridge_type() == old(self).bridge_type(),
    {
        let got = self.port.read_all(buf);
        match got {
            Ok(()) => {
                self.wire = Ghost(self.wire@.push(Wire::Received { bytes: buf@, err: None }));
                assert(self.wire@.drop_last() =~= old(self).wire@);
                Ok(())
            },
            Err(e) => {
                self.wire = Ghost(self.wire@.push(Wire::Received { bytes: buf@, err: Some(e@) }));
                assert(self.wire@.drop_last() =~= old(self).wire@);
                Err(concat(context, e.as_str()))
            },
        }
    }

    fn start_command() -> (b: MpsseCmdBuilder)
        ensures
            command_bytes(b) == start_cmd(),
    {
        let b = cmd_new();
        let b = cmd_set_gpio_lower(b, 0x03, 0x03);
        let b = cmd_set_gpio_lower(b, 0x01, 0x03);
        let b = cmd_set_gpio_lower(b, 0x00, 0x03);
        let b = cmd_send_immediate(b);
        assert(command_bytes(b) =~= start_cmd());
        b
    }

    fn stop_command() -> (b: MpsseCmdBuilder)
        ensures
            command_bytes(b) == stop_cmd(),
    {
        let b = cmd_new();
        let b = cmd_set_gpio_lower(b, 0x00, 0x03);
        let b = cmd_set_gpio_lower(b, 0x01, 0x03);
        let b = cmd_set_gpio_lower(b, 0x03, 0x03);
        let b = cmd_send_immediate(b);
        assert(command_bytes(b) =~= stop_cmd());
        b
    }

    fn write_byte_command(byte: u8) -> (b: MpsseCmdBuilder)
        ensures
            command_bytes(b) == write_byte_cmd(byte),
    {
        let b = cmd_new();
        let b = cmd_clock_byte_out(b, byte);
        let b = cmd_set_gpio_lower(b, 0x00, 0x01);
        let b = cmd_clock_bits_in(b, 1);
        let b = cmd_set_gpio_lower(b, 0x00, 0x03);
        let b = cmd_send_immediate(b);
        assert(command_bytes(b) =~= write_byte_cmd(byte));
        b
    }

    fn read_byte_command(send_ack: bool) -> (b: MpsseCmdBuilder)
        ensures
            command_bytes(b) == read_byte_cmd(send_ack),
    {
        let ack_bit: u8 = if send_ack {
            0x00
        } else {
            0xFF
        };
        let b = cmd_new();
        let b = cmd_set_gpio_lower(b, 0x00, 0x01);
        let b = cmd_clock_bits_in(b, 8);
        let b = cmd_set_gpio_lower(b, 0x00, 0x03);
        let b = cmd_clock_bits_out(b, ack_bit, 1);
        let b = cmd_send_immediate(b);
        assert(command_bytes(b) =~= read_byte_cmd(send_ack));
        b
    }

    fn recovery_command() -> (b: MpsseCmdBuilder)
        ensures
            command_bytes(b) == recovery_cmd(),
    {
        let mut b = cmd_set_gpio_lower(cmd_new(), 0x00, 0x01);
        let mut k: u8 = 0;
        while k < 9
            invariant
                k <= 9,
                command_bytes(b) == seq![0x80u8, 0x00, 0x01] + recovery_pulses(k as nat),
            decreases 9 - k,
        {
            b = cmd_set_gpio_lower(b, 0x01, 0x01);
            b = cmd_set_gpio_lower(b, 0x00, 0x01);
            k = k + 1;
            assert(command_bytes(b) =~= seq![0x80u8, 0x00, 0x01] + recovery_pulses(k as nat));
        }
        let b = cmd_set_gpio_lower(b, 0x00, 0x03);
        let b = cmd_set_gpio_lower(b, 0x01, 0x03);
        let b = cmd_set_gpio_lower(b, 0x03, 0x03);
        let b = cmd_send_immediate(b);
        assert(command_bytes(b) =~= recovery_cmd());
        b
    }

    /// Free a slave holding SDA low: nine SCL pulses with SDA released, then
    /// a STOP.
    fn recover(&mut self) -> (r: Result<(), String>)
        ensures
            one_more(old(self).wire_log(), final(self).wire_log()),
            sent_cmd(final(self).wire_log().last(), recovery_cmd()),
            match err_of(final(self).wire_log().last()) {
                None => r is Ok,
                Some(e) => r matches Err(m) && m@ == "I2C bus recovery failed: "@ + e,
            },
            final(self).log@ == old(self).log@,
            final(self).bridge_type() == old(self).bridge_type(),
    {
        let cmd = Self::recovery_command();
        self.send(cmd_as_slice(&cmd), "I2C bus recovery failed: ")
    }

    /// Carry out one step of a transaction, the step at `idx`, having read
    /// `acc` so far.
    fn do_step(&mut self, step: Step, idx: usize, acc: &mut Vec<u8>) -> (r: Option<Result<(), String>>)
        ensures
            final(self).wire_log().len() >= old(self).wire_log().len(),
            final(self).wire_log().take(old(self).wire_log().len() as int) == old(self).wire_log(),
            final(self).log@ == old(self).log@,
            final(self).bridge_type() == old(self).bridge_type(),
            ({
                let ev = final(self).wire_log().skip(old(self).wire_log().len() as int);
                let (n, o) = run(ev, seq![step], idx as nat, old(acc)@);
                &&& n == ev.len()
                &&& match r {
                    None => o == Outcome::Done(final(acc)@),
                    Some(Ok(())) => o == Outcome::Nacked(idx as nat) && final(acc)@ == old(acc)@,
                    Some(Err(m)) => o == Outcome::Failed(m@, old(acc)@) && final(acc)@ == old(acc)@,
                }
            }),
    {
        let ghost w0 = self.wire@;
        proof {
            reveal_with_fuel(run, 2);
        }
        assert(seq![step].drop_first() =~= Seq::<Step>::empty());
        assert(seq![step][0] == step);
        match step {
            Step::Start => {
                let cmd = Self::start_command();
                let sent = self.send(cmd_as_slice(&cmd), "I2C START failed: ");
                proof {
                    let ev = self.wire@.skip(w0.len() as int);
                    assert(ev =~= seq![self.wire@.last()]);
                    assert(ev.skip(1) =~= Seq::<Wire>::empty());
                }
                match sent {
                    Ok(()) => None,
                    Err(m) => Some(Err(m)),
                }
            },
            Step::Stop => {
                let cmd = Self::stop_command();
                let sent = self.send(cmd_as_slice(&cmd), "I2C STOP failed: ");
                proof {
                    let ev = self.wire@.skip(w0.len() as int);
                    assert(ev =~= seq![self.wire@.last()]);
                    assert(ev.skip(1) =~= Seq::<Wire>::empty());
                }
                match sent {
                    Ok(()) => None,
                    Err(m) => Some(Err(m)),
                }
            },
            Step::WriteByte(b) => {
                let cmd = Self::write_byte_command(b);
                let sent = self.send(cmd_as_slice(&cmd), "I2C write byte MPSSE failed: ");
                let ghost w1 = self.wire@;
                if let Err(m) = sent {
                    proof {
                        assert(self.wire@.skip(w0.len() as int) =~= seq![w1.last()]);
                    }
                    return Some(Err(m));
                }
                let mut ack_buf = [0u8; 1];
                let got = self.receive(&mut ack_buf, "I2C read ACK failed: ");
                let ghost w2 = self.wire@;
                proof {
                    assert(w2.skip(w0.len() as int) =~= seq![w1.last(), w2.last()]);
                }
                if let Err(m) = got {
                    return Some(Err(m));
                }
                if ack_buf[0] & 1 == 0 {
                    proof {
                        assert(w2.skip(w0.len() as int).skip(2) =~= Seq::<Wire>::empty());
                    }
                    None
                } else {
                    let cmd = Self::stop_command();
                    let stopped = self.send(cmd_as_slice(&cmd), "I2C STOP failed: ");
                    proof {
                        assert(self.wire@.skip(w0.len() as int) =~= seq![
                            w1.last(),
                            w2.last(),
                            self.wire@.last(),
                        ]);
                    }
                    match stopped {
                        Ok(()) => Some(Ok(())),
                        Err(m) => Some(Err(m)),
                    }
                }
            },
            Step::ReadByte(send_ack) => {
                let cmd = Self::read_byte_command(send_ack);
                let sent = self.send(cmd_as_slice(&cmd), "I2C read byte MPSSE failed: ");
                let ghost w1 = self.wire@;
                if let Err(m) = sent {
                    proof {
                        assert(self.wire@.skip(w0.len() as int) =~= seq![w1.last()]);
                    }
                    return Some(Err(m));
                }
                let mut data = [0u8; 1];
                let got = self.receive(&mut data, "I2C read data failed: ");
                let ghost w2 = self.wire@;
                proof {
                    assert(w2.skip(w0.len() as int) =~= seq![w1.last(), w2.last()]);
                    assert(w2.skip(w0.len() as int).skip(2) =~= Seq::<Wire>::empty());
                }
                if let Err(m) = got {
                    return Some(Err(m));
                }
                acc.push(data[0]);
                None
            },
        }
    }

    /// Carry out the steps of a transaction in order, stopping at the first
    /// failure, or after the STOP that follows a byte not acknowledged.
    fn run_steps(&mut self, steps: &Vec<Step>) -> (r: StepsResult)
        ensures
            final(self).wire_log().len() >= old(self).wire_log().len(),
            final(self).wire_log().take(old(self).wire_log().len() as int) == old(self).wire_log(),
            final(self).log@ == old(self).log@,
            final(self).bridge_type() == old(self).bridge_type(),
            ({
                let ev = final(self).wire_log().skip(old(self).wire_log().len() as int);
                let (n, o) = run(ev, steps@, 0, Seq::empty());
                &&& n == ev.len()
                &&& match r {
                    StepsResult::Done(d) => o == Outcome::Done(d@),
                    StepsResult::Nacked(i) => o == Outcome::Nacked(i as nat),
                    StepsResult::Failed(m, d) => o == Outcome::Failed(m@, d@),
                }
            }),
    {
        let ghost w0 = self.wire@;
        let mut acc: Vec<u8> = Vec::new();
        let mut i: usize = 0;
        proof {
            assert(self.wire@.skip(w0.len() as int) =~= Seq::<Wire>::empty());
            assert(steps@.take(0) =~= Seq::<Step>::empty());
        }
        while i < steps.len()
            invariant
                i <= steps@.len(),
                self.wire@.len() >= w0.len(),
                self.wire@.take(w0.len() as int) == w0,
                w0 == old(self).wire@,
                self.log@ == old(self).log@,
                self.device_type == old(self).device_type,
                run(self.wire@.skip(w0.len() as int), steps@.take(i as int), 0, Seq::empty()) == (
                    self.wire@.skip(w0.len() as int).len(),
                    Outcome::Done(acc@),
                ),
            decreases steps@.len() - i,
        {
            let ghost acc0 = acc@;
            let ghost wmid = self.wire@;
            let st = self.do_step(steps[i], i, &mut acc);
            let ghost p = wmid.skip(w0.len() as int);
            let ghost ev = self.wire@.skip(wmid.len() as int);
            proof {
                assert(self.wire@.take(w0.len() as int) =~= w0);
                assert(self.wire@.skip(w0.len() as int) =~= p + ev);
                assert(steps@.take(i + 1) =~= steps@.take(i as int) + seq![steps@[i as int]]);
                assert(steps@ =~= steps@.take(i as int) + steps@.skip(i as int));
                lemma_run_append(p, ev, steps@.take(i as int), seq![steps@[i as int]], 0, Seq::empty(), acc0);
                lemma_run_append(p, ev, steps@.take(i as int), steps@.skip(i as int), 0, Seq::empty(), acc0);
                assert(steps@.skip(i as int) =~= seq![steps@[i as int]] + steps@.skip(i + 1));
                if st is Some {
                    lemma_run_stops(ev, steps@[i as int], steps@.skip(i + 1), i as nat, acc0);
                }
            }
            match st {
                None => {},
                Some(Ok(())) => {
                    return StepsResult::Nacked(i);
                },
                Some(Err(m)) => {
                    return StepsResult::Failed(m, acc);
                },
            }
            i = i + 1;
        }
        assert(steps@.take(i as int) =~= steps@);
        StepsResult::Done(acc)
    }
}

/// How many of `steps` read a byte.
pub open spec fn reads_in(steps: Seq<Step>) -> nat
    decreases steps.len(),
{
    if steps.len() == 0 {
        0
    } else {
        (if steps[0] is ReadByte {
            1nat
        } else {
            0nat
        }) + reads_in(steps.drop_first())
    }
}

proof fn lemma_reads_in_append(a: Seq<Step>, b: Seq<Step>)
    ensures
        reads_in(a + b) == reads_in(a) + reads_in(b),
    decreases a.len(),
{
    if a.len() > 0 {
        assert((a + b).drop_first() =~= a.drop_first() + b);
        assert((a + b)[0] == a[0]);
        lemma_reads_in_append(a.drop_first(), b);
    } else {
        assert(a + b =~= b);
    }
}

proof fn lemma_reads_in_uniform(s: Seq<Step>)
    ensures
        (forall|i: int| 0 <= i < s.len() ==> #[trigger] s[i] is ReadByte) ==> reads_in(s) == s.len(),
        (forall|i: int| 0 <= i < s.len() ==> !(#[trigger] s[i] is ReadByte)) ==> reads_in(s) == 0,
    decreases s.len(),
{
    if s.len() > 0 {
        lemma_reads_in_uniform(s.drop_first());
        if forall|i: int| 0 <= i < s.len() ==> #[trigger] s[i] is ReadByte {
            assert forall|i: int| 0 <= i < s.drop_first().len() implies #[trigger] s.drop_first()[i] is ReadByte by {
                assert(s.drop_first()[i] == s[i + 1]);
            }
        }
        if forall|i: int| 0 <= i < s.len() ==> !(#[trigger] s[i] is ReadByte) {
            assert forall|i: int| 0 <= i < s.drop_first().len() implies !(#[trigger] s.drop_first()[i] is ReadByte) by {
                assert(s.drop_first()[i] == s[i + 1]);
            }
        }
    }
}

/// A run that ends with all steps done has read one byte per reading step; a
/// failed run has read no more.
proof fn lemma_run_reads(w: Seq<Wire>, steps: Seq<Step>, idx: nat, acc: Seq<u8>)
    ensures
        run(w, steps, idx, acc).1 matches Outcome::Done(d) ==> d.len() == acc.len() + reads_in(steps),
        run(w, steps, idx, acc).1 matches Outcome::Failed(_, d) ==> acc.len() <= d.len() <= acc.len()
            + reads_in(steps),
    decreases steps.len(),
{
    if steps.len() > 0 && w.len() > 0 {
        let rest = steps.drop_first();
        match steps[0] {
            Step::Start => lemma_run_reads(w.skip(1), rest, idx + 1, acc),
            Step::Stop => lemma_run_reads(w.skip(1), rest, idx + 1, acc),
            Step::WriteByte(_) => lemma_run_reads(w.skip(2), rest, idx + 1, acc),
            Step::ReadByte(_) => if w.len() >= 2 {
                lemma_run_reads(w.skip(2), rest, idx + 1, acc.push(bytes_of(w[1])[0]))
            },
        }
    }
}

/// The steps writing each of `bytes`.
pub open spec fn write_steps(bytes: Seq<u8>) -> Seq<Step> {
    bytes.map_values(|b: u8| Step::WriteByte(b))
}

/// The steps reading `n` bytes, acknowledging all but the last.
pub open spec fn read_steps(n: nat) -> Seq<Step> {
    Seq::new(n, |i: int| Step::ReadByte(i != n - 1))
}

/// The master-receiver acknowledge of an `n`-byte read (also the read phase
/// of a write-then-read): after byte `i` the bridge clocks out one bit, MSB
/// first (`0x13, 0x00, d`), and that bit is SDA low (ACK, `d == 0x00`) for
/// every byte but the last, so the slave sends the next one, and SDA high
/// (NACK, `d == 0xFF`) for the last byte, so the slave releases SDA for the
/// STOP.
pub proof fn lemma_read_acknowledges(n: nat, i: int)
    requires
        0 <= i < n,
    ensures
        read_steps(n)[i] is ReadByte,
        ({
            let cmd = read_byte_cmd(read_steps(n)[i]->ReadByte_0);
            &&& cmd.len() == 12
            &&& cmd[8] == 0x13u8
            &&& cmd[9] == 0x00u8
            &&& cmd[10] == (if i < n - 1 {
                0x00u8
            } else {
                0xFFu8
            })
            &&& ((cmd[10] & 0x80u8) == 0u8) == (i < n - 1)
        }),
{
    assert((0x00u8 & 0x80u8) == 0u8) by (bit_vector);
    assert((0xFFu8 & 0x80u8) != 0u8) by (bit_vector);
}

/// An I2C write of `data` to `addr`: START, the address for writing, the
/// data, STOP.
pub open spec fn write_transaction(addr: u8, data: Seq<u8>) -> Seq<Step> {
    seq![Step::Start, Step::WriteByte(write_addr_byte(addr))] + write_steps(data) + seq![Step::Stop]
}

/// An I2C read of `n` bytes from `addr`: START, the address for reading, the
/// reads, STOP.
pub open spec fn read_transaction(addr: u8, n: nat) -> Seq<Step> {
    seq![Step::Start, Step::WriteByte(read_addr_byte(addr))] + read_steps(n) + seq![Step::Stop]
}

/// An I2C write of `data` then, after a repeated START, a read of `n` bytes
/// (only a STOP after the write if `n` is 0).
pub open spec fn write_read_transaction(addr: u8, data: Seq<u8>, n: nat) -> Seq<Step> {
    seq![Step::Start, Step::WriteByte(write_addr_byte(addr))] + write_steps(data) + if n == 0 {
        seq![Step::Stop]
    } else {
        seq![Step::Start, Step::WriteByte(read_addr_byte(addr))] + read_steps(n) + seq![Step::Stop]
    }
}

/// `buf` with its first bytes replaced by `d`.
pub open spec fn filled(buf: Seq<u8>, d: Seq<u8>) -> Seq<u8> {
    d + buf.skip(d.len() as int)
}

fn push_write_steps(v: &mut Vec<Step>, data: &[u8])
    ensures
        final(v)@ == old(v)@ + write_steps(data@),
{
    let mut i: usize = 0;
    while i < data.len()
        invariant
            i <= data@.len(),
            v@ == old(v)@ + write_steps(data@.take(i as int)),
        decreases data@.len() - i,
    {
        v.push(Step::WriteByte(data[i]));
        i = i + 1;
        assert(v@ =~= old(v)@ + write_steps(data@.take(i as int)));
    }
    assert(data@.take(i as int) =~= data@);
}

fn push_read_steps(v: &mut Vec<Step>, n: usize)
    requires
        n > 0,
    ensures
        final(v)@ == old(v)@ + read_steps(n as nat),
{
    let last = n - 1;
    let mut i: usize = 0;
    while i < n
        invariant
            i <= n,
            last == n - 1,
            v@ == old(v)@ + read_steps(n as nat).take(i as int),
        decreases n - i,
    {
        v.push(Step::ReadByte(i != last));
        i = i + 1;
        assert(v@ =~= old(v)@ + read_steps(n as nat).take(i as int));
    }
    assert(read_steps(n as nat).take(i as int) =~= read_steps(n as nat));
}

/// Put the bytes `d` at the start of `buf`.
fn fill_front(buf: &mut [u8], d: &Vec<u8>)
    requires
        d@.len() <= old(buf)@.len(),
    ensures
        final(buf)@ == filled(old(buf)@, d@),
{
    let mut i: usize = 0;
    while i < d.len()
        invariant
            i <= d@.len() <= buf@.len(),
            buf@.len() == old(buf)@.len(),
            forall|j: int| 0 <= j < i ==> buf@[j] == d@[j],
            forall|j: int| i <= j < buf@.len() ==> buf@[j] == old(buf)@[j],
        decreases d@.len() - i,
    {
        buf[i] = d[i];
        i = i + 1;
    }
    assert(buf@ =~= filled(old(buf)@, d@));
}

/// The message for a byte not acknowledged in a transaction with `addr`.
pub open spec fn nack_message(addr: u8, what: Seq<char>) -> Seq<char> {
    "No ACK from slave 0x"@ + hex2(addr) + what
}

/// The message for a data byte not acknowledged by `addr`.
pub open spec fn data_nack_message(addr: u8) -> Seq<char> {
    "NACK during write to slave 0x"@ + hex2(addr)
}

impl<P: MpssePort> I2cBus for Ft232hI2cBus<P> {
    closed spec fn history(&self) -> Seq<BusOp> {
        self.log@
    }

    /// START, the address for writing, the data, STOP; a byte not
    /// acknowledged ends the write after a STOP.
    fn write(&mut self, addr: u8, data: &[u8]) -> (r: Result<(), String>)
        ensures
            final(self).wire_log().len() >= old(self).wire_log().len(),
            final(self).wire_log().take(old(self).wire_log().len() as int) == old(self).wire_log(),
            ({
                let ev = final(self).wire_log().skip(old(self).wire_log().len() as int);
                let (n, o) = run(ev, write_transaction(addr, data@), 0, Seq::empty());
                &&& n == ev.len()
                &&& match o {
                    Outcome::Done(_) => r is Ok,
                    Outcome::Nacked(i) => r matches Err(e) && e@ == if i == 1 {
                        nack_message(addr, " (write)"@)
                    } else {
                        data_nack_message(addr)
                    },
                    Outcome::Failed(m, _) => r matches Err(e) && e@ == m,
                    Outcome::Garbled => false,
                }
            }),
    {
        let mut steps: Vec<Step> = Vec::new();
        steps.push(Step::Start);
        let addr_byte = (addr << 1) & 0xFE;
        assert(addr_byte == write_addr_byte(addr)) by {
            assert((addr << 1u8) & 0xFEu8 == ((addr as int * 2) % 256) as u8) by (bit_vector);
        }
        steps.push(Step::WriteByte(addr_byte));
        push_write_steps(&mut steps, data);
        steps.push(Step::Stop);
        assert(steps@ =~= write_transaction(addr, data@));
        let outcome = self.run_steps(&steps);
        let r = match outcome {
            StepsResult::Done(_) => Ok(()),
            StepsResult::Nacked(i) => if i == 1 {
                let mut e = with_hex2("No ACK from slave 0x", addr);
                push_str(&mut e, " (write)");
                Err(e)
            } else {
                Err(with_hex2("NACK during write to slave 0x", addr))
            },
            StepsResult::Failed(m, _) => Err(m),
        };
        self.log = Ghost(self.log@.push(BusOp::Write { addr, data: data@, ok: r is Ok, err: err_text(r) }));
        r
    }

    /// Nothing for an empty buffer; else START, the address for reading, the
    /// bytes (all but the last acknowledged), STOP.
    fn read(&mut self, addr: u8, buf: &mut [u8]) -> (r: Result<(), String>)
        ensures
            final(self).wire_log().len() >= old(self).wire_log().len(),
            final(self).wire_log().take(old(self).wire_log().len() as int) == old(self).wire_log(),
            old(buf)@.len() == 0 ==> r is Ok && final(self).wire_log() == old(self).wire_log(),
            old(buf)@.len() > 0 ==> ({
                let ev = final(self).wire_log().skip(old(self).wire_log().len() as int);
                let (n, o) = run(ev, read_transaction(addr, old(buf)@.len()), 0, Seq::empty());
                &&& n == ev.len()
                &&& match o {
                    Outcome::Done(d) => r is Ok && final(buf)@ == d,
                    Outcome::Nacked(_) => r matches Err(e) && e@ == nack_message(addr, " (read)"@)
                        && final(buf)@ == old(buf)@,
                    Outcome::Failed(m, d) => r matches Err(e) && e@ == m && final(buf)@ == filled(
                        old(buf)@,
                        d,
                    ),
                    Outcome::Garbled => false,
                }
            }),
    {
        if buf.len() == 0 {
            proof {
                assert(self.wire@.take(self.wire@.len() as int) =~= self.wire@);
            }
            self.log = Ghost(self.log@.push(BusOp::Read { addr, reply: buf@, ok: true, err: Seq::empty() }));
            return Ok(());
        }
        let mut steps: Vec<Step> = Vec::new();
        steps.push(Step::Start);
        let addr_byte = (addr << 1) | 0x01;
        assert(addr_byte == read_addr_byte(addr)) by {
            assert((addr << 1u8) | 1u8 == (((addr as int * 2) % 256) + 1) as u8) by (bit_vector);
        }
        steps.push(Step::WriteByte(addr_byte));
        push_read_steps(&mut steps, buf.len());
        steps.push(Step::Stop);
        assert(steps@ =~= read_transaction(addr, buf@.len()));
        let ghost w0 = self.wire@;
        let outcome = self.run_steps(&steps);
        proof {
            let ev = self.wire@.skip(w0.len() as int);
            let pre = seq![Step::Start, Step::WriteByte(read_addr_byte(addr))];
            let rs = read_steps(buf@.len());
            lemma_run_reads(ev, steps@, 0, Seq::empty());
            lemma_reads_in_append(pre + rs, seq![Step::Stop]);
            lemma_reads_in_append(pre, rs);
            lemma_reads_in_uniform(pre);
            lemma_reads_in_uniform(rs);
            lemma_reads_in_uniform(seq![Step::Stop]);
            assert(pre[0] is Start && pre[1] is WriteByte);
        }
        let r = match outcome {
            StepsResult::Done(d) => {
                fill_front(buf, &d);
                assert(buf@ =~= d@);
                Ok(())
            },
            StepsResult::Nacked(_) => {
                let mut e = with_hex2("No ACK from slave 0x", addr);
                push_str(&mut e, " (read)");
                Err(e)
            },
            StepsResult::Failed(m, d) => {
                fill_front(buf, &d);
                Err(m)
            },
        };
        self.log = Ghost(self.log@.push(BusOp::Read { addr, reply: buf@, ok: r is Ok, err: err_text(r) }));
        r
    }

    /// START, the address for writing, the data; then STOP if nothing is to
    /// be read, else a repeated START, the address for reading, the bytes,
    /// STOP.
    fn write_read(&mut self, addr: u8, write_data: &[u8], read_buf: &mut [u8]) -> (r: Result<
        (),
        String,
    >)
        ensures
            final(self).wire_log().len() >= old(self).wire_log().len(),
            final(self).wire_log().take(old(self).wire_log().len() as int) == old(self).wire_log(),
            ({
                let ev = final(self).wire_log().skip(old(self).wire_log().len() as int);
                let (n, o) = run(
                    ev,
                    write_read_transaction(addr, write_data@, old(read_buf)@.len()),
                    0,
                    Seq::empty(),
                );
                &&& n == ev.len()
                &&& match o {
                    Outcome::Done(d) => r is Ok && final(read_buf)@ == filled(old(read_buf)@, d),
                    Outcome::Nacked(i) => r matches Err(e) && e@ == (if i == 1 {
                        nack_message(addr, " (write phase)"@)
                    } else if i == write_data@.len() + 3 {
                        nack_message(addr, " (read phase)"@)
                    } else {
                        data_nack_message(addr)
                    }) && final(read_buf)@ == old(read_buf)@,
                    Outcome::Failed(m, d) => r matches Err(e) && e@ == m && final(read_buf)@ == filled(
                        old(read_buf)@,
                        d,
                    ),
                    Outcome::Garbled => false,
                }
            }),
    {
        let mut steps: Vec<Step> = Vec::new();
        steps.push(Step::Start);
        let addr_w = (addr << 1) & 0xFE;
        let addr_r = (addr << 1) | 0x01;
        assert(addr_w == write_addr_byte(addr) && addr_r == read_addr_byte(addr)) by {
            assert((addr << 1u8) & 0xFEu8 == ((addr as int * 2) % 256) as u8) by (bit_vector);
            assert((addr << 1u8) | 1u8 == (((addr as int * 2) % 256) + 1) as u8) by (bit_vector);
        }
        steps.push(Step::WriteByte(addr_w));
        push_write_steps(&mut steps, write_data);
        let ghost head = steps@;
        if read_buf.len() == 0 {
            steps.push(Step::Stop);
        } else {
            steps.push(Step::Start);
            steps.push(Step::WriteByte(addr_r));
            push_read_steps(&mut steps, read_buf.len());
            steps.push(Step::Stop);
        }
        assert(steps@ =~= write_read_transaction(addr, write_data@, read_buf@.len()));
        let ghost w0 = self.wire@;
        let outcome = self.run_steps(&steps);
        proof {
            let ev = self.wire@.skip(w0.len() as int);
            lemma_run_reads(ev, steps@, 0, Seq::empty());
            let pre = seq![Step::Start, Step::WriteByte(write_addr_byte(addr))];
            let ws = write_steps(write_data@);
            lemma_reads_in_uniform(pre);
            lemma_reads_in_uniform(ws);
            assert(pre[0] is Start && pre[1] is WriteByte);
            lemma_reads_in_append(pre, ws);
            if read_buf@.len() == 0 {
                lemma_reads_in_uniform(seq![Step::Stop]);
                lemma_reads_in_append(pre + ws, seq![Step::Stop]);
            } else {
                let pre2 = seq![Step::Start, Step::WriteByte(read_addr_byte(addr))];
                let rs = read_steps(read_buf@.len());
                let tail = pre2 + rs + seq![Step::Stop];
                lemma_reads_in_uniform(pre2);
                assert(pre2[0] is Start && pre2[1] is WriteByte);
                lemma_reads_in_uniform(rs);
                lemma_reads_in_uniform(seq![Step::Stop]);
                lemma_reads_in_append(pre2, rs);
                lemma_reads_in_append(pre2 + rs, seq![Step::Stop]);
                lemma_reads_in_append(pre + ws, tail);
                assert(steps@ =~= pre + ws + tail);
            }
        }
        let r = match outcome {
            StepsResult::Done(d) => {
                fill_front(read_buf, &d);
                Ok(())
            },
            StepsResult::Nacked(i) => if i == 1 {
                let mut e = with_hex2("No ACK from slave 0x", addr);
                push_str(&mut e, " (write phase)");
                Err(e)
            } else if i >= 3 && i - 3 == write_data.len() {
                let mut e = with_hex2("No ACK from slave 0x", addr);
                push_str(&mut e, " (read phase)");
                Err(e)
            } else {
                Err(with_hex2("NACK during write to slave 0x", addr))
            },
            StepsResult::Failed(m, d) => {
                fill_front(read_buf, &d);
                Err(m)
            },
        };
        self.log = Ghost(
            self.log@.push(
                BusOp::WriteRead {
                    addr,
                    data: write_data@,
                    reply: read_buf@,
                    ok: r is Ok,
                    err: err_text(r),
                },
            ),
        );
        r
    }

    /// Nine SCL pulses with SDA released, then a STOP.
    fn bus_recovery(&mut self) -> (r: Result<(), String>)
        ensures
            one_more(old(self).wire_log(), final(self).wire_log()),
            sent_cmd(final(self).wire_log().last(), recovery_cmd()),
            match err_of(final(self).wire_log().last()) {
                None => r is Ok,
                Some(e) => r matches Err(m) && m@ == "I2C bus recovery failed: "@ + e,
            },
    {
        let r = self.recover();
        self.log = Ghost(self.log@.push(BusOp::Recovery { ok: r is Ok, err: err_text(r) }));
        r
    }

    /// Sleep on the port for `ms` milliseconds; nothing goes on the wire.
    fn delay_ms(&mut self, ms: u64)
        ensures
            final(self).wire_log() == old(self).wire_log(),
            final(self).bridge_type() == old(self).bridge_type(),
    {
        self.port.sleep_ms(ms);
        self.log = Ghost(self.log@.push(BusOp::Delay { ms }));
    }
}

/// The text `{:02X?}` prints for two bytes.
pub open spec fn two_bytes_text(a: u8, b: u8) -> Seq<char> {
    "["@ + hex2(a) + ", "@ + hex2(b) + "]"@
}

/// An error of the MPSSE setup.
pub open spec fn setup_error(m: Seq<char>) -> Seq<char> {
    "MPSSE init failed: "@ + m
}

/// `w` is a `Configured` event.
pub open spec fn is_configured(w: Wire) -> bool {
    w is Configured
}

/// `w` is a `Purged` event.
pub open spec fn is_purged(w: Wire) -> bool {
    w is Purged
}

/// The MPSSE setup of a bridge of type `t` at `clock_hz`, given the port
/// events `w` it caused: `None` if they are not the events the setup issues,
/// else its result. It configures MPSSE mode, synchronises with the MPSSE
/// (loopback on, purge, the bogus command 0xAB must be echoed as 0xFA 0xAB,
/// loopback off) and sets the clock, stopping at the first failure.
pub open spec fn mpsse_setup(w: Seq<Wire>, t: FtdiDeviceType, clock_hz: u32) -> Option<Result<(), Seq<char>>> {
    if w.len() < 1 || !is_configured(w[0]) {
        None
    } else if let Some(e) = err_of(w[0]) {
        if w.len() == 1 { Some(Err(e)) } else { None }
    } else if w.len() < 2 || !sent_cmd(w[1], seq![0x84u8]) {
        None
    } else if let Some(e) = err_of(w[1]) {
        if w.len() == 2 { Some(Err("FTDI loopback enable failed: "@ + e)) } else { None }
    } else if w.len() < 3 || !is_purged(w[2]) {
        None
    } else if let Some(e) = err_of(w[2]) {
        if w.len() == 3 { Some(Err("FTDI sync purge failed: "@ + e)) } else { None }
    } else if w.len() < 4 || !sent_cmd(w[3], seq![0xABu8]) {
        None
    } else if let Some(e) = err_of(w[3]) {
        if w.len() == 4 { Some(Err("FTDI sync write failed: "@ + e)) } else { None }
    } else if w.len() < 5 || !received_len(w[4], 2) {
        None
    } else if let Some(e) = err_of(w[4]) {
        if w.len() == 5 { Some(Err("FTDI sync read failed: "@ + e)) } else { None }
    } else if bytes_of(w[4]) != seq![0xFAu8, 0xABu8] {
        if w.len() == 5 {
            Some(Err("FTDI MPSSE sync returned "@ + two_bytes_text(bytes_of(w[4])[0], bytes_of(w[4])[1])))
        } else {
            None
        }
    } else if w.len() < 6 || !sent_cmd(w[5], seq![0x85u8]) {
        None
    } else if let Some(e) = err_of(w[5]) {
        if w.len() == 6 { Some(Err("FTDI loopback disable failed: "@ + e)) } else { None }
    } else {
        match clock_setting(t, clock_hz) {
            Err(m) => if w.len() == 6 { Some(Err(m)) } else { None },
            Ok((divisor, clkdiv)) => if w.len() != 7 || !sent_cmd(w[6], set_clock_bytes(divisor, clkdiv)) {
                None
            } else if let Some(e) = err_of(w[6]) {
                Some(Err("Failed to set FTDI clock to "@ + decimal(clock_hz as nat) + "Hz: "@ + e))
            } else {
                Some(Ok(()))
            },
        }
    }
}

/// The I2C setup of a bridge of type `t` at `clock_hz`, given the port events
/// `w` it caused: the MPSSE setup (its failures reported as setup failures),
/// then the I2C pin configuration (three-phase clocking where available, both
/// lines high) and a bus recovery; `None` if the events are not those issued.
pub open spec fn i2c_setup(w: Seq<Wire>, t: FtdiDeviceType, clock_hz: u32) -> Option<Result<(), Seq<char>>> {
    if w.len() >= 7 && mpsse_setup(w.take(7), t, clock_hz) == Some(Ok::<(), Seq<char>>(())) {
        if w.len() < 8 || !sent_cmd(w[7], config_cmd(has_3phase_clocking(t))) {
            None
        } else if let Some(e) = err_of(w[7]) {
            if w.len() == 8 { Some(Err("I2C config failed: "@ + e)) } else { None }
        } else if w.len() != 9 || !sent_cmd(w[8], recovery_cmd()) {
            None
        } else if let Some(e) = err_of(w[8]) {
            Some(Err("I2C bus recovery failed: "@ + e))
        } else {
            Some(Ok(()))
        }
    } else {
        match mpsse_setup(w, t, clock_hz) {
            Some(Err(m)) => Some(Err(setup_error(m))),
            _ => None,
        }
    }
}

proof fn lemma_mpsse_setup_ok_len(w: Seq<Wire>, t: FtdiDeviceType, clock_hz: u32)
    requires
        mpsse_setup(w, t, clock_hz) == Some(Ok::<(), Seq<char>>(())),
    ensures
        w.len() == 7,
{
}

proof fn lemma_mpsse_setup_err_len(w: Seq<Wire>, t: FtdiDeviceType, clock_hz: u32)
    requires
        mpsse_setup(w, t, clock_hz) matches Some(Err(_)),
    ensures
        w.len() <= 7,
        !(w.len() >= 7 && mpsse_setup(w.take(7), t, clock_hz) == Some(Ok::<(), Seq<char>>(()))),
{
    if w.len() == 7 {
        assert(w.take(7) =~= w);
    }
}

impl<P: MpssePort> Ft232hI2cBus<P> {
    /// A bridge of type `device_type` over an opened port.
    pub fn with_port(port: P, device_type: FtdiDeviceType) -> (b: Self)
        ensures
            b.wire_log() == Seq::<Wire>::empty(),
            b.history() == Seq::<BusOp>::empty(),
            b.bridge_type() == device_type,
    {
        Ft232hI2cBus { port, device_type, log: Ghost(Seq::empty()), wire: Ghost(Seq::empty()) }
    }

    fn configure_port(&mut self) -> (r: Result<(), String>)
        ensures
            one_more(old(self).wire_log(), final(self).wire_log()),
            is_configured(final(self).wire_log().last()),
            match err_of(final(self).wire_log().last()) {
                None => r is Ok,
                Some(e) => r matches Err(m) && m@ == e,
            },
            final(self).log@ == old(self).log@,
            final(self).bridge_type() == old(self).bridge_type(),
    {
        let done = self.port.configure();
        let ghost err = match &done {
            Ok(()) => None,
            Err(e) => Some(e@),
        };
        self.wire = Ghost(self.wire@.push(Wire::Configured { err }));
        assert(self.wire@.drop_last() =~= old(self).wire@);
        done
    }

    fn purge(&mut self, context: &str) -> (r: Result<(), String>)
        ensures
            one_more(old(self).wire_log(), final(self).wire_log()),
            is_purged(final(self).wire_log().last()),
            match err_of(final(self).wire_log().last()) {
                None => r is Ok,
                Some(e) => r matches Err(m) && m@ == context@ + e,
            },
            final(self).log@ == old(self).log@,
            final(self).bridge_type() == old(self).bridge_type(),
    {
        let done = self.port.purge_rx();
        match done {
            Ok(()) => {
                self.wire = Ghost(self.wire@.push(Wire::Purged { err: None }));
                assert(self.wire@.drop_last() =~= old(self).wire@);
                Ok(())
            },
            Err(e) => {
                self.wire = Ghost(self.wire@.push(Wire::Purged { err: Some(e@) }));
                assert(self.wire@.drop_last() =~= old(self).wire@);
                Err(concat(context, e.as_str()))
            },
        }
    }

    /// Configure the bridge for I2C at `clock_hz`: MPSSE mode and
    /// synchronisation, the clock, three-phase clocking where available, both
    /// lines high, then a bus recovery.
    pub fn init_i2c(&mut self, clock_hz: u32) -> (r: Result<(), String>)
        ensures
            final(self).history() == old(self).history(),
            final(self).bridge_type() == old(self).bridge_type(),
            final(self).wire_log().len() >= old(self).wire_log().len(),
            final(self).wire_log().take(old(self).wire_log().len() as int) == old(self).wire_log(),
            ({
                let ev = final(self).wire_log().skip(old(self).wire_log().len() as int);
                match i2c_setup(ev, old(self).bridge_type(), clock_hz) {
                    Some(Ok(())) => r is Ok,
                    Some(Err(m)) => r matches Err(e) && e@ == m,
                    None => false,
                }
            }),
    {
        let ghost w0 = self.wire@;
        let setup = self.initialize_mpsse(clock_hz);
        if let Err(e) = setup {
            proof {
                lemma_mpsse_setup_err_len(self.wire@.skip(w0.len() as int), self.device_type, clock_hz);
            }
            let mut m = "MPSSE init failed: ".to_owned();
            push_str(&mut m, e.as_str());
            return Err(m);
        }
        let ghost w6 = self.wire@;
        proof {
            lemma_mpsse_setup_ok_len(self.wire@.skip(w0.len() as int), self.device_type, clock_hz);
            assert(self.wire@.skip(w0.len() as int).take(7) =~= self.wire@.skip(w0.len() as int));
        }
        let three_phase = supports_3phase_clocking(self.device_type);
        let b = cmd_new();
        let b = if three_phase {
            cmd_enable_3phase(b)
        } else {
            b
        };
        let b = cmd_set_gpio_lower(b, 0x03, 0x03);
        let cmd = cmd_send_immediate(b);
        assert(command_bytes(cmd) =~= config_cmd(three_phase));
        let config = self.send(cmd_as_slice(&cmd), "I2C config failed: ");
        let ghost w7 = self.wire@;
        if let Err(e) = config {
            proof {
                let ev = w7.skip(w0.len() as int);
                assert(ev =~= w6.skip(w0.len() as int).push(w7.last()));
                assert(ev.take(7) =~= w6.skip(w0.len() as int));
            }
            return Err(e);
        }
        let recovered = self.recover();
        proof {
            let ev = self.wire@.skip(w0.len() as int);
            assert(ev =~= w6.skip(w0.len() as int).push(w7.last()).push(self.wire@.last()));
            assert(ev.take(7) =~= w6.skip(w0.len() as int));
        }
        recovered
    }

    /// MPSSE mode, synchronisation and clock.
    fn initialize_mpsse(&mut self, clock_hz: u32) -> (r: Result<(), String>)
        ensures
            final(self).log@ == old(self).log@,
            final(self).bridge_type() == old(self).bridge_type(),
            final(self).wire_log().len() >= old(self).wire_log().len(),
            final(self).wire_log().take(old(self).wire_log().len() as int) == old(self).wire_log(),
            ({
                let ev = final(self).wire_log().skip(old(self).wire_log().len() as int);
                match r {
                    Ok(()) => mpsse_setup(ev, old(self).bridge_type(), clock_hz) == Some(
                        Ok::<(), Seq<char>>(()),
                    ),
                    Err(e) => mpsse_setup(ev, old(self).bridge_type(), clock_hz) == Some(
                        Err::<(), Seq<char>>(e@),
                    ),
                }
            }),
    {
        let ghost w0 = self.wire@;
        proof {
            assert(w0.take(w0.len() as int) =~= w0);
        }
        let configured = self.configure_port();
        let ghost e1 = self.wire@.last();
        if let Err(e) = configured {
            assert(self.wire@.skip(w0.len() as int) =~= seq![e1]);
            return Err(e);
        }
        let on = cmd_enable_loopback(cmd_new());
        assert(command_bytes(on) =~= seq![0x84u8]);
        let looped = self.send(cmd_as_slice(&on), "FTDI loopback enable failed: ");
        let ghost e2 = self.wire@.last();
        if let Err(e) = looped {
            assert(self.wire@.skip(w0.len() as int) =~= seq![e1, e2]);
            return Err(e);
        }
        let purged = self.purge("FTDI sync purge failed: ");
        let ghost e3 = self.wire@.last();
        if let Err(e) = purged {
            assert(self.wire@.skip(w0.len() as int) =~= seq![e1, e2, e3]);
            return Err(e);
        }
        let echo: [u8; 1] = [0xAB];
        assert(echo@ =~= seq![0xABu8]);
        let written = self.send(&echo, "FTDI sync write failed: ");
        let ghost e4 = self.wire@.last();
        if let Err(e) = written {
            assert(self.wire@.skip(w0.len() as int) =~= seq![e1, e2, e3, e4]);
            return Err(e);
        }
        let mut buf = [0u8; 2];
        let got = self.receive(&mut buf, "FTDI sync read failed: ");
        let ghost e5 = self.wire@.last();
        assert(self.wire@.skip(w0.len() as int) =~= seq![e1, e2, e3, e4, e5]);
        if let Err(e) = got {
            return Err(e);
        }
        if !(buf[0] == 0xFA && buf[1] == 0xAB) {
            assert(bytes_of(e5) =~= buf@);
            let mut m = "FTDI MPSSE sync returned ".to_owned();
            push_str(&mut m, "[");
            push_hex2(&mut m, buf[0]);
            push_str(&mut m, ", ");
            push_hex2(&mut m, buf[1]);
            push_str(&mut m, "]");
            assert(m@ =~= "FTDI MPSSE sync returned "@ + two_bytes_text(buf[0], buf[1]));
            return Err(m);
        }
        assert(bytes_of(e5) =~= seq![0xFAu8, 0xABu8]);
        let off = cmd_disable_loopback(cmd_new());
        assert(command_bytes(off) =~= seq![0x85u8]);
        let unlooped = self.send(cmd_as_slice(&off), "FTDI loopback disable failed: ");
        let ghost e6 = self.wire@.last();
        if let Err(e) = unlooped {
            assert(self.wire@.skip(w0.len() as int) =~= seq![e1, e2, e3, e4, e5, e6]);
            return Err(e);
        }
        let setting = clock_divisor(self.device_type, clock_hz);
        let (divisor, clkdiv) = match setting {
            Ok(v) => v,
            Err(e) => {
                assert(self.wire@.skip(w0.len() as int) =~= seq![e1, e2, e3, e4, e5, e6]);
                return Err(e);
            },
        };
        let clock = cmd_set_clock(cmd_new(), divisor, clkdiv);
        assert(command_bytes(clock) =~= set_clock_bytes(divisor, clkdiv));
        let mut context = "Failed to set FTDI clock to ".to_owned();
        push_decimal(&mut context, clock_hz);
        push_str(&mut context, "Hz: ");
        let clocked = self.send(cmd_as_slice(&clock), context.as_str());
        let ghost e7 = self.wire@.last();
        assert(self.wire@.skip(w0.len() as int) =~= seq![e1, e2, e3, e4, e5, e6, e7]);
        clocked
    }
}

} // verus!
