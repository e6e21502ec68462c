//! The I2C bus trait, and a mock bridge simulating the EK86317A registers for
//! development.

use vstd::prelude::*;

pub use crate::bridges::i2c::I2cBus;

use crate::bridges::ft232h::i2c::{initial_state, mock_read_reply, mock_state_ok, mock_write,
    mock_write_read_ok, mock_write_read_reply, MockState};
use crate::bridges::ft232h::i2c::MockI2cBus as Simulator;
use crate::bridges::i2c::BusOp;
use crate::ek86317a::registers::VCOM_REG_VCOM1_NT;
use crate::pmu::chip::ChipModel;
use crate::text::hex2;

verus! {

/// The power-on state of the EK86317A simulation: the EK86317A chip with the
/// VCOM slave's VCOM1_NT register cleared.
pub open spec fn ek_initial_state() -> MockState {
    let s = initial_state(ChipModel::Ek86317a);
    MockState { vcom: s.vcom.insert(VCOM_REG_VCOM1_NT, 0), ..s }
}

/// A mock I2C bus simulating the EK86317A: PMIC slave 0x20 with DAC and EEPROM
/// banks, VCOM slave 0x74.
pub struct MockI2cBus {
    sim: Simulator,
}

impl View for MockI2cBus {
    type V = MockState;

    closed spec fn view(&self) -> MockState {
        self.sim@
    }
}

impl MockI2cBus {
    /// A simulator with the EK86317A defaults in both PMIC banks.
    pub fn new() -> (bus: Self)
        ensures
            bus@ == ek_initial_state(),
            mock_state_ok(bus@),
            bus.history() == Seq::<BusOp>::empty(),
    {
        let mut sim = Simulator::new(ChipModel::Ek86317a);
        sim.preset_vcom(VCOM_REG_VCOM1_NT, 0x00);
        MockI2cBus { sim }
    }

    /// Whether the slave at `addr` acknowledges.
    pub fn is_slave_active(&self, addr: u8) -> (r: bool)
        ensures
            r == self@.active.contains(addr),
    {
        self.sim.is_slave_active(addr)
    }

    /// Handle a PMIC control register write: bank selection or EEPROM burn.
    fn handle_control_write(&mut self, value: u8)
        ensures
            final(self)@ == crate::bridges::ft232h::i2c::control_write(old(self)@, value),
            final(self).history() == old(self).history(),
    {
        self.sim.handle_control_write(value)
    }
}

impl I2cBus for MockI2cBus {
    closed spec fn history(&self) -> Seq<BusOp> {
        self.sim.history()
    }

    fn write(&mut self, addr: u8, data: &[u8]) -> (r: Result<(), String>)
        ensures
            final(self)@ == mock_write(old(self)@, addr, data@).0,
            (r is Ok) == mock_write(old(self)@, addr, data@).1,
            r matches Err(e) ==> e@ == (if old(self)@.active.contains(addr) {
                "Unknown slave address 0x"@
            } else {
                "No ACK from slave 0x"@
            }) + hex2(addr),
    {
        self.sim.write(addr, data)
    }

    fn read(&mut self, addr: u8, buf: &mut [u8]) -> (r: Result<(), String>)
        ensures
            final(self)@ == old(self)@,
            (r is Ok) == old(self)@.active.contains(addr),
            final(buf)@ == mock_read_reply(old(self)@, addr, old(buf)@),
            r matches Err(e) ==> e@ == "No ACK from slave 0x"@ + hex2(addr),
    {
        self.sim.read(addr, buf)
    }

    fn write_read(&mut self, addr: u8, write_data: &[u8], read_buf: &mut [u8]) -> (r: Result<
        (),
        String,
    >)
        ensures
            final(self)@ == old(self)@,
            (r is Ok) == mock_write_read_ok(old(self)@, addr, write_data@),
            final(read_buf)@ == mock_write_read_reply(old(self)@, addr, write_data@, old(read_buf)@),
    {
        self.sim.write_read(addr, write_data, read_buf)
    }

    fn bus_recovery(&mut self) -> (r: Result<(), String>)
        ensures
            final(self)@ == old(self)@,
            r is Ok,
    {
        self.sim.bus_recovery()
    }

    fn delay_ms(&mut self, ms: u64)
        ensures
            final(self)@ == old(self)@,
    {
        self.sim.delay_ms(ms)
    }
}

} // verus!
