use std::sync::{Arc, Mutex};

use pmu_programmer::bridges::ch347f::i2c::{Ch347I2cBus, Ch347Transport};
use pmu_programmer::bridges::i2c::I2cBus;
use pmu_programmer::pmu::chip::{spec_for_model, ChipModel};
use pmu_programmer::pmu::device::ChipDevice;

/// A transport whose transfers all succeed and that records the waits asked
/// of it.
struct RecordingTransport {
    waits: Arc<Mutex<Vec<u64>>>,
}

impl Ch347Transport for RecordingTransport {
    fn write_only(&mut self, _write_buf: &mut [u8]) -> Result<(), String> {
        Ok(())
    }

    fn read_only(&mut self, _read_addr: u8, read_buf: &mut [u8]) -> Result<(), String> {
        for b in read_buf.iter_mut() {
            *b = 0x5A;
        }
        Ok(())
    }

    fn sleep_ms(&mut self, ms: u64) {
        self.waits.lock().unwrap().push(ms);
    }
}

fn device(model: ChipModel, waits: &Arc<Mutex<Vec<u64>>>) -> ChipDevice {
    let bus = Ch347I2cBus::with_transport(RecordingTransport { waits: waits.clone() });
    ChipDevice::new(Box::new(bus), spec_for_model(model))
}

#[test]
fn eeprom_burn_waits_the_write_time() {
    let waits = Arc::new(Mutex::new(Vec::new()));
    let mut dev = device(ChipModel::Lp6281, &waits);
    dev.write_all_to_eeprom().unwrap();
    assert_eq!(*waits.lock().unwrap(), vec![200]);
    dev.write_vcom1_to_eeprom().unwrap();
    assert_eq!(*waits.lock().unwrap(), vec![200, 200]);
}

#[test]
fn bank_select_waits_the_read_time() {
    let waits = Arc::new(Mutex::new(Vec::new()));
    let mut dev = device(ChipModel::Ek86317a, &waits);
    assert_eq!(dev.read_dac_register(0x01).unwrap(), 0x5A);
    assert_eq!(*waits.lock().unwrap(), vec![5]);
    let all = dev.read_all_eeprom().unwrap();
    assert!(!all.is_empty());
    assert_eq!(*waits.lock().unwrap(), vec![5, 5]);
}

#[test]
fn bridge_delay_reaches_the_transport() {
    let waits = Arc::new(Mutex::new(Vec::new()));
    let mut bus = Ch347I2cBus::with_transport(RecordingTransport { waits: waits.clone() });
    bus.delay_ms(7);
    assert_eq!(*waits.lock().unwrap(), vec![7]);
}
