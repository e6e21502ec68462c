use pmu_programmer::bridges::ftdi::MockI2cBus;
use pmu_programmer::pmu::chip::{spec_for_model, ChipModel};
use pmu_programmer::pmu::device::ChipDevice;

#[test]
fn probe_reads_pmic_and_vcom_slave_for_ek86317a() {
    let bus = Box::new(MockI2cBus::new(ChipModel::Ek86317a));
    let mut device = ChipDevice::new(bus, spec_for_model(ChipModel::Ek86317a));
    assert_eq!(device.probe().unwrap(), (true, Some(true)));
}

#[test]
fn probe_skips_vcom_slave_for_lp6281() {
    let bus = Box::new(MockI2cBus::new(ChipModel::Lp6281));
    let mut device = ChipDevice::new(bus, spec_for_model(ChipModel::Lp6281));
    assert_eq!(device.probe().unwrap(), (true, None));
}
