use pmu_programmer::commands::eeprom::read_fault_flags;
use pmu_programmer::commands::device::{device_kind, parse_ft232h_index, probe_device_info, DeviceKind};
use pmu_programmer::commands::firmware::{eeprom_image, program_firmware, verify_all, verify_firmware, write_all_dac_registers};
use pmu_programmer::commands::register::{build_decode_context_from_regs, needs_vcom_context, read_decode_context_for_single};
use pmu_programmer::ek86317a::Ek86317a;
use pmu_programmer::error::AppError;
use pmu_programmer::ft232h::MockI2cBus;

fn device() -> Ek86317a {
    Ek86317a::new(Box::new(MockI2cBus::new()))
}

#[test]
fn ft232h_ids() {
    assert_eq!(parse_ft232h_index("FT232H:2:FT232H (A)").unwrap(), 2);
    assert_eq!(parse_ft232h_index("FT232H:x").unwrap_err(), "Invalid device ID: FT232H:x");
    assert_eq!(parse_ft232h_index("FT232H").unwrap_err(), "Invalid device ID: FT232H");
    assert_eq!(device_kind("FT232H:0:a").unwrap(), DeviceKind::Ft232h);
    assert_eq!(device_kind("Mock FT232H (development)").unwrap(), DeviceKind::Mock);
    assert_eq!(device_kind("other").unwrap_err(), "Unsupported device ID: other");
}

#[test]
fn mock_answers_both_slaves() {
    let mut dev = device();
    let info = probe_device_info(&mut dev, "Mock FT232H (development)".to_string()).unwrap();
    assert!(info.pmic_detected && info.vcom_detected);
    assert_eq!(dev.read_vcom1_nt().unwrap(), 0x00);
}

#[test]
fn ek_program_and_verify() {
    let mut dev = device();
    let data = vec![0x11u8; 0x10];
    let programmed = program_firmware(&mut dev, data.clone(), false).unwrap();
    assert_eq!(programmed.registers_written, 0x10);
    let verified = verify_firmware(&mut dev, data.clone()).unwrap();
    assert_eq!(verified.total, 0x10);
    assert!(verified.success);
    assert_eq!(verified.matched, 0x10);
    assert!(verified.mismatches.is_empty());
    let all = verify_all(&mut dev, data).unwrap();
    assert_eq!(all.dac_matched, 0x10);
    assert!(write_all_dac_registers(&mut dev, &[(0xFF, 0)]).is_err());
}

#[test]
fn eeprom_export_image() {
    assert_eq!(eeprom_image(&[(0x02, 0x09), (0x00, 0x01)]), vec![0x01, 0x00, 0x09]);
    assert_eq!(eeprom_image(&[]), vec![0x00]);
}

#[test]
fn ek_decode_context() {
    let ctx = build_decode_context_from_regs(&[(0x00, 5), (0x0A, 6)]);
    assert_eq!(ctx.avdd_value, Some(5));
    assert_eq!(ctx.vcom_max_value, Some(6));
    assert_eq!(ctx.vcom_min_value, None);
    assert!(needs_vcom_context(0x08));
    let mut dev = device();
    let ctx = read_decode_context_for_single(&mut dev, 0x00, 0x42);
    assert_eq!(ctx.avdd_value, Some(0x42));
}

#[test]
fn error_messages() {
    assert_eq!(AppError::InvalidRegister(0x1F).to_string(), "Invalid register address: 0x1F");
    assert_eq!(AppError::DeviceNotConnected.to_string(), "Device not connected");
    assert_eq!(AppError::LockError.to_string(), "Lock error: device state is poisoned");
    assert_eq!(AppError::I2cError("x".to_string()).to_string(), "I2C communication error: x");
    let io = AppError::IoError(std::io::Error::new(std::io::ErrorKind::Other, "disk"));
    assert_eq!(io.to_string(), "IO error: disk");
}

#[test]
fn ek_fault_flags_decode() {
    let mut dev = device();
    let flags = read_fault_flags(&mut dev).unwrap();
    assert_eq!(flags.raw, 0x00);
    assert!(!flags.otp && !flags.vbk1 && !flags.avdd && !flags.vgh);
    assert!(!flags.vgl && !flags.vss1 && !flags.havdd);
    let f = pmu_programmer::ek86317a::registers::FaultFlags::from_raw(0x41);
    assert!(f.otp && f.havdd && !f.vbk1 && !f.vss1);
    assert_eq!(f.raw, 0x41);
}

#[test]
fn register_info_lookup_finds_table_rows() {
    let all = pmu_programmer::ek86317a::registers::get_all_register_info();
    assert_eq!(all.len(), 54);
    for info in &all {
        let found = pmu_programmer::ek86317a::registers::get_register_info(info.address).unwrap();
        assert_eq!(found.name, info.name);
        assert_eq!(found.default_value, info.default_value);
        assert_eq!(found.bit_width, info.bit_width);
    }
    assert_eq!(
        pmu_programmer::ek86317a::registers::get_register_info(0x0A).unwrap().default_value,
        0x3F
    );
    assert!(pmu_programmer::ek86317a::registers::get_register_info(0x40).is_none());
}
