use pmu_programmer::bridges::ftdi::MockI2cBus;
use pmu_programmer::pmu::chip::{spec_for_model, ChipModel};
use pmu_programmer::pmu::commands::device::{
    bridge_ids, bridge_kind, connect_with_bus, parse_bridge_index, parse_bridge_selector, probe_device_info,
    BridgeKind, CH347F_BRIDGE_PREFIX, FTDI_BRIDGE_PREFIX,
};
use pmu_programmer::pmu::commands::eeprom::read_fault_flags;
use pmu_programmer::pmu::commands::firmware::{
    build_export_bin, program_firmware, verify_all, verify_firmware, write_all_dac_registers,
};
use pmu_programmer::pmu::commands::register::{
    build_decode_context_from_regs, needs_vcom_context, read_decode_context_for_single,
    write_dac_register, DecodeContext,
};
use pmu_programmer::pmu::device::ChipDevice;
use pmu_programmer::pmu::ek86317a::protocol::Ek86317a;
use pmu_programmer::pmu::firmware::FirmwareImage;

fn device(model: ChipModel) -> ChipDevice {
    ChipDevice::new(Box::new(MockI2cBus::new(model)), spec_for_model(model))
}

#[test]
fn bridge_ids_are_checked() {
    assert_eq!(
        parse_bridge_selector(FTDI_BRIDGE_PREFIX, "bridge:ch347f:1:x").unwrap_err(),
        "Device ID bridge:ch347f:1:x does not match prefix bridge:ftdi:"
    );
    assert_eq!(
        parse_bridge_selector(FTDI_BRIDGE_PREFIX, "bridge:ftdi::x").unwrap_err(),
        "Invalid device ID: bridge:ftdi::x"
    );
    assert_eq!(
        parse_bridge_index(CH347F_BRIDGE_PREFIX, "bridge:ch347f:/dev/x:y").unwrap_err(),
        "Invalid device ID: bridge:ch347f:/dev/x:y"
    );
    assert_eq!(parse_bridge_selector(FTDI_BRIDGE_PREFIX, "bridge:ftdi:7").unwrap(), "7");
    assert_eq!(bridge_kind("bridge:ftdi:0:x").unwrap(), BridgeKind::Ftdi);
    assert_eq!(bridge_kind("bridge:ch347f:0:x").unwrap(), BridgeKind::Ch347f);
    assert_eq!(bridge_kind("bridge:mock:development").unwrap(), BridgeKind::Mock);
    assert_eq!(
        bridge_kind("bridge:mock:developmentx").unwrap_err(),
        "Unsupported device ID: bridge:mock:developmentx"
    );
}

#[test]
fn scanned_ids_parse_back() {
    for (idx, desc) in [(0u32, "FT232H (A)"), (12, "x:y:z")] {
        let id = format!("{}{}:{}", FTDI_BRIDGE_PREFIX, idx, desc);
        assert_eq!(parse_bridge_index(FTDI_BRIDGE_PREFIX, &id).unwrap(), idx);
    }
}

#[test]
fn export_ignores_control_and_unknown_registers() {
    let bin = build_export_bin(ChipModel::Ek86317a, &[(0xFF, 0x01), (0x40, 0x77), (0x45, 0x12), (0x45, 0x13)])
        .unwrap();
    assert_eq!(bin.len(), 0x47);
    assert_eq!(bin[0x40], 0x00);
    assert_eq!(bin[0x45], 0x13);
}

#[test]
fn exported_image_reads_back_as_the_ui_values() {
    let bin = build_export_bin(ChipModel::Lp6281, &[(0x01, 0x33)]).unwrap();
    let fw = FirmwareImage::from_bytes(bin, ChipModel::Lp6281).unwrap();
    let regs = fw.get_all_registers();
    assert_eq!(regs.len(), 0x31);
    assert!(regs.contains(&(0x01, 0x33)));
}

#[test]
fn program_then_verify_matches() {
    let mut dev = device(ChipModel::Ek86317a);
    let mut data = vec![0u8; 0x47];
    data[0x00] = 0x15;
    data[0x01] = 0x20;
    let result = program_firmware(&mut dev, data.clone(), true).unwrap();
    assert!(result.success);
    assert_eq!(result.registers_written, 53);
    assert!(result.eeprom_written);
    let verified = verify_firmware(&mut dev, data.clone()).unwrap();
    assert!(verified.success);
    assert_eq!(verified.total, 53);
    assert_eq!(verified.matched, 53);
    let all = verify_all(&mut dev, data).unwrap();
    assert_eq!(all.dac_matched, 53);
    assert_eq!(all.eeprom_matched, 53);
}

#[test]
fn verify_reports_mismatches() {
    let mut dev = device(ChipModel::Ek86317a);
    let mut data = vec![0u8; 0x02];
    data[0x00] = 0x15;
    let verified = verify_firmware(&mut dev, data).unwrap();
    assert_eq!(verified.total, 2);
    assert!(!verified.success);
    assert_eq!(verified.matched + verified.mismatches.len(), 2);
    assert!(program_firmware(&mut dev, vec![], false).unwrap_err() == "Empty firmware file");
}

#[test]
fn dac_writes_read_back() {
    let mut dev = device(ChipModel::Ek86317a);
    write_dac_register(&mut dev, 0x01, 0x22).unwrap();
    assert_eq!(dev.read_dac_register(0x01).unwrap(), 0x22);
    assert_eq!(
        write_dac_register(&mut dev, 0xFF, 0x80).unwrap_err(),
        "Control register 0xFF is reserved for dedicated EEPROM commands"
    );
    assert_eq!(
        write_all_dac_registers(&mut dev, &[(0x01, 0x01), (0xFF, 0x80)]).unwrap_err(),
        "Control register 0xFF is reserved for dedicated EEPROM commands"
    );
    let written = write_all_dac_registers(&mut dev, &[(0x02, 0x03), (0x03, 0x04)]).unwrap();
    assert!(written.success);
    assert_eq!(written.registers_written, 2);
    assert_eq!(dev.read_dac_register(0x03).unwrap(), 0x04);
}

#[test]
fn burning_copies_dac_into_eeprom() {
    let mut dev = device(ChipModel::Ek86317a);
    dev.write_dac_register(0x02, 0x44).unwrap();
    assert_ne!(dev.read_eeprom_register(0x02).unwrap(), 0x44);
    dev.write_all_to_eeprom().unwrap();
    assert_eq!(dev.read_eeprom_register(0x02).unwrap(), 0x44);
}

#[test]
fn fault_flags_need_support() {
    let mut lp = device(ChipModel::Lp6281);
    assert_eq!(
        read_fault_flags(&mut lp).unwrap_err(),
        "LP6281 does not support separate fault flags"
    );
    let mut ek = device(ChipModel::Ek86317a);
    let flags = read_fault_flags(&mut ek).unwrap();
    assert_eq!(flags.raw, 0);
    assert!(!flags.otp);
}

#[test]
fn decode_context_takes_the_last_values() {
    let dev = device(ChipModel::Ek86317a);
    let ctx = build_decode_context_from_regs(&dev, &[(0x00, 1), (0x0B, 2), (0x00, 3), (0x0A, 4)]);
    assert_eq!(
        ctx,
        DecodeContext { avdd_value: Some(3), vcom_min_value: Some(2), vcom_max_value: Some(4), mode_value: None }
    );
    assert!(needs_vcom_context(0x45));
    assert!(!needs_vcom_context(0x01));
}

#[test]
fn single_register_context_reads_what_it_needs() {
    let mut dev = device(ChipModel::Ek86317a);
    let ctx = read_decode_context_for_single(&mut dev, 0x0B, 0x30);
    assert_eq!(ctx.vcom_min_value, Some(0x30));
    assert!(ctx.avdd_value.is_some());
    assert!(ctx.vcom_max_value.is_some());
    let ctx = read_decode_context_for_single(&mut dev, 0x01, 0x30);
    assert_eq!(ctx.vcom_min_value, None);
    assert_eq!(ctx.vcom_max_value, None);
}

#[test]
fn connection_reports_the_probe() {
    let (mut dev, info) =
        connect_with_bus(Box::new(MockI2cBus::new(ChipModel::Lp6281)), "bridge:mock:development".to_string(), ChipModel::Lp6281)
            .unwrap();
    assert!(info.pmic_detected);
    assert_eq!(info.vcom_detected, None);
    assert_eq!(info.device_id, "bridge:mock:development");
    assert_eq!(info.chip_model, ChipModel::Lp6281);
    let again = probe_device_info(&mut dev, String::new()).unwrap();
    assert!(again.pmic_detected);
}

#[test]
fn vcom_value_survives_eeprom_store_and_reload() {
    let mut ek = Ek86317a::new(Box::new(MockI2cBus::new(ChipModel::Ek86317a)));
    ek.write_vcom1_nt(0x5A).unwrap();
    assert_eq!(ek.read_vcom1_nt().unwrap(), 0x5A);
    ek.write_vcom1_nt_to_eeprom().unwrap();
    ek.write_vcom1_nt(0x00).unwrap();
    assert_eq!(ek.read_vcom1_nt().unwrap(), 0x00);
    ek.load_vcom1_from_eeprom().unwrap();
    assert_eq!(ek.read_vcom1_nt().unwrap(), 0x5A);
    ek.set_vcom1_enable(true).unwrap();
    ek.set_vcom1_enable(false).unwrap();
    assert!(ek.write_firmware(&[]).is_err());
    ek.write_firmware(&[0x10, 0x20]).unwrap();
}

#[test]
fn scan_listing_becomes_bridge_ids() {
    let listing = vec![(0u32, "FT232H (A)".to_string()), (17u32, "x:y".to_string())];
    let ids = bridge_ids(FTDI_BRIDGE_PREFIX, &listing);
    assert_eq!(ids, vec!["bridge:ftdi:0:FT232H (A)".to_string(), "bridge:ftdi:17:x:y".to_string()]);
    assert_eq!(parse_bridge_index(FTDI_BRIDGE_PREFIX, &ids[1]).unwrap(), 17);
    let ch = bridge_ids(CH347F_BRIDGE_PREFIX, &vec![(3u32, "CH347F".to_string())]);
    assert_eq!(ch, vec!["bridge:ch347f:3:CH347F".to_string()]);
    assert_eq!(parse_bridge_index(CH347F_BRIDGE_PREFIX, &ch[0]).unwrap(), 3);
    assert!(bridge_ids(FTDI_BRIDGE_PREFIX, &vec![]).is_empty());
}

#[test]
fn driver_passes_the_bridge_error_on() {
    // An EK86317A driver on a simulated LP6281 board: no slave answers at 0x74.
    let mut ek = Ek86317a::new(Box::new(MockI2cBus::new(ChipModel::Lp6281)));
    assert_eq!(ek.read_vcom1_nt().unwrap_err(), "No ACK from slave 0x74");
    assert_eq!(ek.write_vcom1_nt(0x10).unwrap_err(), "No ACK from slave 0x74");
    assert_eq!(ek.set_vcom1_enable(true).unwrap_err(), "No ACK from slave 0x74");
    assert_eq!(ek.read_fault_flags().unwrap_err(), "No ACK from slave 0x74");
    assert_eq!(ek.probe().unwrap(), (true, false));
}
