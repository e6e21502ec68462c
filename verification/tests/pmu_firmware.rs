use pmu_programmer::pmu::chip::ChipModel;
use pmu_programmer::pmu::firmware::FirmwareImage;
use pmu_programmer::pmu::firmware::{check_firmware_path, firmware_file_name, refuse_hex_extension};

#[test]
fn firmware_filters_by_chip_registers() {
    let data = vec![0u8; 0x50];
    let fw = FirmwareImage::from_bytes(data, ChipModel::Ek86317a).unwrap();
    assert!(fw.register_count > 0);
}

#[test]
fn firmware_rejects_empty() {
    assert!(FirmwareImage::from_bytes(vec![], ChipModel::Lp6281).is_err());
}

#[test]
fn firmware_path_with_hex_extension_is_refused() {
    let err = check_firmware_path("images/panel.HEX").unwrap_err();
    assert_eq!(
        err,
        "Intel HEX files are not supported. Please convert the firmware to a raw .bin file first."
    );
    assert!(check_firmware_path("panel.hex").is_err());
    assert!(check_firmware_path("panel.Hex").is_err());
}

#[test]
fn firmware_path_with_other_extension_is_accepted() {
    assert_eq!(check_firmware_path("panel.bin"), Ok(()));
    assert_eq!(check_firmware_path("panel"), Ok(()));
    assert_eq!(check_firmware_path(".hex"), Ok(()));
    assert_eq!(check_firmware_path("panel.hexa"), Ok(()));
}

#[test]
fn hex_extension_is_refused_in_any_case() {
    assert!(refuse_hex_extension(Some("hex".to_string())).is_err());
    assert!(refuse_hex_extension(Some("HeX".to_string())).is_err());
    assert_eq!(refuse_hex_extension(Some("bin".to_string())), Ok(()));
    assert_eq!(refuse_hex_extension(Some("he".to_string())), Ok(()));
    assert_eq!(refuse_hex_extension(None), Ok(()));
}

#[test]
fn plain_file_names_follow_the_last_dot() {
    assert!(check_firmware_path("a.b.hex").is_err());
    assert_eq!(check_firmware_path("a.hex.bin"), Ok(()));
    assert_eq!(check_firmware_path("a."), Ok(()));
    assert_eq!(check_firmware_path("..hex"), Err(
        "Intel HEX files are not supported. Please convert the firmware to a raw .bin file first.".to_string()
    ));
}

#[test]
fn firmware_file_name_is_the_last_component() {
    assert_eq!(firmware_file_name("panel.bin"), "panel.bin");
    assert_eq!(firmware_file_name("images/panel.bin"), "panel.bin");
    assert_eq!(firmware_file_name(".."), "..");
}
