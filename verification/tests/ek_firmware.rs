use pmu_programmer::ek86317a::firmware::FirmwareImage;

#[test]
fn test_firmware_from_bytes() {
    let data = vec![0u8; 0x50];
    let fw = FirmwareImage::from_bytes(data).unwrap();
    assert_eq!(fw.size, 0x50);
    assert!(fw.register_count > 0);
}

#[test]
fn test_firmware_empty() {
    let result = FirmwareImage::from_bytes(vec![]);
    assert!(result.is_err());
}

#[test]
fn test_get_register_value() {
    let mut data = vec![0u8; 0x50];
    data[0x00] = 0x15;
    data[0x01] = 0x20;
    let fw = FirmwareImage::from_bytes(data).unwrap();
    assert_eq!(fw.get_register_value(0x00), Some(0x15));
    assert_eq!(fw.get_register_value(0x01), Some(0x20));
    assert_eq!(fw.get_register_value(0xFF), None);
}
