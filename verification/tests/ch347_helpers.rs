use pmu_programmer::bridges::ch347f::i2c::linux_api::{
    chip_name_for_type, device_path_from_index, driver_version_text, format_device_description,
    parse_device_index, sort_by_index, vid_pid_text,
};
use pmu_programmer::bridges::ch347f::i2c::windows_api::{
    decode_c_string, format_device_description as describe_windows_device, slot_description,
    DeviceInfo,
};
use pmu_programmer::bridges::ch347f::i2c::{
    encode_read_addr, encode_write_addr, i2c_mode_for_clock, Ch347I2cBus, Unavailable,
};
use pmu_programmer::bridges::i2c::I2cBus;

#[test]
fn address_bytes_differ_in_the_rw_bit() {
    for addr in 0u8..128 {
        assert_eq!(encode_write_addr(addr) >> 1, addr);
        assert_eq!(encode_read_addr(addr), encode_write_addr(addr) | 1);
    }
}

#[test]
fn clock_modes_switch_at_range_ends() {
    assert_eq!(i2c_mode_for_clock(35_000), 0x00);
    assert_eq!(i2c_mode_for_clock(35_001), 0x04);
    assert_eq!(i2c_mode_for_clock(875_000), 0x03);
    assert_eq!(i2c_mode_for_clock(875_001), 0x06);
}

#[test]
fn build_without_bridge_support_refuses() {
    assert_eq!(
        Ch347I2cBus::list_devices().unwrap_err(),
        "CH347F support not compiled in. Rebuild with --features ch347f"
    );
    assert!(Ch347I2cBus::open(0, 100_000).is_err());
    let mut bus = Ch347I2cBus::with_transport(Unavailable);
    assert_eq!(bus.write(0x20, &[0x00]).unwrap_err(), "CH347F I2C write is unavailable on this build");
    let mut empty: [u8; 0] = [];
    assert!(bus.read(0x20, &mut empty).is_ok());
    let mut one = [0u8; 1];
    assert_eq!(bus.read(0x20, &mut one).unwrap_err(), "CH347F I2C read is unavailable on this build");
    assert!(bus.write_read(0x20, &[], &mut empty).is_ok());
    assert!(bus.bus_recovery().is_ok());
}

#[test]
fn device_nodes_round_trip() {
    assert_eq!(device_path_from_index(3), "/dev/ch34x_pis3");
    assert_eq!(parse_device_index("ch34x_pis12"), Some(12));
    assert_eq!(parse_device_index("ch34x_pis"), None);
    assert_eq!(parse_device_index("ttyUSB0"), None);
    assert_eq!(parse_device_index("ch34x_pis1x"), None);
    for n in [0u32, 7, 4_294_967_295] {
        let path = device_path_from_index(n);
        let name = path.rsplit('/').next().unwrap();
        assert_eq!(parse_device_index(name), Some(n));
    }
}

#[test]
fn linux_device_description() {
    assert_eq!(chip_name_for_type(2), "CH347F bridge");
    assert_eq!(chip_name_for_type(9), "CH34x bridge");
    assert_eq!(vid_pid_text(0x55D2_1A86), "VID 1A86 PID 55D2");
    let mut buf = [0u8; 64];
    buf[..5].copy_from_slice(b" 1.2 ");
    assert_eq!(driver_version_text(&buf), Some("driver 1.2".to_string()));
    assert_eq!(driver_version_text(&[0u8; 64]), None);
    assert_eq!(
        format_device_description(Some(2), "/dev/ch34x_pis0", Some(&buf), Some(0x55D2_1A86)),
        "CH347F bridge / /dev/ch34x_pis0 / VID 1A86 PID 55D2 / driver 1.2"
    );
    assert_eq!(
        format_device_description(None, "/dev/ch34x_pis1", None, None),
        "CH34x bridge / /dev/ch34x_pis1 / VID/PID unknown / driver unknown"
    );
}

#[test]
fn listing_is_sorted_by_index_keeping_ties_in_order() {
    let sorted = sort_by_index(vec![
        (3, "c".to_string()),
        (1, "a".to_string()),
        (3, "d".to_string()),
        (0, "z".to_string()),
        (1, "b".to_string()),
    ]);
    let expected: Vec<(u32, String)> = vec![
        (0, "z".to_string()),
        (1, "a".to_string()),
        (1, "b".to_string()),
        (3, "c".to_string()),
        (3, "d".to_string()),
    ];
    assert_eq!(sorted, expected);
}

fn field(text: &str) -> [u8; 64] {
    let mut f = [0u8; 64];
    f[..text.len()].copy_from_slice(text.as_bytes());
    f
}

#[test]
fn windows_device_description() {
    let mut raw = [0u8; 16];
    raw[..9].copy_from_slice(b"  Hello \0");
    raw[9..12].copy_from_slice(b"xyz");
    assert_eq!(decode_c_string(&raw), "Hello");
    let info = DeviceInfo {
        product_string: field("USB2.0-I2C"),
        manufacturer_string: field("WCH"),
        func_desc_str: field(""),
    };
    assert_eq!(describe_windows_device(&info), "WCH / USB2.0-I2C");
    assert_eq!(info.product(), "USB2.0-I2C");
    let blank = DeviceInfo { product_string: [0; 64], manufacturer_string: [0; 64], func_desc_str: [0; 64] };
    assert_eq!(describe_windows_device(&blank), "CH347 bridge");
    assert_eq!(slot_description(None), "CH347 bridge");
}

#[test]
fn c_strings_lose_unicode_whitespace_at_both_ends() {
    let mut raw = vec![0xC2u8, 0xA0, b' ', b'C', b'H', b' ', b'3', b'\t', b'\n'];
    raw.push(0);
    raw.extend_from_slice(b"tail");
    assert_eq!(decode_c_string(&raw), "CH 3");
}
