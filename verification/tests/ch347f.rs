use pmu_programmer::bridges::ch347f::i2c::{encode_read_addr, encode_write_addr, i2c_mode_for_clock};

#[test]
fn encodes_i2c_addresses() {
    assert_eq!(encode_write_addr(0x20), 0x40);
    assert_eq!(encode_read_addr(0x20), 0x41);
}

#[test]
fn maps_common_clock_rates() {
    assert_eq!(i2c_mode_for_clock(20_000), 0x00);
    assert_eq!(i2c_mode_for_clock(50_000), 0x04);
    assert_eq!(i2c_mode_for_clock(100_000), 0x01);
    assert_eq!(i2c_mode_for_clock(200_000), 0x05);
    assert_eq!(i2c_mode_for_clock(400_000), 0x02);
    assert_eq!(i2c_mode_for_clock(750_000), 0x03);
    assert_eq!(i2c_mode_for_clock(1_000_000), 0x06);
}
