use pmu_programmer::pmu::commands::device::{
    parse_bridge_index, parse_bridge_selector, CH347F_BRIDGE_PREFIX, FTDI_BRIDGE_PREFIX,
};

#[test]
fn parses_ftdi_bridge_index() {
    assert_eq!(parse_bridge_index(FTDI_BRIDGE_PREFIX, "bridge:ftdi:3:demo").unwrap(), 3);
}

#[test]
fn parses_ch347_bridge_index() {
    assert_eq!(parse_bridge_index(CH347F_BRIDGE_PREFIX, "bridge:ch347f:5:bridge").unwrap(), 5);
}

#[test]
fn parses_ch347_bridge_selector_path() {
    assert_eq!(
        parse_bridge_selector(CH347F_BRIDGE_PREFIX, "bridge:ch347f:/dev/hidraw0:bridge").unwrap(),
        "/dev/hidraw0"
    );
}
