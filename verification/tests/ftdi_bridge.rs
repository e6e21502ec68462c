use pmu_programmer::bridges::ft232h::mpsse::{
    check_supported, clock_divisor, is_supported_ftdi_bridge, supported_devices,
    supports_3phase_clocking, Ft232hI2cBus, FtdiDeviceInfo, FtdiDeviceType, MpssePort,
};
use pmu_programmer::bridges::i2c::I2cBus;

#[test]
fn accepts_ft2232c_mpsse_bridge() {
    assert!(is_supported_ftdi_bridge(FtdiDeviceType::FT2232C));
    assert_eq!(clock_divisor(FtdiDeviceType::FT2232C, 100_000).unwrap(), (59, None));
}

#[test]
fn high_speed_bridges_divide_the_clock_by_five_up_to_six_mhz() {
    assert_eq!(clock_divisor(FtdiDeviceType::FT232H, 100_000).unwrap(), (59, Some(true)));
    assert_eq!(clock_divisor(FtdiDeviceType::FT232H, 6_000_000).unwrap(), (0, Some(true)));
    assert_eq!(clock_divisor(FtdiDeviceType::FT4232HA, 10_000_000).unwrap(), (2, Some(false)));
    assert_eq!(clock_divisor(FtdiDeviceType::FT2232H, 30_000_000).unwrap(), (0, Some(false)));
}

#[test]
fn clock_outside_range_is_refused() {
    assert_eq!(
        clock_divisor(FtdiDeviceType::FT2232C, 7_000_000).unwrap_err(),
        "FTDI FT2232C clock 7000000Hz is outside supported range 92..=6000000Hz"
    );
    assert_eq!(
        clock_divisor(FtdiDeviceType::FT232H, 91).unwrap_err(),
        "FTDI FT232H clock 91Hz is outside supported range 92..=30000000Hz"
    );
    assert_eq!(
        clock_divisor(FtdiDeviceType::FT232R, 100_000).unwrap_err(),
        "Unsupported FTDI bridge FT232R"
    );
}

#[test]
fn only_mpsse_devices_are_bridges() {
    assert!(is_supported_ftdi_bridge(FtdiDeviceType::FT232H));
    assert!(!is_supported_ftdi_bridge(FtdiDeviceType::FT232R));
    assert!(supports_3phase_clocking(FtdiDeviceType::FT4232H));
    assert!(!supports_3phase_clocking(FtdiDeviceType::FT2232C));
    assert!(check_supported(FtdiDeviceType::FT2232H).is_ok());
    assert_eq!(
        check_supported(FtdiDeviceType::FT_X_SERIES).unwrap_err(),
        "Unsupported FTDI bridge FT_X_SERIES; supported: FT232H, FT2232H, FT2232C, FT4232H/HA"
    );
}

#[test]
fn lists_free_bridges_with_their_descriptions() {
    let devices = vec![
        FtdiDeviceInfo {
            port_open: false,
            device_type: FtdiDeviceType::FT232H,
            serial_number: "FT1".to_string(),
            description: "Single RS232-HS".to_string(),
        },
        FtdiDeviceInfo {
            port_open: true,
            device_type: FtdiDeviceType::FT232H,
            serial_number: "FT2".to_string(),
            description: String::new(),
        },
        FtdiDeviceInfo {
            port_open: false,
            device_type: FtdiDeviceType::FT232R,
            serial_number: "FT3".to_string(),
            description: String::new(),
        },
        FtdiDeviceInfo {
            port_open: false,
            device_type: FtdiDeviceType::FT2232H,
            serial_number: "FT4".to_string(),
            description: String::new(),
        },
        FtdiDeviceInfo {
            port_open: false,
            device_type: FtdiDeviceType::FT4232H,
            serial_number: String::new(),
            description: String::new(),
        },
    ];
    let listed = supported_devices(&devices);
    assert_eq!(
        listed,
        vec![
            (0, "FT232H Single RS232-HS (FT1)".to_string()),
            (3, "FT2232H (FT4)".to_string()),
            (4, "FT4232H #4".to_string()),
        ]
    );
}

/// A port that acknowledges every byte except those listed, and records what
/// was sent.
struct ScriptedPort {
    nack_bytes: Vec<u8>,
    last_byte: u8,
    sent: Vec<Vec<u8>>,
    data: u8,
}

impl MpssePort for ScriptedPort {
    fn write_all(&mut self, bytes: &[u8]) -> Result<(), String> {
        if bytes.len() >= 4 && bytes[0] == 0x11 {
            self.last_byte = bytes[3];
        }
        self.sent.push(bytes.to_vec());
        Ok(())
    }

    fn read_all(&mut self, buf: &mut [u8]) -> Result<(), String> {
        let last = self.sent.last().cloned().unwrap_or_default();
        if last.first() == Some(&0x11) {
            buf[0] = if self.nack_bytes.contains(&self.last_byte) { 0x01 } else { 0x00 };
        } else {
            for b in buf.iter_mut() {
                *b = self.data;
            }
        }
        Ok(())
    }

    fn purge_rx(&mut self) -> Result<(), String> {
        Ok(())
    }

    fn configure(&mut self) -> Result<(), String> {
        Ok(())
    }

    fn sleep_ms(&mut self, _ms: u64) {}
}

fn port(nack_bytes: Vec<u8>) -> ScriptedPort {
    ScriptedPort { nack_bytes, last_byte: 0, sent: Vec::new(), data: 0x5A }
}

#[test]
fn acknowledged_write_succeeds() {
    let mut bus = Ft232hI2cBus::with_port(port(vec![]), FtdiDeviceType::FT232H);
    assert!(bus.write(0x20, &[0x01, 0x02]).is_ok());
}

#[test]
fn unacknowledged_address_reports_the_slave() {
    let mut bus = Ft232hI2cBus::with_port(port(vec![0x40]), FtdiDeviceType::FT232H);
    assert_eq!(bus.write(0x20, &[0x01]).unwrap_err(), "No ACK from slave 0x20 (write)");
    let mut buf = [0u8; 2];
    let mut bus = Ft232hI2cBus::with_port(port(vec![0x41]), FtdiDeviceType::FT232H);
    assert_eq!(bus.read(0x20, &mut buf).unwrap_err(), "No ACK from slave 0x20 (read)");
}

#[test]
fn unacknowledged_data_byte_is_reported() {
    let mut bus = Ft232hI2cBus::with_port(port(vec![0x99]), FtdiDeviceType::FT232H);
    assert_eq!(bus.write(0x20, &[0x01, 0x99]).unwrap_err(), "NACK during write to slave 0x20");
}

#[test]
fn write_read_reads_after_the_write() {
    let mut bus = Ft232hI2cBus::with_port(port(vec![]), FtdiDeviceType::FT232H);
    let mut buf = [0u8; 3];
    bus.write_read(0x20, &[0x05], &mut buf).unwrap();
    assert_eq!(buf, [0x5A, 0x5A, 0x5A]);
    let mut bus = Ft232hI2cBus::with_port(port(vec![0x41]), FtdiDeviceType::FT232H);
    assert_eq!(
        bus.write_read(0x20, &[0x05], &mut buf).unwrap_err(),
        "No ACK from slave 0x20 (read phase)"
    );
}

#[test]
fn setup_checks_the_mpsse_echo() {
    let mut bus = Ft232hI2cBus::with_port(port(vec![]), FtdiDeviceType::FT232H);
    assert_eq!(
        bus.init_i2c(100_000).unwrap_err(),
        "MPSSE init failed: FTDI MPSSE sync returned [5A, 5A]"
    );
}
