//! Application-level errors and their messages.

use vstd::prelude::*;

use crate::text::{concat, hex2, push_str, with_hex2};

verus! {

/// `std::io::Error`, carried by `AppError::IoError`.
#[verifier::external_type_specification]
#[verifier::external_body]
pub struct ExIoError(std::io::Error);

/// The text of an I/O error (its `Display`). Nothing is claimed of it: it
/// depends on the operating system's messages.
#[verifier::external_body]
fn io_error_text(e: &std::io::Error) -> String {
    format!("{}", e)
}

/// Application-level error type.
#[derive(Debug)]
pub enum AppError {
    DeviceNotConnected,
    ConnectionFailed(String),
    I2cError(String),
    InvalidRegister(u8),
    FirmwareError(String),
    EepromError(String),
    IoError(std::io::Error),
    EncodeError(String),
    LockError,
}

impl AppError {
    /// The message of an error other than an I/O error.
    pub open spec fn message_of(&self) -> Seq<char> {
        match self {
            AppError::DeviceNotConnected => "Device not connected"@,
            AppError::ConnectionFailed(s) => "Device connection failed: "@ + s@,
            AppError::I2cError(s) => "I2C communication error: "@ + s@,
            AppError::InvalidRegister(a) => "Invalid register address: 0x"@ + hex2(*a),
            AppError::FirmwareError(s) => "Firmware error: "@ + s@,
            AppError::EepromError(s) => "EEPROM error: "@ + s@,
            AppError::IoError(_) => "IO error: "@,
            AppError::EncodeError(s) => "Encode error: "@ + s@,
            AppError::LockError => "Lock error: device state is poisoned"@,
        }
    }

    /// The error's message; an I/O error's message is "IO error: " followed by
    /// the I/O error's own text.
    pub fn to_string(&self) -> (s: String)
        ensures
            !(self is IoError) ==> s@ == self.message_of(),
            self is IoError ==> s@.len() >= self.message_of().len() && s@.take(
                self.message_of().len() as int,
            ) == self.message_of(),
    {
        match self {
            AppError::DeviceNotConnected => "Device not connected".to_owned(),
            AppError::ConnectionFailed(s) => concat("Device connection failed: ", s.as_str()),
            AppError::I2cError(s) => concat("I2C communication error: ", s.as_str()),
            AppError::InvalidRegister(a) => with_hex2("Invalid register address: 0x", *a),
            AppError::FirmwareError(s) => concat("Firmware error: ", s.as_str()),
            AppError::EepromError(s) => concat("EEPROM error: ", s.as_str()),
            AppError::IoError(e) => {
                let mut s = "IO error: ".to_owned();
                let text = io_error_text(e);
                let ghost before = s@;
                push_str(&mut s, text.as_str());
                assert(s@.take(before.len() as int) =~= before);
                s
            },
            AppError::EncodeError(s) => concat("Encode error: ", s.as_str()),
            AppError::LockError => "Lock error: device state is poisoned".to_owned(),
        }
    }
}

} // verus!
