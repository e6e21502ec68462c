//! LP6281 register map.

use vstd::prelude::*;

verus! {

pub const REG_AVDD: u8 = 0x00;
pub const REG_VBK1: u8 = 0x01;
pub const REG_HAVDD: u8 = 0x02;
pub const REG_VGH_NT: u8 = 0x03;
pub const REG_VGH_LT: u8 = 0x04;
pub const REG_VGL_NT: u8 = 0x05;
pub const REG_VGL_LT_HT: u8 = 0x06;
pub const REG_VSS1: u8 = 0x07;
pub const REG_VCOM_NT: u8 = 0x08;
pub const REG_VCOM_HT: u8 = 0x09;
pub const REG_VCOM_MAX: u8 = 0x0A;
pub const REG_VCOM_MIN: u8 = 0x0B;
pub const REG_CHANNEL_EN: u8 = 0x28;
pub const REG_CHANNEL_SET: u8 = 0x29;
pub const REG_DELAY1: u8 = 0x2A;
pub const REG_DELAY2: u8 = 0x2B;
pub const REG_DISCHARGE: u8 = 0x2C;
pub const REG_CONFIG1: u8 = 0x2D;
pub const REG_NTC_VGH_VGL: u8 = 0x2E;
pub const REG_NTC_VCOM: u8 = 0x2F;
pub const REG_CONFIG2: u8 = 0x30;
pub const REG_CONTROL: u8 = 0xFF;

pub const CTRL_WRITE_ALL_EEPROM: u8 = 0x80;
pub const CTRL_WRITE_VCOM1_EEPROM: u8 = 0x40;
pub const CTRL_READ_EEPROM: u8 = 0x01;
pub const CTRL_READ_DAC: u8 = 0x00;

pub const DEFAULT_REG_AVDD_VALUE: u8 = 0x29;
pub const DEFAULT_REG_VBK1_VALUE: u8 = 0x1E;
pub const DEFAULT_REG_HAVDD_VALUE: u8 = 0x40;
pub const DEFAULT_REG_VGH_NT_VALUE: u8 = 0x0A;
pub const DEFAULT_REG_VGH_LT_VALUE: u8 = 0x0F;
pub const DEFAULT_REG_VGL_NT_VALUE: u8 = 0x0A;
pub const DEFAULT_REG_VGL_LT_HT_VALUE: u8 = 0x12;
pub const DEFAULT_REG_VSS1_VALUE: u8 = 0x06;
pub const DEFAULT_REG_VCOM_NT_VALUE: u8 = 0x7E;
pub const DEFAULT_REG_VCOM_HT_VALUE: u8 = 0xBA;
pub const DEFAULT_REG_VCOM_MAX_VALUE: u8 = 0x3F;
pub const DEFAULT_REG_VCOM_MIN_VALUE: u8 = 0x26;

/// The PMIC register addresses: 0x00..=0x30.
pub open spec fn pmic_reg_address_seq() -> Seq<u8> {
    Seq::new(0x31, |i: int| i as u8)
}

/// The PMIC register addresses: 0x00..=0x30.
pub fn pmic_reg_addresses() -> (v: Vec<u8>)
    ensures
        v@ == pmic_reg_address_seq(),
{
    let mut v: Vec<u8> = Vec::new();
    let mut a: u8 = 0;
    while a <= 0x30
        invariant
            a <= 0x31,
            v@ =~= Seq::new(a as nat, |i: int| i as u8),
        decreases 0x31 - a,
    {
        v.push(a);
        a = a + 1;
    }
    v
}

/// The power-on default of register `addr`; the gamma pairs 0x0C..=0x27 default
/// to 0x02 in the high byte (even address) and 0x00 in the low byte.
pub open spec fn default_value_of(addr: u8) -> u8 {
    if 0x0C <= addr <= 0x27 {
        if addr % 2 == 0 { 0x02 } else { 0x00 }
    } else {
        match addr {
            REG_AVDD => DEFAULT_REG_AVDD_VALUE,
            REG_VBK1 => DEFAULT_REG_VBK1_VALUE,
            REG_HAVDD => DEFAULT_REG_HAVDD_VALUE,
            REG_VGH_NT => DEFAULT_REG_VGH_NT_VALUE,
            REG_VGH_LT => DEFAULT_REG_VGH_LT_VALUE,
            REG_VGL_NT => DEFAULT_REG_VGL_NT_VALUE,
            REG_VGL_LT_HT => DEFAULT_REG_VGL_LT_HT_VALUE,
            REG_VSS1 => DEFAULT_REG_VSS1_VALUE,
            REG_VCOM_NT => DEFAULT_REG_VCOM_NT_VALUE,
            REG_VCOM_HT => DEFAULT_REG_VCOM_HT_VALUE,
            REG_VCOM_MAX => DEFAULT_REG_VCOM_MAX_VALUE,
            REG_VCOM_MIN => DEFAULT_REG_VCOM_MIN_VALUE,
            REG_CHANNEL_EN => 0xFF,
            REG_DISCHARGE => 0xFF,
            REG_CONFIG1 => 0x81,
            REG_NTC_VGH_VGL => 0xD8,
            REG_NTC_VCOM => 0x41,
            REG_CONFIG2 => 0x1A,
            _ => 0x00,
        }
    }
}

/// The default register map: every address 0x00..=0x30 with its default, in
/// ascending address order.
pub open spec fn default_register_seq() -> Seq<(u8, u8)> {
    Seq::new(0x31, |i: int| (i as u8, default_value_of(i as u8)))
}

/// The named registers with their defaults, in ascending address order.
fn named_defaults() -> (v: Vec<(u8, u8)>)
    ensures
        v@ == seq![
            (REG_AVDD, DEFAULT_REG_AVDD_VALUE),
            (REG_VBK1, DEFAULT_REG_VBK1_VALUE),
            (REG_HAVDD, DEFAULT_REG_HAVDD_VALUE),
            (REG_VGH_NT, DEFAULT_REG_VGH_NT_VALUE),
            (REG_VGH_LT, DEFAULT_REG_VGH_LT_VALUE),
            (REG_VGL_NT, DEFAULT_REG_VGL_NT_VALUE),
            (REG_VGL_LT_HT, DEFAULT_REG_VGL_LT_HT_VALUE),
            (REG_VSS1, DEFAULT_REG_VSS1_VALUE),
            (REG_VCOM_NT, DEFAULT_REG_VCOM_NT_VALUE),
            (REG_VCOM_HT, DEFAULT_REG_VCOM_HT_VALUE),
            (REG_VCOM_MAX, DEFAULT_REG_VCOM_MAX_VALUE),
            (REG_VCOM_MIN, DEFAULT_REG_VCOM_MIN_VALUE),
            (REG_CHANNEL_EN, 0xFFu8),
            (REG_CHANNEL_SET, 0x00u8),
            (REG_DELAY1, 0x00u8),
            (REG_DELAY2, 0x00u8),
            (REG_DISCHARGE, 0xFFu8),
            (REG_CONFIG1, 0x81u8),
            (REG_NTC_VGH_VGL, 0xD8u8),
            (REG_NTC_VCOM, 0x41u8),
            (REG_CONFIG2, 0x1Au8),
        ],
{
    vec![
        (REG_AVDD, DEFAULT_REG_AVDD_VALUE),
        (REG_VBK1, DEFAULT_REG_VBK1_VALUE),
        (REG_HAVDD, DEFAULT_REG_HAVDD_VALUE),
        (REG_VGH_NT, DEFAULT_REG_VGH_NT_VALUE),
        (REG_VGH_LT, DEFAULT_REG_VGH_LT_VALUE),
        (REG_VGL_NT, DEFAULT_REG_VGL_NT_VALUE),
        (REG_VGL_LT_HT, DEFAULT_REG_VGL_LT_HT_VALUE),
        (REG_VSS1, DEFAULT_REG_VSS1_VALUE),
        (REG_VCOM_NT, DEFAULT_REG_VCOM_NT_VALUE),
        (REG_VCOM_HT, DEFAULT_REG_VCOM_HT_VALUE),
        (REG_VCOM_MAX, DEFAULT_REG_VCOM_MAX_VALUE),
        (REG_VCOM_MIN, DEFAULT_REG_VCOM_MIN_VALUE),
        (REG_CHANNEL_EN, 0xFF),
        (REG_CHANNEL_SET, 0x00),
        (REG_DELAY1, 0x00),
        (REG_DELAY2, 0x00),
        (REG_DISCHARGE, 0xFF),
        (REG_CONFIG1, 0x81),
        (REG_NTC_VGH_VGL, 0xD8),
        (REG_NTC_VCOM, 0x41),
        (REG_CONFIG2, 0x1A),
    ]
}

/// The default register map, sorted by address: the named registers plus the
/// fourteen gamma channels (high byte 0x02, low byte 0x00).
pub fn default_register_map() -> (v: Vec<(u8, u8)>)
    ensures
        v@ == default_register_seq(),
{
    let named = named_defaults();
    let mut v: Vec<(u8, u8)> = Vec::new();
    // the twelve voltage registers 0x00..=0x0B
    let mut i: usize = 0;
    while i < 12
        invariant
            i <= 12,
            named@.len() == 21,
            named@ == named_defaults_spec(),
            v@ =~= default_register_seq().take(i as int),
        decreases 12 - i,
    {
        v.push(named[i]);
        i = i + 1;
    }
    // gamma channels 0..14: (0x0C + 2*ch, 0x02), (0x0D + 2*ch, 0x00)
    let mut channel: u8 = 0;
    while channel < 14
        invariant
            channel <= 14,
            v@ =~= default_register_seq().take(12 + 2 * channel as int),
        decreases 14 - channel,
    {
        let high = 0x0C + channel * 2;
        v.push((high, 0x02));
        v.push((high + 1, 0x00));
        channel = channel + 1;
    }
    // the configuration registers 0x28..=0x30
    let mut j: usize = 12;
    while j < 21
        invariant
            12 <= j <= 21,
            named@ == named_defaults_spec(),
            v@ =~= default_register_seq().take(40 + (j - 12) as int),
        decreases 21 - j,
    {
        v.push(named[j]);
        j = j + 1;
    }
    assert(v@ =~= default_register_seq());
    v
}

spec fn named_defaults_spec() -> Seq<(u8, u8)> {
    seq![
        (REG_AVDD, DEFAULT_REG_AVDD_VALUE),
        (REG_VBK1, DEFAULT_REG_VBK1_VALUE),
        (REG_HAVDD, DEFAULT_REG_HAVDD_VALUE),
        (REG_VGH_NT, DEFAULT_REG_VGH_NT_VALUE),
        (REG_VGH_LT, DEFAULT_REG_VGH_LT_VALUE),
        (REG_VGL_NT, DEFAULT_REG_VGL_NT_VALUE),
        (REG_VGL_LT_HT, DEFAULT_REG_VGL_LT_HT_VALUE),
        (REG_VSS1, DEFAULT_REG_VSS1_VALUE),
        (REG_VCOM_NT, DEFAULT_REG_VCOM_NT_VALUE),
        (REG_VCOM_HT, DEFAULT_REG_VCOM_HT_VALUE),
        (REG_VCOM_MAX, DEFAULT_REG_VCOM_MAX_VALUE),
        (REG_VCOM_MIN, DEFAULT_REG_VCOM_MIN_VALUE),
        (REG_CHANNEL_EN, 0xFFu8),
        (REG_CHANNEL_SET, 0x00u8),
        (REG_DELAY1, 0x00u8),
        (REG_DELAY2, 0x00u8),
        (REG_DISCHARGE, 0xFFu8),
        (REG_CONFIG1, 0x81u8),
        (REG_NTC_VGH_VGL, 0xD8u8),
        (REG_NTC_VCOM, 0x41u8),
        (REG_CONFIG2, 0x1Au8),
    ]
}

/// The name of register `addr`.
pub open spec fn register_name_of(addr: u8) -> &'static str {
    match addr {
        REG_AVDD => "AVDD",
        REG_VBK1 => "VBK1",
        REG_HAVDD => "HAVDD",
        REG_VGH_NT => "VGH_NT",
        REG_VGH_LT => "VGH_LT",
        REG_VGL_NT => "VGL_NT",
        REG_VGL_LT_HT => "VGL_LT_HT",
        REG_VSS1 => "VSS1",
        REG_VCOM_NT => "VCOM_NT",
        REG_VCOM_HT => "VCOM_HT",
        REG_VCOM_MAX => "VCOM_MAX",
        REG_VCOM_MIN => "VCOM_MIN",
        REG_CHANNEL_EN => "CHANNEL_EN",
        REG_CHANNEL_SET => "CHANNEL_SET",
        REG_DELAY1 => "DELAY1",
        REG_DELAY2 => "DELAY2",
        REG_DISCHARGE => "DISCHARGE",
        REG_CONFIG1 => "CONFIG1",
        REG_NTC_VGH_VGL => "NTC_VGH_VGL",
        REG_NTC_VCOM => "NTC_VCOM",
        REG_CONFIG2 => "CONFIG2",
        REG_CONTROL => "CONTROL",
        _ => if 0x0C <= addr <= 0x27 {
            if addr & 1 == 0 { "GMA_H" } else { "GMA_L" }
        } else {
            "UNKNOWN"
        },
    }
}

/// The name of register `addr`: the named registers, "GMA_H"/"GMA_L" for the
/// gamma pairs 0x0C..=0x27 (even/odd address), "UNKNOWN" otherwise.
pub fn get_register_name(addr: u8) -> (name: &'static str)
    ensures
        name == register_name_of(addr),
{
    match addr {
        REG_AVDD => "AVDD",
        REG_VBK1 => "VBK1",
        REG_HAVDD => "HAVDD",
        REG_VGH_NT => "VGH_NT",
        REG_VGH_LT => "VGH_LT",
        REG_VGL_NT => "VGL_NT",
        REG_VGL_LT_HT => "VGL_LT_HT",
        REG_VSS1 => "VSS1",
        REG_VCOM_NT => "VCOM_NT",
        REG_VCOM_HT => "VCOM_HT",
        REG_VCOM_MAX => "VCOM_MAX",
        REG_VCOM_MIN => "VCOM_MIN",
        REG_CHANNEL_EN => "CHANNEL_EN",
        REG_CHANNEL_SET => "CHANNEL_SET",
        REG_DELAY1 => "DELAY1",
        REG_DELAY2 => "DELAY2",
        REG_DISCHARGE => "DISCHARGE",
        REG_CONFIG1 => "CONFIG1",
        REG_NTC_VGH_VGL => "NTC_VGH_VGL",
        REG_NTC_VCOM => "NTC_VCOM",
        REG_CONFIG2 => "CONFIG2",
        REG_CONTROL => "CONTROL",
        0x0C..=0x27 => {
            if addr & 1 == 0 {
                "GMA_H"
            } else {
                "GMA_L"
            }
        },
        _ => "UNKNOWN",
    }
}

} // verus!
