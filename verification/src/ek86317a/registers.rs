//! EK86317A register map: PMIC slave 0x20, VCOM slave 0x74.

use vstd::prelude::*;

verus! {

/// AVDD output voltage, 6-bit [5:0], range 13.5V~19.8V, step 0.1V
pub const REG_AVDD: u8 = 0x00;
/// VBK1 output voltage, 6-bit [5:0], range 0.8V~3.35V, step 0.05V (non-linear mapping)
pub const REG_VBK1: u8 = 0x01;
/// HAVDD output voltage, 7-bit [6:0]
pub const REG_HAVDD: u8 = 0x02;
/// VGH normal temperature, 5-bit [4:0], range 20V~45V, step 1V
pub const REG_VGH_NT: u8 = 0x03;
/// VGH low temperature, bit7=enable, [4:0]=voltage, range 20V~45V
pub const REG_VGH_LT: u8 = 0x04;
/// VGL normal temperature, 5-bit [4:0], range -3V~-18V, step 0.5V
pub const REG_VGL_NT: u8 = 0x05;
/// VGL temperature compensation, bit7=enable, bit6=LT/HT select, [4:0]=voltage
pub const REG_VGL_LT_HT: u8 = 0x06;
/// bit7=VCOM1_HT_EN, [4:0]=VSS1 voltage, range -3V~-16V
pub const REG_VSS1: u8 = 0x07;
/// VCOM1 normal temperature, 7-bit [7:1]
pub const REG_VCOM1_NT: u8 = 0x08;
/// VCOM1 high temperature, 7-bit [7:1]
pub const REG_VCOM1_HT: u8 = 0x09;
/// VCOM upper limit, 7-bit [6:0], VCOM_MAX = AVDD x DAC_CODE / 128
pub const REG_VCOM_MAX: u8 = 0x0A;
/// VCOM lower limit, 7-bit [6:0], VCOM_MIN = AVDD x DAC_CODE / 128
pub const REG_VCOM_MIN: u8 = 0x0B;
/// GAMMA 1 high byte [1:0]
pub const REG_GMA1_H: u8 = 0x0C;
/// GAMMA 1 low byte [7:0]
pub const REG_GMA1_L: u8 = 0x0D;
/// GAMMA 2 high byte [1:0]
pub const REG_GMA2_H: u8 = 0x0E;
/// GAMMA 2 low byte [7:0]
pub const REG_GMA2_L: u8 = 0x0F;
/// GAMMA 3 high byte [1:0]
pub const REG_GMA3_H: u8 = 0x10;
/// GAMMA 3 low byte [7:0]
pub const REG_GMA3_L: u8 = 0x11;
/// GAMMA 4 high byte [1:0]
pub const REG_GMA4_H: u8 = 0x12;
/// GAMMA 4 low byte [7:0]
pub const REG_GMA4_L: u8 = 0x13;
/// GAMMA 5 high byte [1:0]
pub const REG_GMA5_H: u8 = 0x14;
/// GAMMA 5 low byte [7:0]
pub const REG_GMA5_L: u8 = 0x15;
/// GAMMA 6 high byte [1:0]
pub const REG_GMA6_H: u8 = 0x16;
/// GAMMA 6 low byte [7:0]
pub const REG_GMA6_L: u8 = 0x17;
/// GAMMA 7 high byte [1:0]
pub const REG_GMA7_H: u8 = 0x18;
/// GAMMA 7 low byte [7:0]
pub const REG_GMA7_L: u8 = 0x19;
/// GAMMA 8 high byte [1:0]
pub const REG_GMA8_H: u8 = 0x1A;
/// GAMMA 8 low byte [7:0]
pub const REG_GMA8_L: u8 = 0x1B;
/// GAMMA 9 high byte [1:0]
pub const REG_GMA9_H: u8 = 0x1C;
/// GAMMA 9 low byte [7:0]
pub const REG_GMA9_L: u8 = 0x1D;
/// GAMMA 10 high byte [1:0]
pub const REG_GMA10_H: u8 = 0x1E;
/// GAMMA 10 low byte [7:0]
pub const REG_GMA10_L: u8 = 0x1F;
/// GAMMA 11 high byte [1:0]
pub const REG_GMA11_H: u8 = 0x20;
/// GAMMA 11 low byte [7:0]
pub const REG_GMA11_L: u8 = 0x21;
/// GAMMA 12 high byte [1:0]
pub const REG_GMA12_H: u8 = 0x22;
/// GAMMA 12 low byte [7:0]
pub const REG_GMA12_L: u8 = 0x23;
/// GAMMA 13 high byte [1:0]
pub const REG_GMA13_H: u8 = 0x24;
/// GAMMA 13 low byte [7:0]
pub const REG_GMA13_L: u8 = 0x25;
/// GAMMA 14 high byte [1:0]
pub const REG_GMA14_H: u8 = 0x26;
/// GAMMA 14 low byte [7:0]
pub const REG_GMA14_L: u8 = 0x27;
/// Channel enable, each bit controls one channel
pub const REG_CHANNEL_EN: u8 = 0x28;
/// Frequency/structure selection
pub const REG_CHANNEL_SET: u8 = 0x29;
/// VBK1/VGL/VSS1 delay
pub const REG_DELAY1: u8 = 0x2A;
/// AVDD/VGH/VCOM delay
pub const REG_DELAY2: u8 = 0x2B;
/// Discharge setting
pub const REG_DISCHARGE: u8 = 0x2C;
/// VSS1 discharge / soft start etc.
pub const REG_CONFIG1: u8 = 0x2D;
/// NTC VGH & VGL
pub const REG_NTC_VGH_VGL: u8 = 0x2E;
/// NTC VCOM1
pub const REG_NTC_VCOM1: u8 = 0x2F;
/// AVDD external drive / compensation
pub const REG_CONFIG2: u8 = 0x30;
/// EN / delay shutdown / XON
pub const REG_CONFIG3: u8 = 0x31;
/// VBK1/AVDD/VGH discharge disable
pub const REG_DISCHARGE2: u8 = 0x32;
/// VCOM2DAC output, 7-bit [7:1]
pub const REG_VCOM2DAC: u8 = 0x45;
/// VCOM2DAC enable
pub const REG_VCOM2DAC_EN: u8 = 0x46;
/// Control register (0x80=write all EEPROM, 0x40=write VCOM1, 0x01=read EEPROM, 0x00=read DAC)
pub const REG_CONTROL: u8 = 0xFF;

/// VCOM control: bit4=RESET, bit3=W_VCOM1_NT, bit1=VCOM1_EN
pub const VCOM_REG_CONTROL: u8 = 0x00;
/// VCOM1_NT 7-bit [7:1]
pub const VCOM_REG_VCOM1_NT: u8 = 0x01;
/// Fault Flag (read-only)
pub const VCOM_REG_FAULT: u8 = 0x02;

/// Write all registers to EEPROM
pub const CTRL_WRITE_ALL_EEPROM: u8 = 0x80;
/// Write VCOM1 to EEPROM
pub const CTRL_WRITE_VCOM1_EEPROM: u8 = 0x40;
/// Select EEPROM for reading
pub const CTRL_READ_EEPROM: u8 = 0x01;
/// Select DAC for reading
pub const CTRL_READ_DAC: u8 = 0x00;

pub const DEFAULT_REG_AVDD_VALUE: u8 = 0x00;
pub const DEFAULT_REG_VCOM1_NT_VALUE: u8 = 0x7E;
pub const DEFAULT_REG_VCOM1_HT_VALUE: u8 = 0xBA;
pub const DEFAULT_REG_VCOM_MAX_VALUE: u8 = 0x3F;
pub const DEFAULT_REG_VCOM_MIN_VALUE: u8 = 0x26;
pub const DEFAULT_REG_VCOM2DAC_VALUE: u8 = 0x7E;

/// Register metadata for frontend display.
pub struct RegisterInfo {
    pub address: u8,
    pub name: String,
    pub description: String,
    pub default_value: u8,
    pub bit_width: u8,
}

/// One entry of the PMIC register map, with its default.
#[derive(Debug, Clone, Copy)]
pub struct RegisterDef {
    pub address: u8,
    pub name: &'static str,
    pub description: &'static str,
    pub default_value: u8,
    pub bit_width: u8,
    pub writable: bool,
}

/// The PMIC register map, in address order, control register last.
pub open spec fn pmic_register_table() -> Seq<RegisterDef> {
    seq![
        RegisterDef { address: REG_AVDD, name: "AVDD", description: "AVDD output voltage (13.5V~19.8V, 0.1V step)", default_value: DEFAULT_REG_AVDD_VALUE, bit_width: 6, writable: true },
        RegisterDef { address: REG_VBK1, name: "VBK1", description: "VBK1 output voltage (0.8V~3.35V, non-linear)", default_value: 0x00, bit_width: 6, writable: true },
        RegisterDef { address: REG_HAVDD, name: "HAVDD", description: "HAVDD = AVDD × DAC / 128", default_value: 0x00, bit_width: 7, writable: true },
        RegisterDef { address: REG_VGH_NT, name: "VGH_NT", description: "VGH normal temp (20V~45V, 1V step)", default_value: 0x00, bit_width: 5, writable: true },
        RegisterDef { address: REG_VGH_LT, name: "VGH_LT", description: "VGH low temp, bit7=EN, [4:0]=voltage", default_value: 0x00, bit_width: 8, writable: true },
        RegisterDef { address: REG_VGL_NT, name: "VGL_NT", description: "VGL normal temp (-3V~-18V, 0.5V step)", default_value: 0x00, bit_width: 5, writable: true },
        RegisterDef { address: REG_VGL_LT_HT, name: "VGL_LT_HT", description: "VGL temp comp, bit7=EN, bit6=LT/HT, [4:0]=V", default_value: 0x00, bit_width: 8, writable: true },
        RegisterDef { address: REG_VSS1, name: "VSS1", description: "bit7=VCOM1_HT_EN, [4:0]=VSS1 (-3V~-16V)", default_value: 0x00, bit_width: 8, writable: true },
        RegisterDef { address: REG_VCOM1_NT, name: "VCOM1_NT", description: "VCOM1 normal temp, 7-bit [7:1]", default_value: DEFAULT_REG_VCOM1_NT_VALUE, bit_width: 8, writable: true },
        RegisterDef { address: REG_VCOM1_HT, name: "VCOM1_HT", description: "VCOM1 high temp, 7-bit [7:1]", default_value: DEFAULT_REG_VCOM1_HT_VALUE, bit_width: 8, writable: true },
        RegisterDef { address: REG_VCOM_MAX, name: "VCOM_MAX", description: "VCOM upper limit = AVDD × DAC / 128", default_value: DEFAULT_REG_VCOM_MAX_VALUE, bit_width: 7, writable: true },
        RegisterDef { address: REG_VCOM_MIN, name: "VCOM_MIN", description: "VCOM lower limit = AVDD × DAC / 128", default_value: DEFAULT_REG_VCOM_MIN_VALUE, bit_width: 7, writable: true },
        RegisterDef { address: REG_GMA1_H, name: "GMA1_H", description: "Gamma 1 high [1:0]", default_value: 0x00, bit_width: 2, writable: true },
        RegisterDef { address: REG_GMA1_L, name: "GMA1_L", description: "Gamma 1 low [7:0]", default_value: 0x00, bit_width: 8, writable: true },
        RegisterDef { address: REG_GMA2_H, name: "GMA2_H", description: "Gamma 2 high [1:0]", default_value: 0x00, bit_width: 2, writable: true },
        RegisterDef { address: REG_GMA2_L, name: "GMA2_L", description: "Gamma 2 low [7:0]", default_value: 0x00, bit_width: 8, writable: true },
        RegisterDef { address: REG_GMA3_H, name: "GMA3_H", description: "Gamma 3 high [1:0]", default_value: 0x00, bit_width: 2, writable: true },
        RegisterDef { address: REG_GMA3_L, name: "GMA3_L", description: "Gamma 3 low [7:0]", default_value: 0x00, bit_width: 8, writable: true },
        RegisterDef { address: REG_GMA4_H, name: "GMA4_H", description: "Gamma 4 high [1:0]", default_value: 0x00, bit_width: 2, writable: true },
        RegisterDef { address: REG_GMA4_L, name: "GMA4_L", description: "Gamma 4 low [7:0]", default_value: 0x00, bit_width: 8, writable: true },
        RegisterDef { address: REG_GMA5_H, name: "GMA5_H", description: "Gamma 5 high [1:0]", default_value: 0x00, bit_width: 2, writable: true },
        RegisterDef { address: REG_GMA5_L, name: "GMA5_L", description: "Gamma 5 low [7:0]", default_value: 0x00, bit_width: 8, writable: true },
        RegisterDef { address: REG_GMA6_H, name: "GMA6_H", description: "Gamma 6 high [1:0]", default_value: 0x00, bit_width: 2, writable: true },
        RegisterDef { address: REG_GMA6_L, name: "GMA6_L", description: "Gamma 6 low [7:0]", default_value: 0x00, bit_width: 8, writable: true },
        RegisterDef { address: REG_GMA7_H, name: "GMA7_H", description: "Gamma 7 high [1:0]", default_value: 0x00, bit_width: 2, writable: true },
        RegisterDef { address: REG_GMA7_L, name: "GMA7_L", description: "Gamma 7 low [7:0]", default_value: 0x00, bit_width: 8, writable: true },
        RegisterDef { address: REG_GMA8_H, name: "GMA8_H", description: "Gamma 8 high [1:0]", default_value: 0x00, bit_width: 2, writable: true },
        RegisterDef { address: REG_GMA8_L, name: "GMA8_L", description: "Gamma 8 low [7:0]", default_value: 0x00, bit_width: 8, writable: true },
        RegisterDef { address: REG_GMA9_H, name: "GMA9_H", description: "Gamma 9 high [1:0]", default_value: 0x00, bit_width: 2, writable: true },
        RegisterDef { address: REG_GMA9_L, name: "GMA9_L", description: "Gamma 9 low [7:0]", default_value: 0x00, bit_width: 8, writable: true },
        RegisterDef { address: REG_GMA10_H, name: "GMA10_H", description: "Gamma 10 high [1:0]", default_value: 0x00, bit_width: 2, writable: true },
        RegisterDef { address: REG_GMA10_L, name: "GMA10_L", description: "Gamma 10 low [7:0]", default_value: 0x00, bit_width: 8, writable: true },
        RegisterDef { address: REG_GMA11_H, name: "GMA11_H", description: "Gamma 11 high [1:0]", default_value: 0x00, bit_width: 2, writable: true },
        RegisterDef { address: REG_GMA11_L, name: "GMA11_L", description: "Gamma 11 low [7:0]", default_value: 0x00, bit_width: 8, writable: true },
        RegisterDef { address: REG_GMA12_H, name: "GMA12_H", description: "Gamma 12 high [1:0]", default_value: 0x00, bit_width: 2, writable: true },
        RegisterDef { address: REG_GMA12_L, name: "GMA12_L", description: "Gamma 12 low [7:0]", default_value: 0x00, bit_width: 8, writable: true },
        RegisterDef { address: REG_GMA13_H, name: "GMA13_H", description: "Gamma 13 high [1:0]", default_value: 0x00, bit_width: 2, writable: true },
        RegisterDef { address: REG_GMA13_L, name: "GMA13_L", description: "Gamma 13 low [7:0]", default_value: 0x00, bit_width: 8, writable: true },
        RegisterDef { address: REG_GMA14_H, name: "GMA14_H", description: "Gamma 14 high [1:0]", default_value: 0x00, bit_width: 2, writable: true },
        RegisterDef { address: REG_GMA14_L, name: "GMA14_L", description: "Gamma 14 low [7:0]", default_value: 0x00, bit_width: 8, writable: true },
        RegisterDef { address: REG_CHANNEL_EN, name: "CHANNEL_EN", description: "Channel enable (each bit = 1 channel)", default_value: 0xFF, bit_width: 8, writable: true },
        RegisterDef { address: REG_CHANNEL_SET, name: "CHANNEL_SET", description: "Frequency / structure selection", default_value: 0x00, bit_width: 8, writable: true },
        RegisterDef { address: REG_DELAY1, name: "DELAY1", description: "VBK1/VGL/VSS1 delay", default_value: 0x00, bit_width: 8, writable: true },
        RegisterDef { address: REG_DELAY2, name: "DELAY2", description: "AVDD/VGH/VCOM delay", default_value: 0x00, bit_width: 8, writable: true },
        RegisterDef { address: REG_DISCHARGE, name: "DISCHARGE", description: "Discharge setting", default_value: 0x00, bit_width: 8, writable: true },
        RegisterDef { address: REG_CONFIG1, name: "CONFIG1", description: "VSS1 discharge / soft start", default_value: 0x00, bit_width: 8, writable: true },
        RegisterDef { address: REG_NTC_VGH_VGL, name: "NTC_VGH_VGL", description: "NTC VGH & VGL", default_value: 0x00, bit_width: 8, writable: true },
        RegisterDef { address: REG_NTC_VCOM1, name: "NTC_VCOM1", description: "NTC VCOM1", default_value: 0x00, bit_width: 8, writable: true },
        RegisterDef { address: REG_CONFIG2, name: "CONFIG2", description: "AVDD external drive / compensation", default_value: 0x00, bit_width: 8, writable: true },
        RegisterDef { address: REG_CONFIG3, name: "CONFIG3", description: "EN / delay shutdown / XON", default_value: 0x00, bit_width: 8, writable: true },
        RegisterDef { address: REG_DISCHARGE2, name: "DISCHARGE2", description: "VBK1/AVDD/VGH discharge disable", default_value: 0x00, bit_width: 8, writable: true },
        RegisterDef { address: REG_VCOM2DAC, name: "VCOM2DAC", description: "VCOM2DAC output, 7-bit [7:1]", default_value: DEFAULT_REG_VCOM2DAC_VALUE, bit_width: 8, writable: true },
        RegisterDef { address: REG_VCOM2DAC_EN, name: "VCOM2DAC_EN", description: "VCOM2DAC enable", default_value: 0x00, bit_width: 8, writable: true },
        RegisterDef { address: REG_CONTROL, name: "CONTROL", description: "Control (0x80=WR_ALL, 0x40=WR_VCOM1, 0x01=RD_EE, 0x00=RD_DAC)", default_value: 0x00, bit_width: 8, writable: true },
    ]
}

/// The PMIC register map as a vector.
pub fn pmic_registers() -> (t: Vec<RegisterDef>)
    ensures
        t@ == pmic_register_table(),
{
    let t = vec![
        RegisterDef { address: REG_AVDD, name: "AVDD", description: "AVDD output voltage (13.5V~19.8V, 0.1V step)", default_value: DEFAULT_REG_AVDD_VALUE, bit_width: 6, writable: true },
        RegisterDef { address: REG_VBK1, name: "VBK1", description: "VBK1 output voltage (0.8V~3.35V, non-linear)", default_value: 0x00, bit_width: 6, writable: true },
        RegisterDef { address: REG_HAVDD, name: "HAVDD", description: "HAVDD = AVDD × DAC / 128", default_value: 0x00, bit_width: 7, writable: true },
        RegisterDef { address: REG_VGH_NT, name: "VGH_NT", description: "VGH normal temp (20V~45V, 1V step)", default_value: 0x00, bit_width: 5, writable: true },
        RegisterDef { address: REG_VGH_LT, name: "VGH_LT", description: "VGH low temp, bit7=EN, [4:0]=voltage", default_value: 0x00, bit_width: 8, writable: true },
        RegisterDef { address: REG_VGL_NT, name: "VGL_NT", description: "VGL normal temp (-3V~-18V, 0.5V step)", default_value: 0x00, bit_width: 5, writable: true },
        RegisterDef { address: REG_VGL_LT_HT, name: "VGL_LT_HT", description: "VGL temp comp, bit7=EN, bit6=LT/HT, [4:0]=V", default_value: 0x00, bit_width: 8, writable: true },
        RegisterDef { address: REG_VSS1, name: "VSS1", description: "bit7=VCOM1_HT_EN, [4:0]=VSS1 (-3V~-16V)", default_value: 0x00, bit_width: 8, writable: true },
        RegisterDef { address: REG_VCOM1_NT, name: "VCOM1_NT", description: "VCOM1 normal temp, 7-bit [7:1]", default_value: DEFAULT_REG_VCOM1_NT_VALUE, bit_width: 8, writable: true },
        RegisterDef { address: REG_VCOM1_HT, name: "VCOM1_HT", description: "VCOM1 high temp, 7-bit [7:1]", default_value: DEFAULT_REG_VCOM1_HT_VALUE, bit_width: 8, writable: true },
        RegisterDef { address: REG_VCOM_MAX, name: "VCOM_MAX", description: "VCOM upper limit = AVDD × DAC / 128", default_value: DEFAULT_REG_VCOM_MAX_VALUE, bit_width: 7, writable: true },
        RegisterDef { address: REG_VCOM_MIN, name: "VCOM_MIN", description: "VCOM lower limit = AVDD × DAC / 128", default_value: DEFAULT_REG_VCOM_MIN_VALUE, bit_width: 7, writable: true },
        RegisterDef { address: REG_GMA1_H, name: "GMA1_H", description: "Gamma 1 high [1:0]", default_value: 0x00, bit_width: 2, writable: true },
        RegisterDef { address: REG_GMA1_L, name: "GMA1_L", description: "Gamma 1 low [7:0]", default_value: 0x00, bit_width: 8, writable: true },
        RegisterDef { address: REG_GMA2_H, name: "GMA2_H", description: "Gamma 2 high [1:0]", default_value: 0x00, bit_width: 2, writable: true },
        RegisterDef { address: REG_GMA2_L, name: "GMA2_L", description: "Gamma 2 low [7:0]", default_value: 0x00, bit_width: 8, writable: true },
        RegisterDef { address: REG_GMA3_H, name: "GMA3_H", description: "Gamma 3 high [1:0]", default_value: 0x00, bit_width: 2, writable: true },
        RegisterDef { address: REG_GMA3_L, name: "GMA3_L", description: "Gamma 3 low [7:0]", default_value: 0x00, bit_width: 8, writable: true },
        RegisterDef { address: REG_GMA4_H, name: "GMA4_H", description: "Gamma 4 high [1:0]", default_value: 0x00, bit_width: 2, writable: true },
        RegisterDef { address: REG_GMA4_L, name: "GMA4_L", description: "Gamma 4 low [7:0]", default_value: 0x00, bit_width: 8, writable: true },
        RegisterDef { address: REG_GMA5_H, name: "GMA5_H", description: "Gamma 5 high [1:0]", default_value: 0x00, bit_width: 2, writable: true },
        RegisterDef { address: REG_GMA5_L, name: "GMA5_L", description: "Gamma 5 low [7:0]", default_value: 0x00, bit_width: 8, writable: true },
        RegisterDef { address: REG_GMA6_H, name: "GMA6_H", description: "Gamma 6 high [1:0]", default_value: 0x00, bit_width: 2, writable: true },
        RegisterDef { address: REG_GMA6_L, name: "GMA6_L", description: "Gamma 6 low [7:0]", default_value: 0x00, bit_width: 8, writable: true },
        RegisterDef { address: REG_GMA7_H, name: "GMA7_H", description: "Gamma 7 high [1:0]", default_value: 0x00, bit_width: 2, writable: true },
        RegisterDef { address: REG_GMA7_L, name: "GMA7_L", description: "Gamma 7 low [7:0]", default_value: 0x00, bit_width: 8, writable: true },
        RegisterDef { address: REG_GMA8_H, name: "GMA8_H", description: "Gamma 8 high [1:0]", default_value: 0x00, bit_width: 2, writable: true },
        RegisterDef { address: REG_GMA8_L, name: "GMA8_L", description: "Gamma 8 low [7:0]", default_value: 0x00, bit_width: 8, writable: true },
        RegisterDef { address: REG_GMA9_H, name: "GMA9_H", description: "Gamma 9 high [1:0]", default_value: 0x00, bit_width: 2, writable: true },
        RegisterDef { address: REG_GMA9_L, name: "GMA9_L", description: "Gamma 9 low [7:0]", default_value: 0x00, bit_width: 8, writable: true },
        RegisterDef { address: REG_GMA10_H, name: "GMA10_H", description: "Gamma 10 high [1:0]", default_value: 0x00, bit_width: 2, writable: true },
        RegisterDef { address: REG_GMA10_L, name: "GMA10_L", description: "Gamma 10 low [7:0]", default_value: 0x00, bit_width: 8, writable: true },
        RegisterDef { address: REG_GMA11_H, name: "GMA11_H", description: "Gamma 11 high [1:0]", default_value: 0x00, bit_width: 2, writable: true },
        RegisterDef { address: REG_GMA11_L, name: "GMA11_L", description: "Gamma 11 low [7:0]", default_value: 0x00, bit_width: 8, writable: true },
        RegisterDef { address: REG_GMA12_H, name: "GMA12_H", description: "Gamma 12 high [1:0]", default_value: 0x00, bit_width: 2, writable: true },
        RegisterDef { address: REG_GMA12_L, name: "GMA12_L", description: "Gamma 12 low [7:0]", default_value: 0x00, bit_width: 8, writable: true },
        RegisterDef { address: REG_GMA13_H, name: "GMA13_H", description: "Gamma 13 high [1:0]", default_value: 0x00, bit_width: 2, writable: true },
        RegisterDef { address: REG_GMA13_L, name: "GMA13_L", description: "Gamma 13 low [7:0]", default_value: 0x00, bit_width: 8, writable: true },
        RegisterDef { address: REG_GMA14_H, name: "GMA14_H", description: "Gamma 14 high [1:0]", default_value: 0x00, bit_width: 2, writable: true },
        RegisterDef { address: REG_GMA14_L, name: "GMA14_L", description: "Gamma 14 low [7:0]", default_value: 0x00, bit_width: 8, writable: true },
        RegisterDef { address: REG_CHANNEL_EN, name: "CHANNEL_EN", description: "Channel enable (each bit = 1 channel)", default_value: 0xFF, bit_width: 8, writable: true },
        RegisterDef { address: REG_CHANNEL_SET, name: "CHANNEL_SET", description: "Frequency / structure selection", default_value: 0x00, bit_width: 8, writable: true },
        RegisterDef { address: REG_DELAY1, name: "DELAY1", description: "VBK1/VGL/VSS1 delay", default_value: 0x00, bit_width: 8, writable: true },
        RegisterDef { address: REG_DELAY2, name: "DELAY2", description: "AVDD/VGH/VCOM delay", default_value: 0x00, bit_width: 8, writable: true },
        RegisterDef { address: REG_DISCHARGE, name: "DISCHARGE", description: "Discharge setting", default_value: 0x00, bit_width: 8, writable: true },
        RegisterDef { address: REG_CONFIG1, name: "CONFIG1", description: "VSS1 discharge / soft start", default_value: 0x00, bit_width: 8, writable: true },
        RegisterDef { address: REG_NTC_VGH_VGL, name: "NTC_VGH_VGL", description: "NTC VGH & VGL", default_value: 0x00, bit_width: 8, writable: true },
        RegisterDef { address: REG_NTC_VCOM1, name: "NTC_VCOM1", description: "NTC VCOM1", default_value: 0x00, bit_width: 8, writable: true },
        RegisterDef { address: REG_CONFIG2, name: "CONFIG2", description: "AVDD external drive / compensation", default_value: 0x00, bit_width: 8, writable: true },
        RegisterDef { address: REG_CONFIG3, name: "CONFIG3", description: "EN / delay shutdown / XON", default_value: 0x00, bit_width: 8, writable: true },
        RegisterDef { address: REG_DISCHARGE2, name: "DISCHARGE2", description: "VBK1/AVDD/VGH discharge disable", default_value: 0x00, bit_width: 8, writable: true },
        RegisterDef { address: REG_VCOM2DAC, name: "VCOM2DAC", description: "VCOM2DAC output, 7-bit [7:1]", default_value: DEFAULT_REG_VCOM2DAC_VALUE, bit_width: 8, writable: true },
        RegisterDef { address: REG_VCOM2DAC_EN, name: "VCOM2DAC_EN", description: "VCOM2DAC enable", default_value: 0x00, bit_width: 8, writable: true },
        RegisterDef { address: REG_CONTROL, name: "CONTROL", description: "Control (0x80=WR_ALL, 0x40=WR_VCOM1, 0x01=RD_EE, 0x00=RD_DAC)", default_value: 0x00, bit_width: 8, writable: true },
    ];
    assert(t@ =~= pmic_register_table());
    t
}


/// The first entry of `table` whose address is `addr`.
pub open spec fn find_register_def(table: Seq<RegisterDef>, addr: u8) -> Option<RegisterDef>
    decreases table.len(),
{
    if table.len() == 0 {
        None
    } else if table[0].address == addr {
        Some(table[0])
    } else {
        find_register_def(table.drop_first(), addr)
    }
}

/// Looking up an address finds an entry exactly when the table lists that
/// address, and the entry found has that address.
pub proof fn lemma_find_register_def(table: Seq<RegisterDef>, addr: u8)
    ensures
        find_register_def(table, addr) is Some <==> exists|i: int|
            0 <= i < table.len() && (#[trigger] table[i]).address == addr,
        find_register_def(table, addr) matches Some(d) ==> d.address == addr,
    decreases table.len(),
{
    if table.len() > 0 {
        let rest = table.drop_first();
        lemma_find_register_def(rest, addr);
        if table[0].address != addr {
            if exists|i: int| 0 <= i < table.len() && (#[trigger] table[i]).address == addr {
                let i = choose|i: int| 0 <= i < table.len() && (#[trigger] table[i]).address == addr;
                assert(rest[i - 1] == table[i]);
            }
            if exists|i: int| 0 <= i < rest.len() && (#[trigger] rest[i]).address == addr {
                let i = choose|i: int| 0 <= i < rest.len() && (#[trigger] rest[i]).address == addr;
                assert(table[i + 1] == rest[i]);
            }
        } else {
            assert(table[0].address == addr);
        }
    }
}

/// The register table lists each address once, in the order of the register
/// address list followed by the control register.
pub proof fn lemma_register_table_addresses()
    ensures
        pmic_register_table().map_values(|d: RegisterDef| d.address) == pmic_reg_address_seq().push(
            REG_CONTROL,
        ),
        forall|i: int, j: int|
            0 <= i < j < pmic_register_table().len() ==> (#[trigger] pmic_register_table()[i]).address
                != (#[trigger] pmic_register_table()[j]).address,
{
    let t = pmic_register_table();
    let s = pmic_reg_address_seq().push(REG_CONTROL);
    assert(t.len() == 54);
    assert forall|i: int| 0 <= i < 54 implies t[i].address == s[i] by {
        if i < 51 {
            assert(s[i] == i as u8);
        }
    }
    assert(t.map_values(|d: RegisterDef| d.address) =~= s);
    assert forall|i: int, j: int| 0 <= i < j < t.len() implies (#[trigger] t[i]).address != (
    #[trigger] t[j]).address by {
        assert(t[i].address == s[i]);
        assert(t[j].address == s[j]);
    }
}

/// In a table that lists each address once, looking up the address of row
/// `i` finds row `i`.
pub proof fn lemma_find_distinct_row(table: Seq<RegisterDef>, i: int)
    requires
        0 <= i < table.len(),
        forall|a: int, b: int|
            0 <= a < b < table.len() ==> (#[trigger] table[a]).address != (#[trigger] table[b]).address,
    ensures
        find_register_def(table, table[i].address) == Some(table[i]),
    decreases table.len(),
{
    if i > 0 {
        let rest = table.drop_first();
        assert(table[0].address != table[i].address);
        assert forall|a: int, b: int| 0 <= a < b < rest.len() implies (#[trigger] rest[a]).address
            != (#[trigger] rest[b]).address by {
            assert(rest[a] == table[a + 1] && rest[b] == table[b + 1]);
        }
        assert(rest[i - 1] == table[i]);
        lemma_find_distinct_row(rest, i - 1);
    }
}

/// Looking up the address of any row of the register table finds that row,
/// so `get_register_info` of a row's address describes that row.
pub proof fn lemma_find_table_row(i: int)
    requires
        0 <= i < pmic_register_table().len(),
    ensures
        find_register_def(pmic_register_table(), pmic_register_table()[i].address) == Some(
            pmic_register_table()[i],
        ),
{
    lemma_register_table_addresses();
    lemma_find_distinct_row(pmic_register_table(), i);
}

/// Looking up in a suffix: the entry at its head either matches or is skipped.
proof fn lemma_find_step(table: Seq<RegisterDef>, i: int, addr: u8)
    requires
        0 <= i < table.len(),
    ensures
        table[i].address == addr ==> find_register_def(table.skip(i), addr) == Some(table[i]),
        table[i].address != addr ==> find_register_def(table.skip(i), addr)
            == find_register_def(table.skip(i + 1), addr),
{
    assert(table.skip(i).drop_first() =~= table.skip(i + 1));
}

/// The index of the entry for `addr` in the PMIC register map, if any.
fn find_register_index(table: &Vec<RegisterDef>, addr: u8) -> (r: Option<usize>)
    ensures
        match r {
            Some(i) => i < table@.len() && find_register_def(table@, addr) == Some(table@[i as int]),
            None => find_register_def(table@, addr) is None,
        },
{
    let mut i: usize = 0;
    assert(table@.skip(0) =~= table@);
    while i < table.len()
        invariant
            i <= table@.len(),
            find_register_def(table@, addr) == find_register_def(table@.skip(i as int), addr),
        decreases table@.len() - i,
    {
        proof {
            lemma_find_step(table@, i as int, addr);
        }
        if table[i].address == addr {
            return Some(i);
        }
        i = i + 1;
    }
    assert(table@.skip(i as int) =~= Seq::<RegisterDef>::empty());
    None
}

/// The name of the PMIC register at `addr`, or "UNKNOWN".
pub open spec fn register_name_of(addr: u8) -> &'static str {
    match find_register_def(pmic_register_table(), addr) {
        Some(def) => def.name,
        None => "UNKNOWN",
    }
}

/// Look up register name by address from the PMIC register table.
pub fn get_register_name(addr: u8) -> (name: &'static str)
    ensures
        name == register_name_of(addr),
{
    let table = pmic_registers();
    match find_register_index(&table, addr) {
        Some(i) => table[i].name,
        None => "UNKNOWN",
    }
}

/// `info` carries the fields of `def`, the strings copied.
pub open spec fn info_matches(info: RegisterInfo, def: RegisterDef) -> bool {
    &&& info.address == def.address
    &&& info.name@ == def.name@
    &&& info.description@ == def.description@
    &&& info.default_value == def.default_value
    &&& info.bit_width == def.bit_width
}

fn info_of(def: &RegisterDef) -> (info: RegisterInfo)
    ensures
        info_matches(info, *def),
{
    RegisterInfo {
        address: def.address,
        name: def.name.to_owned(),
        description: def.description.to_owned(),
        default_value: def.default_value,
        bit_width: def.bit_width,
    }
}

/// Look up RegisterInfo by address.
pub fn get_register_info(addr: u8) -> (r: Option<RegisterInfo>)
    ensures
        match find_register_def(pmic_register_table(), addr) {
            Some(def) => r is Some && info_matches(r->Some_0, def),
            None => r is None,
        },
{
    let table = pmic_registers();
    match find_register_index(&table, addr) {
        Some(i) => Some(info_of(&table[i])),
        None => None,
    }
}

/// Build a complete list of RegisterInfo for all PMIC registers.
pub fn get_all_register_info() -> (r: Vec<RegisterInfo>)
    ensures
        r@.len() == pmic_register_table().len(),
        forall|i: int| 0 <= i < r@.len() ==> info_matches(#[trigger] r@[i], pmic_register_table()[i]),
{
    let table = pmic_registers();
    let mut out: Vec<RegisterInfo> = Vec::new();
    let mut i: usize = 0;
    while i < table.len()
        invariant
            i <= table@.len(),
            table@ == pmic_register_table(),
            out@.len() == i,
            forall|j: int| 0 <= j < i ==> info_matches(#[trigger] out@[j], table@[j]),
        decreases table@.len() - i,
    {
        out.push(info_of(&table[i]));
        i = i + 1;
    }
    out
}

/// Decoded fault flags from VCOM slave register 0x02.
pub struct FaultFlags {
    pub raw: u8,
    pub otp: bool,
    pub vbk1: bool,
    pub avdd: bool,
    pub vgh: bool,
    pub vgl: bool,
    pub vss1: bool,
    pub havdd: bool,
}

/// The flags a fault register value `raw` holds: bit6 OTP, bit5 VBK1, bit4
/// AVDD, bit3 VGH, bit2 VGL, bit1 VSS1, bit0 HAVDD.
pub open spec fn fault_flags_from(raw: u8) -> FaultFlags {
    FaultFlags {
        raw,
        otp: raw & 0x40 != 0,
        vbk1: raw & 0x20 != 0,
        avdd: raw & 0x10 != 0,
        vgh: raw & 0x08 != 0,
        vgl: raw & 0x04 != 0,
        vss1: raw & 0x02 != 0,
        havdd: raw & 0x01 != 0,
    }
}

impl FaultFlags {
    /// Decode fault flag register value: bit6 OTP, bit5 VBK1, bit4 AVDD, bit3 VGH,
    /// bit2 VGL, bit1 VSS1, bit0 HAVDD.
    pub fn from_raw(raw: u8) -> (f: Self)
        ensures
            f == fault_flags_from(raw),
            f.raw == raw,
            f.otp == (raw & 0x40 != 0),
            f.vbk1 == (raw & 0x20 != 0),
            f.avdd == (raw & 0x10 != 0),
            f.vgh == (raw & 0x08 != 0),
            f.vgl == (raw & 0x04 != 0),
            f.vss1 == (raw & 0x02 != 0),
            f.havdd == (raw & 0x01 != 0),
    {
        FaultFlags {
            raw,
            otp: (raw & 0x40) != 0,
            vbk1: (raw & 0x20) != 0,
            avdd: (raw & 0x10) != 0,
            vgh: (raw & 0x08) != 0,
            vgl: (raw & 0x04) != 0,
            vss1: (raw & 0x02) != 0,
            havdd: (raw & 0x01) != 0,
        }
    }
}

/// Valid PMIC register addresses, in iteration order (0x00..=0x32, 0x45, 0x46).
pub open spec fn pmic_reg_address_seq() -> Seq<u8> {
    Seq::new(51, |i: int| i as u8) + seq![0x45u8, 0x46u8]
}

/// List of all valid PMIC register addresses (for iteration).
pub fn pmic_reg_addresses() -> (v: Vec<u8>)
    ensures
        v@ == pmic_reg_address_seq(),
{
    let mut v: Vec<u8> = Vec::new();
    let mut a: u8 = 0;
    while a <= 0x32
        invariant
            a <= 0x33,
            v@ =~= Seq::new(a as nat, |i: int| i as u8),
        decreases 0x33 - a,
    {
        v.push(a);
        a = a + 1;
    }
    v.push(0x45);
    v.push(0x46);
    assert(v@ =~= pmic_reg_address_seq());
    v
}

} // verus!
