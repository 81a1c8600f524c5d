//! Tests for the VOUT_MODE parser, the status registers, the command code
//! table, and the error type.

use pmbus::CommandCode;
use pmbus::PmbusError;
use pmbus::StatusByte;
use pmbus::StatusByteFlag;
use pmbus::StatusCml;
use pmbus::StatusCmlFlag;
use pmbus::StatusFans12;
use pmbus::StatusFans12Flag;
use pmbus::StatusFans34;
use pmbus::StatusFans34Flag;
use pmbus::StatusInput;
use pmbus::StatusInputFlag;
use pmbus::StatusIout;
use pmbus::StatusIoutFlag;
use pmbus::StatusTemperature;
use pmbus::StatusTemperatureFlag;
use pmbus::StatusVout;
use pmbus::StatusVoutFlag;
use pmbus::StatusWord;
use pmbus::StatusWordFlag;
use pmbus::VoutMode;
use pmbus::VoutModeType;
use pmbus::commands::user_data_code;

#[test]
fn ulinear16_negative_exponent() {
    // exponent = -13 is the two's-complement 5-bit pattern 0b10011 = 0x13
    let raw = 0x13;
    let mode = VoutMode::from_raw(raw);
    assert!(!mode.relative);
    assert_eq!(mode.mode, VoutModeType::ULinear16 { exponent: -13 });
    assert_eq!(mode.to_raw(), raw);
}

#[test]
fn ulinear16_positive_exponent() {
    let raw = 0x03; // exponent = 3
    let mode = VoutMode::from_raw(raw);
    assert_eq!(mode.mode, VoutModeType::ULinear16 { exponent: 3 });
    assert_eq!(mode.to_raw(), raw);
}

#[test]
fn vid_mode() {
    let raw = 0x21; // mode=01, code=1
    let mode = VoutMode::from_raw(raw);
    assert_eq!(mode.mode, VoutModeType::Vid { code: 1 });
    assert_eq!(mode.to_raw(), raw);
}

#[test]
fn direct_mode() {
    let raw = 0x40; // mode=10
    let mode = VoutMode::from_raw(raw);
    assert_eq!(mode.mode, VoutModeType::Direct);
    assert_eq!(mode.to_raw(), raw);
}

#[test]
fn ieee_half_mode() {
    let raw = 0x60; // mode=11
    let mode = VoutMode::from_raw(raw);
    assert_eq!(mode.mode, VoutModeType::IeeeHalf);
    assert_eq!(mode.to_raw(), raw);
}

#[test]
fn relative_bit() {
    let raw = 0x93; // relative=1, mode=00, exponent=-13
    let mode = VoutMode::from_raw(raw);
    assert!(mode.relative);
    assert_eq!(mode.mode, VoutModeType::ULinear16 { exponent: -13 });
    assert_eq!(mode.to_raw(), raw);
}

#[test]
fn reserved_bits_drop_on_reencode() {
    // Selector 10 with nonzero reserved bits decodes to Direct but encodes
    // back with the reserved bits cleared, by design.
    let mode = VoutMode::from_raw(0x5F);
    assert_eq!(mode.mode, VoutModeType::Direct);
    assert_eq!(mode.to_raw(), 0x40);
}

#[test]
fn roundtrip_all_modes() {
    for raw in 0u8..=255 {
        let mode = VoutMode::from_raw(raw);
        let mode_bits = (raw >> 5) & 0x03;
        match mode_bits {
            // The linear and VID modes use every bit: exact round trip.
            0b00 | 0b01 => {
                assert_eq!(mode.to_raw(), raw, "roundtrip failed for raw=0x{raw:02X}");
            },
            // Direct and IEEE-half have reserved lower bits; only the upper
            // three bits round-trip.
            _ => {
                assert_eq!(
                    mode.to_raw() & 0xE0,
                    raw & 0xE0,
                    "mode roundtrip failed for raw=0x{raw:02X}"
                );
            },
        }
    }
}

#[test]
fn status_byte_flags() {
    let s = StatusByte::from_raw(0x44);
    assert!(s.contains(StatusByteFlag::Off));
    assert!(s.contains(StatusByteFlag::Temperature));
    assert!(!s.contains(StatusByteFlag::Busy));
}

#[test]
fn status_word_high_byte() {
    let s = StatusWord::from_raw(0x8040);
    assert!(s.contains(StatusWordFlag::Vout));
    assert!(s.contains(StatusWordFlag::Off));
}

#[test]
fn status_vout_flags() {
    let s = StatusVout::from_raw(0x90);
    assert!(s.contains(StatusVoutFlag::OvFault));
    assert!(s.contains(StatusVoutFlag::UvFault));
}

#[test]
fn status_iout_flags() {
    let s = StatusIout::from_raw(0x81);
    assert!(s.contains(StatusIoutFlag::OcFault));
    assert!(s.contains(StatusIoutFlag::PoutOpWarning));
}

#[test]
fn status_input_flags() {
    let s = StatusInput::from_raw(0xC0);
    assert!(s.contains(StatusInputFlag::VinOvFault));
    assert!(s.contains(StatusInputFlag::VinOvWarning));
}

#[test]
fn status_temperature_flags() {
    let s = StatusTemperature::from_raw(0xC0);
    assert!(s.contains(StatusTemperatureFlag::OtFault));
    assert!(s.contains(StatusTemperatureFlag::OtWarning));
}

#[test]
fn status_cml_flags() {
    let s = StatusCml::from_raw(0x80);
    assert!(s.contains(StatusCmlFlag::InvalidCommand));
}

#[test]
fn status_fans12_flags() {
    let s = StatusFans12::from_raw(0xC0);
    assert!(s.contains(StatusFans12Flag::Fan1Fault));
    assert!(s.contains(StatusFans12Flag::Fan1Warning));
}

#[test]
fn status_fans34_flags() {
    let s = StatusFans34::from_raw(0x10);
    assert!(s.contains(StatusFans34Flag::Fan4Fault));
}

#[test]
fn status_empty() {
    assert!(StatusByte::from_raw(0).is_empty());
    assert!(StatusWord::from_raw(0).is_empty());
}

#[test]
fn status_truncates_bits_outside_vocabulary() {
    // Bits outside a register's vocabulary are dropped on decode: they are
    // absent from bits() and never error.
    assert_eq!(StatusTemperature::from_raw(0xFF).bits(), 0xF0);
    assert_eq!(StatusCml::from_raw(0xFF).bits(), 0xFB);
    assert!(!StatusCml::from_raw(0x04).contains(StatusCmlFlag::ProcessorFault));
    assert_eq!(StatusFans12::from_raw(0xFF).bits(), 0xFC);
    assert_eq!(StatusFans34::from_raw(0x03).bits(), 0x00);
    assert!(StatusFans34::from_raw(0x03).is_empty());
}

#[test]
fn status_bits_read_back_for_fault_clearing() {
    let s = StatusVout::from_raw(0x90);
    assert_eq!(s.bits(), 0x90);
    let s = StatusWord::from_raw(0x8040);
    assert_eq!(s.bits(), 0x8040);
}

#[test]
fn command_code_values() {
    assert_eq!(CommandCode::Page.code(), 0x00);
    assert_eq!(CommandCode::ClearFaults.code(), 0x03);
    assert_eq!(CommandCode::VoutMode.code(), 0x20);
    assert_eq!(CommandCode::StatusWord.code(), 0x79);
    assert_eq!(CommandCode::ReadVin.code(), 0x88);
    assert_eq!(CommandCode::ReadVout.code(), 0x8B);
    assert_eq!(CommandCode::MfrId.code(), 0x99);
    assert_eq!(CommandCode::UserData00.code(), 0xB0);
    assert_eq!(CommandCode::UserData15.code(), 0xBF);
    assert_eq!(CommandCode::PmbusCommandExt.code(), 0xFF);
}

#[test]
fn from_u8() {
    let code: u8 = CommandCode::ReadPout.into();
    assert_eq!(code, 0x96);
}

#[test]
fn user_data_codes_wrap_at_sixteen() {
    assert_eq!(user_data_code(0), 0xB0);
    assert_eq!(user_data_code(15), 0xBF);
    assert_eq!(user_data_code(0x1F), 0xBF);
}

#[test]
fn bus_error_wraps_into_pmbus_error() {
    let e: PmbusError<u8> = PmbusError::from(7u8);
    assert!(matches!(e, PmbusError::Bus(7)));
    assert!(matches!(PmbusError::<u8>::EncodingError, PmbusError::EncodingError));
    assert!(matches!(
        PmbusError::<u8>::InvalidResponseLength,
        PmbusError::InvalidResponseLength
    ));
}
