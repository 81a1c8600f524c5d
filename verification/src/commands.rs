//! The standard PMBus 1.4 command codes: one symbolic name per numeric
//! command byte, for callers that frame bus transactions.

use vstd::prelude::*;

verus! {

/// A standard PMBus 1.4 command.
#[derive(Debug, Clone, Copy, PartialEq, Eq, Structural)]
pub enum CommandCode {
    Page,
    Operation,
    OnOffConfig,
    ClearFaults,
    Phase,
    PagePlusWrite,
    PagePlusRead,
    ZoneConfig,
    ZoneActive,
    WriteProtect,
    StoreDefaultAll,
    RestoreDefaultAll,
    StoreDefaultCode,
    RestoreDefaultCode,
    StoreUserAll,
    RestoreUserAll,
    StoreUserCode,
    RestoreUserCode,
    Capability,
    Query,
    SmbalertMask,
    VoutMode,
    VoutCommand,
    VoutTrim,
    VoutCalOffset,
    VoutMax,
    VoutMarginHigh,
    VoutMarginLow,
    VoutTransitionRate,
    VoutDroop,
    VoutScaleLoop,
    VoutScaleMonitor,
    VoutMin,
    Coefficients,
    PoutMax,
    MaxDuty,
    FrequencySwitch,
    PowerMode,
    VinOn,
    VinOff,
    Interleave,
    IoutCalGain,
    IoutCalOffset,
    FanConfig12,
    FanCommand1,
    FanCommand2,
    FanConfig34,
    FanCommand3,
    FanCommand4,
    VoutOvFaultLimit,
    VoutOvFaultResponse,
    VoutOvWarnLimit,
    VoutUvWarnLimit,
    VoutUvFaultLimit,
    VoutUvFaultResponse,
    IoutOcFaultLimit,
    IoutOcFaultResponse,
    IoutOcLvFaultLimit,
    IoutOcLvFaultResponse,
    IoutOcWarnLimit,
    IoutUcFaultLimit,
    IoutUcFaultResponse,
    OtFaultLimit,
    OtFaultResponse,
    OtWarnLimit,
    UtWarnLimit,
    UtFaultLimit,
    UtFaultResponse,
    VinOvFaultLimit,
    VinOvFaultResponse,
    VinOvWarnLimit,
    VinUvWarnLimit,
    VinUvFaultLimit,
    VinUvFaultResponse,
    IinOcFaultLimit,
    IinOcFaultResponse,
    IinOcWarnLimit,
    PowerGoodOn,
    PowerGoodOff,
    TonDelay,
    TonRise,
    TonMaxFaultLimit,
    TonMaxFaultResponse,
    ToffDelay,
    ToffFall,
    ToffMaxWarnLimit,
    PoutOpFaultLimit,
    PoutOpFaultResponse,
    PoutOpWarnLimit,
    PinOpWarnLimit,
    StatusByte,
    StatusWord,
    StatusVout,
    StatusIout,
    StatusInput,
    StatusTemperature,
    StatusCml,
    StatusOther,
    StatusMfrSpecific,
    StatusFans12,
    StatusFans34,
    ReadKwhIn,
    ReadKwhOut,
    ReadKwhConfig,
    ReadEin,
    ReadEout,
    ReadVin,
    ReadIin,
    ReadVcap,
    ReadVout,
    ReadIout,
    ReadTemperature1,
    ReadTemperature2,
    ReadTemperature3,
    ReadFanSpeed1,
    ReadFanSpeed2,
    ReadFanSpeed3,
    ReadFanSpeed4,
    ReadDutyCycle,
    ReadFrequency,
    ReadPout,
    ReadPin,
    PmbusRevision,
    MfrId,
    MfrModel,
    MfrRevision,
    MfrLocation,
    MfrDate,
    MfrSerial,
    AppProfileSupport,
    MfrVinMin,
    MfrVinMax,
    MfrIinMax,
    MfrPinMax,
    MfrVoutMin,
    MfrVoutMax,
    MfrIoutMax,
    MfrPoutMax,
    MfrTambientMax,
    MfrTambientMin,
    MfrEfficiencyLl,
    MfrEfficiencyHl,
    MfrPinAccuracy,
    IcDeviceId,
    IcDeviceRev,
    UserData00,
    UserData01,
    UserData02,
    UserData03,
    UserData04,
    UserData05,
    UserData06,
    UserData07,
    UserData08,
    UserData09,
    UserData10,
    UserData11,
    UserData12,
    UserData13,
    UserData14,
    UserData15,
    MfrMaxTemp1,
    MfrMaxTemp2,
    MfrMaxTemp3,
    MfrSpecificCommandExt,
    PmbusCommandExt,
}

impl CommandCode {
    /// The numeric command byte of this command.
    pub open spec fn spec_code(self) -> u8 {
        match self {
            CommandCode::Page => 0x00,
            CommandCode::Operation => 0x01,
            CommandCode::OnOffConfig => 0x02,
            CommandCode::ClearFaults => 0x03,
            CommandCode::Phase => 0x04,
            CommandCode::PagePlusWrite => 0x05,
            CommandCode::PagePlusRead => 0x06,
            CommandCode::ZoneConfig => 0x07,
            CommandCode::ZoneActive => 0x08,
            CommandCode::WriteProtect => 0x10,
            CommandCode::StoreDefaultAll => 0x11,
            CommandCode::RestoreDefaultAll => 0x12,
            CommandCode::StoreDefaultCode => 0x13,
            CommandCode::RestoreDefaultCode => 0x14,
            CommandCode::StoreUserAll => 0x15,
            CommandCode::RestoreUserAll => 0x16,
            CommandCode::StoreUserCode => 0x17,
            CommandCode::RestoreUserCode => 0x18,
            CommandCode::Capability => 0x19,
            CommandCode::Query => 0x1A,
            CommandCode::SmbalertMask => 0x1B,
            CommandCode::VoutMode => 0x20,
            CommandCode::VoutCommand => 0x21,
            CommandCode::VoutTrim => 0x22,
            CommandCode::VoutCalOffset => 0x23,
            CommandCode::VoutMax => 0x24,
            CommandCode::VoutMarginHigh => 0x25,
            CommandCode::VoutMarginLow => 0x26,
            CommandCode::VoutTransitionRate => 0x27,
            CommandCode::VoutDroop => 0x28,
            CommandCode::VoutScaleLoop => 0x29,
            CommandCode::VoutScaleMonitor => 0x2A,
            CommandCode::VoutMin => 0x2B,
            CommandCode::Coefficients => 0x30,
            CommandCode::PoutMax => 0x31,
            CommandCode::MaxDuty => 0x32,
            CommandCode::FrequencySwitch => 0x33,
            CommandCode::PowerMode => 0x34,
            CommandCode::VinOn => 0x35,
            CommandCode::VinOff => 0x36,
            CommandCode::Interleave => 0x37,
            CommandCode::IoutCalGain => 0x38,
            CommandCode::IoutCalOffset => 0x39,
            CommandCode::FanConfig12 => 0x3A,
            CommandCode::FanCommand1 => 0x3B,
            CommandCode::FanCommand2 => 0x3C,
            CommandCode::FanConfig34 => 0x3D,
            CommandCode::FanCommand3 => 0x3E,
            CommandCode::FanCommand4 => 0x3F,
            CommandCode::VoutOvFaultLimit => 0x40,
            CommandCode::VoutOvFaultResponse => 0x41,
            CommandCode::VoutOvWarnLimit => 0x42,
            CommandCode::VoutUvWarnLimit => 0x43,
            CommandCode::VoutUvFaultLimit => 0x44,
            CommandCode::VoutUvFaultResponse => 0x45,
            CommandCode::IoutOcFaultLimit => 0x46,
            CommandCode::IoutOcFaultResponse => 0x47,
            CommandCode::IoutOcLvFaultLimit => 0x48,
            CommandCode::IoutOcLvFaultResponse => 0x49,
            CommandCode::IoutOcWarnLimit => 0x4A,
            CommandCode::IoutUcFaultLimit => 0x4B,
            CommandCode::IoutUcFaultResponse => 0x4C,
            CommandCode::OtFaultLimit => 0x4F,
            CommandCode::OtFaultResponse => 0x50,
            CommandCode::OtWarnLimit => 0x51,
            CommandCode::UtWarnLimit => 0x52,
            CommandCode::UtFaultLimit => 0x53,
            CommandCode::UtFaultResponse => 0x54,
            CommandCode::VinOvFaultLimit => 0x55,
            CommandCode::VinOvFaultResponse => 0x56,
            CommandCode::VinOvWarnLimit => 0x57,
            CommandCode::VinUvWarnLimit => 0x58,
            CommandCode::VinUvFaultLimit => 0x59,
            CommandCode::VinUvFaultResponse => 0x5A,
            CommandCode::IinOcFaultLimit => 0x5B,
            CommandCode::IinOcFaultResponse => 0x5C,
            CommandCode::IinOcWarnLimit => 0x5D,
            CommandCode::PowerGoodOn => 0x5E,
            CommandCode::PowerGoodOff => 0x5F,
            CommandCode::TonDelay => 0x60,
            CommandCode::TonRise => 0x61,
            CommandCode::TonMaxFaultLimit => 0x62,
            CommandCode::TonMaxFaultResponse => 0x63,
            CommandCode::ToffDelay => 0x64,
            CommandCode::ToffFall => 0x65,
            CommandCode::ToffMaxWarnLimit => 0x66,
            CommandCode::PoutOpFaultLimit => 0x68,
            CommandCode::PoutOpFaultResponse => 0x69,
            CommandCode::PoutOpWarnLimit => 0x6A,
            CommandCode::PinOpWarnLimit => 0x6B,
            CommandCode::StatusByte => 0x78,
            CommandCode::StatusWord => 0x79,
            CommandCode::StatusVout => 0x7A,
            CommandCode::StatusIout => 0x7B,
            CommandCode::StatusInput => 0x7C,
            CommandCode::StatusTemperature => 0x7D,
            CommandCode::StatusCml => 0x7E,
            CommandCode::StatusOther => 0x7F,
            CommandCode::StatusMfrSpecific => 0x80,
            CommandCode::StatusFans12 => 0x81,
            CommandCode::StatusFans34 => 0x82,
            CommandCode::ReadKwhIn => 0x83,
            CommandCode::ReadKwhOut => 0x84,
            CommandCode::ReadKwhConfig => 0x85,
            CommandCode::ReadEin => 0x86,
            CommandCode::ReadEout => 0x87,
            CommandCode::ReadVin => 0x88,
            CommandCode::ReadIin => 0x89,
            CommandCode::ReadVcap => 0x8A,
            CommandCode::ReadVout => 0x8B,
            CommandCode::ReadIout => 0x8C,
            CommandCode::ReadTemperature1 => 0x8D,
            CommandCode::ReadTemperature2 => 0x8E,
            CommandCode::ReadTemperature3 => 0x8F,
            CommandCode::ReadFanSpeed1 => 0x90,
            CommandCode::ReadFanSpeed2 => 0x91,
            CommandCode::ReadFanSpeed3 => 0x92,
            CommandCode::ReadFanSpeed4 => 0x93,
            CommandCode::ReadDutyCycle => 0x94,
            CommandCode::ReadFrequency => 0x95,
            CommandCode::ReadPout => 0x96,
            CommandCode::ReadPin => 0x97,
            CommandCode::PmbusRevision => 0x98,
            CommandCode::MfrId => 0x99,
            CommandCode::MfrModel => 0x9A,
            CommandCode::MfrRevision => 0x9B,
            CommandCode::MfrLocation => 0x9C,
            CommandCode::MfrDate => 0x9D,
            CommandCode::MfrSerial => 0x9E,
            CommandCode::AppProfileSupport => 0x9F,
            CommandCode::MfrVinMin => 0xA0,
            CommandCode::MfrVinMax => 0xA1,
            CommandCode::MfrIinMax => 0xA2,
            CommandCode::MfrPinMax => 0xA3,
            CommandCode::MfrVoutMin => 0xA4,
            CommandCode::MfrVoutMax => 0xA5,
            CommandCode::MfrIoutMax => 0xA6,
            CommandCode::MfrPoutMax => 0xA7,
            CommandCode::MfrTambientMax => 0xA8,
            CommandCode::MfrTambientMin => 0xA9,
            CommandCode::MfrEfficiencyLl => 0xAA,
            CommandCode::MfrEfficiencyHl => 0xAB,
            CommandCode::MfrPinAccuracy => 0xAC,
            CommandCode::IcDeviceId => 0xAD,
            CommandCode::IcDeviceRev => 0xAE,
            CommandCode::UserData00 => 0xB0,
            CommandCode::UserData01 => 0xB1,
            CommandCode::UserData02 => 0xB2,
            CommandCode::UserData03 => 0xB3,
            CommandCode::UserData04 => 0xB4,
            CommandCode::UserData05 => 0xB5,
            CommandCode::UserData06 => 0xB6,
            CommandCode::UserData07 => 0xB7,
            CommandCode::UserData08 => 0xB8,
            CommandCode::UserData09 => 0xB9,
            CommandCode::UserData10 => 0xBA,
            CommandCode::UserData11 => 0xBB,
            CommandCode::UserData12 => 0xBC,
            CommandCode::UserData13 => 0xBD,
            CommandCode::UserData14 => 0xBE,
            CommandCode::UserData15 => 0xBF,
            CommandCode::MfrMaxTemp1 => 0xC0,
            CommandCode::MfrMaxTemp2 => 0xC1,
            CommandCode::MfrMaxTemp3 => 0xC2,
            CommandCode::MfrSpecificCommandExt => 0xFE,
            CommandCode::PmbusCommandExt => 0xFF,
        }
    }

    /// Return the raw u8 command code.
    #[verifier::when_used_as_spec(spec_code)]
    pub fn code(self) -> (c: u8)
        ensures
            c == self.spec_code(),
    {
        match self {
            CommandCode::Page => 0x00,
            CommandCode::Operation => 0x01,
            CommandCode::OnOffConfig => 0x02,
            CommandCode::ClearFaults => 0x03,
            CommandCode::Phase => 0x04,
            CommandCode::PagePlusWrite => 0x05,
            CommandCode::PagePlusRead => 0x06,
            CommandCode::ZoneConfig => 0x07,
            CommandCode::ZoneActive => 0x08,
            CommandCode::WriteProtect => 0x10,
            CommandCode::StoreDefaultAll => 0x11,
            CommandCode::RestoreDefaultAll => 0x12,
            CommandCode::StoreDefaultCode => 0x13,
            CommandCode::RestoreDefaultCode => 0x14,
            CommandCode::StoreUserAll => 0x15,
            CommandCode::RestoreUserAll => 0x16,
            CommandCode::StoreUserCode => 0x17,
            CommandCode::RestoreUserCode => 0x18,
            CommandCode::Capability => 0x19,
            CommandCode::Query => 0x1A,
            CommandCode::SmbalertMask => 0x1B,
            CommandCode::VoutMode => 0x20,
            CommandCode::VoutCommand => 0x21,
            CommandCode::VoutTrim => 0x22,
            CommandCode::VoutCalOffset => 0x23,
            CommandCode::VoutMax => 0x24,
            CommandCode::VoutMarginHigh => 0x25,
            CommandCode::VoutMarginLow => 0x26,
            CommandCode::VoutTransitionRate => 0x27,
            CommandCode::VoutDroop => 0x28,
            CommandCode::VoutScaleLoop => 0x29,
            CommandCode::VoutScaleMonitor => 0x2A,
            CommandCode::VoutMin => 0x2B,
            CommandCode::Coefficients => 0x30,
            CommandCode::PoutMax => 0x31,
            CommandCode::MaxDuty => 0x32,
            CommandCode::FrequencySwitch => 0x33,
            CommandCode::PowerMode => 0x34,
            CommandCode::VinOn => 0x35,
            CommandCode::VinOff => 0x36,
            CommandCode::Interleave => 0x37,
            CommandCode::IoutCalGain => 0x38,
            CommandCode::IoutCalOffset => 0x39,
            CommandCode::FanConfig12 => 0x3A,
            CommandCode::FanCommand1 => 0x3B,
            CommandCode::FanCommand2 => 0x3C,
            CommandCode::FanConfig34 => 0x3D,
            CommandCode::FanCommand3 => 0x3E,
            CommandCode::FanCommand4 => 0x3F,
            CommandCode::VoutOvFaultLimit => 0x40,
            CommandCode::VoutOvFaultResponse => 0x41,
            CommandCode::VoutOvWarnLimit => 0x42,
            CommandCode::VoutUvWarnLimit => 0x43,
            CommandCode::VoutUvFaultLimit => 0x44,
            CommandCode::VoutUvFaultResponse => 0x45,
            CommandCode::IoutOcFaultLimit => 0x46,
            CommandCode::IoutOcFaultResponse => 0x47,
            CommandCode::IoutOcLvFaultLimit => 0x48,
            CommandCode::IoutOcLvFaultResponse => 0x49,
            CommandCode::IoutOcWarnLimit => 0x4A,
            CommandCode::IoutUcFaultLimit => 0x4B,
            CommandCode::IoutUcFaultResponse => 0x4C,
            CommandCode::OtFaultLimit => 0x4F,
            CommandCode::OtFaultResponse => 0x50,
            CommandCode::OtWarnLimit => 0x51,
            CommandCode::UtWarnLimit => 0x52,
            CommandCode::UtFaultLimit => 0x53,
            CommandCode::UtFaultResponse => 0x54,
            CommandCode::VinOvFaultLimit => 0x55,
            CommandCode::VinOvFaultResponse => 0x56,
            CommandCode::VinOvWarnLimit => 0x57,
            CommandCode::VinUvWarnLimit => 0x58,
            CommandCode::VinUvFaultLimit => 0x59,
            CommandCode::VinUvFaultResponse => 0x5A,
            CommandCode::IinOcFaultLimit => 0x5B,
            CommandCode::IinOcFaultResponse => 0x5C,
            CommandCode::IinOcWarnLimit => 0x5D,
            CommandCode::PowerGoodOn => 0x5E,
            CommandCode::PowerGoodOff => 0x5F,
            CommandCode::TonDelay => 0x60,
            CommandCode::TonRise => 0x61,
            CommandCode::TonMaxFaultLimit => 0x62,
            CommandCode::TonMaxFaultResponse => 0x63,
            CommandCode::ToffDelay => 0x64,
            CommandCode::ToffFall => 0x65,
            CommandCode::ToffMaxWarnLimit => 0x66,
            CommandCode::PoutOpFaultLimit => 0x68,
            CommandCode::PoutOpFaultResponse => 0x69,
            CommandCode::PoutOpWarnLimit => 0x6A,
            CommandCode::PinOpWarnLimit => 0x6B,
            CommandCode::StatusByte => 0x78,
            CommandCode::StatusWord => 0x79,
            CommandCode::StatusVout => 0x7A,
            CommandCode::StatusIout => 0x7B,
            CommandCode::StatusInput => 0x7C,
            CommandCode::StatusTemperature => 0x7D,
            CommandCode::StatusCml => 0x7E,
            CommandCode::StatusOther => 0x7F,
            CommandCode::StatusMfrSpecific => 0x80,
            CommandCode::StatusFans12 => 0x81,
            CommandCode::StatusFans34 => 0x82,
            CommandCode::ReadKwhIn => 0x83,
            CommandCode::ReadKwhOut => 0x84,
            CommandCode::ReadKwhConfig => 0x85,
            CommandCode::ReadEin => 0x86,
            CommandCode::ReadEout => 0x87,
            CommandCode::ReadVin => 0x88,
            CommandCode::ReadIin => 0x89,
            CommandCode::ReadVcap => 0x8A,
            CommandCode::ReadVout => 0x8B,
            CommandCode::ReadIout => 0x8C,
            CommandCode::ReadTemperature1 => 0x8D,
            CommandCode::ReadTemperature2 => 0x8E,
            CommandCode::ReadTemperature3 => 0x8F,
            CommandCode::ReadFanSpeed1 => 0x90,
            CommandCode::ReadFanSpeed2 => 0x91,
            CommandCode::ReadFanSpeed3 => 0x92,
            CommandCode::ReadFanSpeed4 => 0x93,
            CommandCode::ReadDutyCycle => 0x94,
            CommandCode::ReadFrequency => 0x95,
            CommandCode::ReadPout => 0x96,
            CommandCode::ReadPin => 0x97,
            CommandCode::PmbusRevision => 0x98,
            CommandCode::MfrId => 0x99,
            CommandCode::MfrModel => 0x9A,
            CommandCode::MfrRevision => 0x9B,
            CommandCode::MfrLocation => 0x9C,
            CommandCode::MfrDate => 0x9D,
            CommandCode::MfrSerial => 0x9E,
            CommandCode::AppProfileSupport => 0x9F,
            CommandCode::MfrVinMin => 0xA0,
            CommandCode::MfrVinMax => 0xA1,
            CommandCode::MfrIinMax => 0xA2,
            CommandCode::MfrPinMax => 0xA3,
            CommandCode::MfrVoutMin => 0xA4,
            CommandCode::MfrVoutMax => 0xA5,
            CommandCode::MfrIoutMax => 0xA6,
            CommandCode::MfrPoutMax => 0xA7,
            CommandCode::MfrTambientMax => 0xA8,
            CommandCode::MfrTambientMin => 0xA9,
            CommandCode::MfrEfficiencyLl => 0xAA,
            CommandCode::MfrEfficiencyHl => 0xAB,
            CommandCode::MfrPinAccuracy => 0xAC,
            CommandCode::IcDeviceId => 0xAD,
            CommandCode::IcDeviceRev => 0xAE,
            CommandCode::UserData00 => 0xB0,
            CommandCode::UserData01 => 0xB1,
            CommandCode::UserData02 => 0xB2,
            CommandCode::UserData03 => 0xB3,
            CommandCode::UserData04 => 0xB4,
            CommandCode::UserData05 => 0xB5,
            CommandCode::UserData06 => 0xB6,
            CommandCode::UserData07 => 0xB7,
            CommandCode::UserData08 => 0xB8,
            CommandCode::UserData09 => 0xB9,
            CommandCode::UserData10 => 0xBA,
            CommandCode::UserData11 => 0xBB,
            CommandCode::UserData12 => 0xBC,
            CommandCode::UserData13 => 0xBD,
            CommandCode::UserData14 => 0xBE,
            CommandCode::UserData15 => 0xBF,
            CommandCode::MfrMaxTemp1 => 0xC0,
            CommandCode::MfrMaxTemp2 => 0xC1,
            CommandCode::MfrMaxTemp3 => 0xC2,
            CommandCode::MfrSpecificCommandExt => 0xFE,
            CommandCode::PmbusCommandExt => 0xFF,
        }
    }
}

/// The command byte of the indexed user-data block: UserData00 plus the
/// low four bits of the index.
pub fn user_data_code(index: u8) -> (c: u8)
    ensures
        c == 0xB0 + (index & 0x0F),
{
    proof {
        assert(index & 0x0F < 16) by (bit_vector);
    }
    0xB0 + (index & 0x0F)
}

impl From<CommandCode> for u8 {
    /// The numeric command byte, for callers that want a plain conversion.
    fn from(cmd: CommandCode) -> (r: u8)
        ensures
            r == cmd.spec_code(),
    {
        cmd.code()
    }
}

impl vstd::std_specs::convert::FromSpecImpl<CommandCode> for u8 {
    open spec fn obeys_from_spec() -> bool {
        true
    }

    open spec fn from_spec(cmd: CommandCode) -> u8 {
        cmd.spec_code()
    }
}

} // verus!
