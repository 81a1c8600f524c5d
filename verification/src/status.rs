//! The fault and warning status registers: nine independent bitfield
//! registers, each a fixed vocabulary of named single-bit flags over a raw
//! byte (one over a raw word). Decoding masks the raw value against the
//! vocabulary: bits outside it are dropped, never kept and never an error.
//! The kept bits read back verbatim through bits(), ready for the
//! write-back that clears latched faults on the device.

use vstd::prelude::*;

verus! {

/// A named flag of the 0x78 register.
#[derive(Debug, Clone, Copy, PartialEq, Eq, Structural)]
pub enum StatusByteFlag {
    Busy,
    Off,
    VoutOvFault,
    IoutOcFault,
    VinUvFault,
    Temperature,
    Cml,
    NoneOfTheAbove,
}

impl StatusByteFlag {
    /// The single vocabulary bit this flag occupies.
    pub open spec fn spec_mask(self) -> u8 {
        match self {
            StatusByteFlag::Busy => 0x80,
            StatusByteFlag::Off => 0x40,
            StatusByteFlag::VoutOvFault => 0x20,
            StatusByteFlag::IoutOcFault => 0x10,
            StatusByteFlag::VinUvFault => 0x08,
            StatusByteFlag::Temperature => 0x04,
            StatusByteFlag::Cml => 0x02,
            StatusByteFlag::NoneOfTheAbove => 0x01,
        }
    }

    /// The single vocabulary bit this flag occupies.
    #[verifier::when_used_as_spec(spec_mask)]
    pub fn mask(self) -> (m: u8)
        ensures
            m == self.spec_mask(),
    {
        match self {
            StatusByteFlag::Busy => 0x80,
            StatusByteFlag::Off => 0x40,
            StatusByteFlag::VoutOvFault => 0x20,
            StatusByteFlag::IoutOcFault => 0x10,
            StatusByteFlag::VinUvFault => 0x08,
            StatusByteFlag::Temperature => 0x04,
            StatusByteFlag::Cml => 0x02,
            StatusByteFlag::NoneOfTheAbove => 0x01,
        }
    }
}

/// The 0x78 register: 8-bit summary status.
#[derive(Debug, Clone, Copy, PartialEq, Eq, Structural)]
pub struct StatusByte {
    bits: u8,
}

impl StatusByte {
    /// The retained vocabulary bits, as the contracts speak of them.
    pub closed spec fn spec_bits(self) -> u8 {
        self.bits
    }

    /// No bit outside the register's vocabulary is ever retained.
    pub open spec fn spec_wf(self) -> bool {
        self.spec_bits() & 0x00 == 0
    }

    /// Decode a raw bus value: keep the vocabulary bits, drop the rest.
    pub fn from_raw(raw: u8) -> (s: Self)
        ensures
            s.spec_bits() == raw & 0xFF,
            s.spec_wf(),
    {
        proof {
            assert((raw & 0xFF) & 0x00 == 0) by (bit_vector);
        }
        StatusByte { bits: raw & 0xFF }
    }

    /// The currently set vocabulary bits, as a raw value suitable for the
    /// write-back that clears latched faults.
    pub fn bits(self) -> (r: u8)
        ensures
            r == self.spec_bits(),
    {
        self.bits
    }

    /// Whether the given flag is set.
    pub fn contains(self, flag: StatusByteFlag) -> (r: bool)
        ensures
            r == (self.spec_bits() & flag.spec_mask() != 0),
    {
        self.bits & flag.mask() != 0
    }

    /// Whether no flag at all is set.
    pub fn is_empty(self) -> (r: bool)
        ensures
            r == (self.spec_bits() == 0),
    {
        self.bits == 0
    }
}

/// A named flag of the 0x79 register.
#[derive(Debug, Clone, Copy, PartialEq, Eq, Structural)]
pub enum StatusWordFlag {
    Busy,
    Off,
    VoutOvFault,
    IoutOcFault,
    VinUvFault,
    Temperature,
    Cml,
    NoneOfTheAbove,
    Vout,
    IoutPout,
    Input,
    MfrSpecific,
    PowerGoodNeg,
    Fans,
    Other,
    Unknown,
}

impl StatusWordFlag {
    /// The single vocabulary bit this flag occupies.
    pub open spec fn spec_mask(self) -> u16 {
        match self {
            StatusWordFlag::Busy => 0x0080,
            StatusWordFlag::Off => 0x0040,
            StatusWordFlag::VoutOvFault => 0x0020,
            StatusWordFlag::IoutOcFault => 0x0010,
            StatusWordFlag::VinUvFault => 0x0008,
            StatusWordFlag::Temperature => 0x0004,
            StatusWordFlag::Cml => 0x0002,
            StatusWordFlag::NoneOfTheAbove => 0x0001,
            StatusWordFlag::Vout => 0x8000,
            StatusWordFlag::IoutPout => 0x4000,
            StatusWordFlag::Input => 0x2000,
            StatusWordFlag::MfrSpecific => 0x1000,
            StatusWordFlag::PowerGoodNeg => 0x0800,
            StatusWordFlag::Fans => 0x0400,
            StatusWordFlag::Other => 0x0200,
            StatusWordFlag::Unknown => 0x0100,
        }
    }

    /// The single vocabulary bit this flag occupies.
    #[verifier::when_used_as_spec(spec_mask)]
    pub fn mask(self) -> (m: u16)
        ensures
            m == self.spec_mask(),
    {
        match self {
            StatusWordFlag::Busy => 0x0080,
            StatusWordFlag::Off => 0x0040,
            StatusWordFlag::VoutOvFault => 0x0020,
            StatusWordFlag::IoutOcFault => 0x0010,
            StatusWordFlag::VinUvFault => 0x0008,
            StatusWordFlag::Temperature => 0x0004,
            StatusWordFlag::Cml => 0x0002,
            StatusWordFlag::NoneOfTheAbove => 0x0001,
            StatusWordFlag::Vout => 0x8000,
            StatusWordFlag::IoutPout => 0x4000,
            StatusWordFlag::Input => 0x2000,
            StatusWordFlag::MfrSpecific => 0x1000,
            StatusWordFlag::PowerGoodNeg => 0x0800,
            StatusWordFlag::Fans => 0x0400,
            StatusWordFlag::Other => 0x0200,
            StatusWordFlag::Unknown => 0x0100,
        }
    }
}

/// The 0x79 register: 16-bit extended status; the low byte mirrors the summary byte.
#[derive(Debug, Clone, Copy, PartialEq, Eq, Structural)]
pub struct StatusWord {
    bits: u16,
}

impl StatusWord {
    /// The retained vocabulary bits, as the contracts speak of them.
    pub closed spec fn spec_bits(self) -> u16 {
        self.bits
    }

    /// No bit outside the register's vocabulary is ever retained.
    pub open spec fn spec_wf(self) -> bool {
        self.spec_bits() & 0x0000 == 0
    }

    /// Decode a raw bus value: keep the vocabulary bits, drop the rest.
    pub fn from_raw(raw: u16) -> (s: Self)
        ensures
            s.spec_bits() == raw & 0xFFFF,
            s.spec_wf(),
    {
        proof {
            assert((raw & 0xFFFF) & 0x0000 == 0) by (bit_vector);
        }
        StatusWord { bits: raw & 0xFFFF }
    }

    /// The currently set vocabulary bits, as a raw value suitable for the
    /// write-back that clears latched faults.
    pub fn bits(self) -> (r: u16)
        ensures
            r == self.spec_bits(),
    {
        self.bits
    }

    /// Whether the given flag is set.
    pub fn contains(self, flag: StatusWordFlag) -> (r: bool)
        ensures
            r == (self.spec_bits() & flag.spec_mask() != 0),
    {
        self.bits & flag.mask() != 0
    }

    /// Whether no flag at all is set.
    pub fn is_empty(self) -> (r: bool)
        ensures
            r == (self.spec_bits() == 0),
    {
        self.bits == 0
    }
}

/// A named flag of the 0x7A register.
#[derive(Debug, Clone, Copy, PartialEq, Eq, Structural)]
pub enum StatusVoutFlag {
    OvFault,
    OvWarning,
    UvWarning,
    UvFault,
    MaxMinWarning,
    TonMaxFault,
    ToffMaxWarning,
    TrackingError,
}

impl StatusVoutFlag {
    /// The single vocabulary bit this flag occupies.
    pub open spec fn spec_mask(self) -> u8 {
        match self {
            StatusVoutFlag::OvFault => 0x80,
            StatusVoutFlag::OvWarning => 0x40,
            StatusVoutFlag::UvWarning => 0x20,
            StatusVoutFlag::UvFault => 0x10,
            StatusVoutFlag::MaxMinWarning => 0x08,
            StatusVoutFlag::TonMaxFault => 0x04,
            StatusVoutFlag::ToffMaxWarning => 0x02,
            StatusVoutFlag::TrackingError => 0x01,
        }
    }

    /// The single vocabulary bit this flag occupies.
    #[verifier::when_used_as_spec(spec_mask)]
    pub fn mask(self) -> (m: u8)
        ensures
            m == self.spec_mask(),
    {
        match self {
            StatusVoutFlag::OvFault => 0x80,
            StatusVoutFlag::OvWarning => 0x40,
            StatusVoutFlag::UvWarning => 0x20,
            StatusVoutFlag::UvFault => 0x10,
            StatusVoutFlag::MaxMinWarning => 0x08,
            StatusVoutFlag::TonMaxFault => 0x04,
            StatusVoutFlag::ToffMaxWarning => 0x02,
            StatusVoutFlag::TrackingError => 0x01,
        }
    }
}

/// The 0x7A register: output-voltage faults and warnings.
#[derive(Debug, Clone, Copy, PartialEq, Eq, Structural)]
pub struct StatusVout {
    bits: u8,
}

impl StatusVout {
    /// The retained vocabulary bits, as the contracts speak of them.
    pub closed spec fn spec_bits(self) -> u8 {
        self.bits
    }

    /// No bit outside the register's vocabulary is ever retained.
    pub open spec fn spec_wf(self) -> bool {
        self.spec_bits() & 0x00 == 0
    }

    /// Decode a raw bus value: keep the vocabulary bits, drop the rest.
    pub fn from_raw(raw: u8) -> (s: Self)
        ensures
            s.spec_bits() == raw & 0xFF,
            s.spec_wf(),
    {
        proof {
            assert((raw & 0xFF) & 0x00 == 0) by (bit_vector);
        }
        StatusVout { bits: raw & 0xFF }
    }

    /// The currently set vocabulary bits, as a raw value suitable for the
    /// write-back that clears latched faults.
    pub fn bits(self) -> (r: u8)
        ensures
            r == self.spec_bits(),
    {
        self.bits
    }

    /// Whether the given flag is set.
    pub fn contains(self, flag: StatusVoutFlag) -> (r: bool)
        ensures
            r == (self.spec_bits() & flag.spec_mask() != 0),
    {
        self.bits & flag.mask() != 0
    }

    /// Whether no flag at all is set.
    pub fn is_empty(self) -> (r: bool)
        ensures
            r == (self.spec_bits() == 0),
    {
        self.bits == 0
    }
}

/// A named flag of the 0x7B register.
#[derive(Debug, Clone, Copy, PartialEq, Eq, Structural)]
pub enum StatusIoutFlag {
    OcFault,
    OcLvFault,
    OcWarning,
    UcFault,
    CurrentShare,
    PowerLimiting,
    PoutOpFault,
    PoutOpWarning,
}

impl StatusIoutFlag {
    /// The single vocabulary bit this flag occupies.
    pub open spec fn spec_mask(self) -> u8 {
        match self {
            StatusIoutFlag::OcFault => 0x80,
            StatusIoutFlag::OcLvFault => 0x40,
            StatusIoutFlag::OcWarning => 0x20,
            StatusIoutFlag::UcFault => 0x10,
            StatusIoutFlag::CurrentShare => 0x08,
            StatusIoutFlag::PowerLimiting => 0x04,
            StatusIoutFlag::PoutOpFault => 0x02,
            StatusIoutFlag::PoutOpWarning => 0x01,
        }
    }

    /// The single vocabulary bit this flag occupies.
    #[verifier::when_used_as_spec(spec_mask)]
    pub fn mask(self) -> (m: u8)
        ensures
            m == self.spec_mask(),
    {
        match self {
            StatusIoutFlag::OcFault => 0x80,
            StatusIoutFlag::OcLvFault => 0x40,
            StatusIoutFlag::OcWarning => 0x20,
            StatusIoutFlag::UcFault => 0x10,
            StatusIoutFlag::CurrentShare => 0x08,
            StatusIoutFlag::PowerLimiting => 0x04,
            StatusIoutFlag::PoutOpFault => 0x02,
            StatusIoutFlag::PoutOpWarning => 0x01,
        }
    }
}

/// The 0x7B register: output-current faults and warnings.
#[derive(Debug, Clone, Copy, PartialEq, Eq, Structural)]
pub struct StatusIout {
    bits: u8,
}

impl StatusIout {
    /// The retained vocabulary bits, as the contracts speak of them.
    pub closed spec fn spec_bits(self) -> u8 {
        self.bits
    }

    /// No bit outside the register's vocabulary is ever retained.
    pub open spec fn spec_wf(self) -> bool {
        self.spec_bits() & 0x00 == 0
    }

    /// Decode a raw bus value: keep the vocabulary bits, drop the rest.
    pub fn from_raw(raw: u8) -> (s: Self)
        ensures
            s.spec_bits() == raw & 0xFF,
            s.spec_wf(),
    {
        proof {
            assert((raw & 0xFF) & 0x00 == 0) by (bit_vector);
        }
        StatusIout { bits: raw & 0xFF }
    }

    /// The currently set vocabulary bits, as a raw value suitable for the
    /// write-back that clears latched faults.
    pub fn bits(self) -> (r: u8)
        ensures
            r == self.spec_bits(),
    {
        self.bits
    }

    /// Whether the given flag is set.
    pub fn contains(self, flag: StatusIoutFlag) -> (r: bool)
        ensures
            r == (self.spec_bits() & flag.spec_mask() != 0),
    {
        self.bits & flag.mask() != 0
    }

    /// Whether no flag at all is set.
    pub fn is_empty(self) -> (r: bool)
        ensures
            r == (self.spec_bits() == 0),
    {
        self.bits == 0
    }
}

/// A named flag of the 0x7C register.
#[derive(Debug, Clone, Copy, PartialEq, Eq, Structural)]
pub enum StatusInputFlag {
    VinOvFault,
    VinOvWarning,
    VinUvWarning,
    VinUvFault,
    UnitOffLowVin,
    IinOcFault,
    IinOcWarning,
    PinOpWarning,
}

impl StatusInputFlag {
    /// The single vocabulary bit this flag occupies.
    pub open spec fn spec_mask(self) -> u8 {
        match self {
            StatusInputFlag::VinOvFault => 0x80,
            StatusInputFlag::VinOvWarning => 0x40,
            StatusInputFlag::VinUvWarning => 0x20,
            StatusInputFlag::VinUvFault => 0x10,
            StatusInputFlag::UnitOffLowVin => 0x08,
            StatusInputFlag::IinOcFault => 0x04,
            StatusInputFlag::IinOcWarning => 0x02,
            StatusInputFlag::PinOpWarning => 0x01,
        }
    }

    /// The single vocabulary bit this flag occupies.
    #[verifier::when_used_as_spec(spec_mask)]
    pub fn mask(self) -> (m: u8)
        ensures
            m == self.spec_mask(),
    {
        match self {
            StatusInputFlag::VinOvFault => 0x80,
            StatusInputFlag::VinOvWarning => 0x40,
            StatusInputFlag::VinUvWarning => 0x20,
            StatusInputFlag::VinUvFault => 0x10,
            StatusInputFlag::UnitOffLowVin => 0x08,
            StatusInputFlag::IinOcFault => 0x04,
            StatusInputFlag::IinOcWarning => 0x02,
            StatusInputFlag::PinOpWarning => 0x01,
        }
    }
}

/// The 0x7C register: input faults and warnings.
#[derive(Debug, Clone, Copy, PartialEq, Eq, Structural)]
pub struct StatusInput {
    bits: u8,
}

impl StatusInput {
    /// The retained vocabulary bits, as the contracts speak of them.
    pub closed spec fn spec_bits(self) -> u8 {
        self.bits
    }

    /// No bit outside the register's vocabulary is ever retained.
    pub open spec fn spec_wf(self) -> bool {
        self.spec_bits() & 0x00 == 0
    }

    /// Decode a raw bus value: keep the vocabulary bits, drop the rest.
    pub fn from_raw(raw: u8) -> (s: Self)
        ensures
            s.spec_bits() == raw & 0xFF,
            s.spec_wf(),
    {
        proof {
            assert((raw & 0xFF) & 0x00 == 0) by (bit_vector);
        }
        StatusInput { bits: raw & 0xFF }
    }

    /// The currently set vocabulary bits, as a raw value suitable for the
    /// write-back that clears latched faults.
    pub fn bits(self) -> (r: u8)
        ensures
            r == self.spec_bits(),
    {
        self.bits
    }

    /// Whether the given flag is set.
    pub fn contains(self, flag: StatusInputFlag) -> (r: bool)
        ensures
            r == (self.spec_bits() & flag.spec_mask() != 0),
    {
        self.bits & flag.mask() != 0
    }

    /// Whether no flag at all is set.
    pub fn is_empty(self) -> (r: bool)
        ensures
            r == (self.spec_bits() == 0),
    {
        self.bits == 0
    }
}

/// A named flag of the 0x7D register.
#[derive(Debug, Clone, Copy, PartialEq, Eq, Structural)]
pub enum StatusTemperatureFlag {
    OtFault,
    OtWarning,
    UtWarning,
    UtFault,
}

impl StatusTemperatureFlag {
    /// The single vocabulary bit this flag occupies.
    pub open spec fn spec_mask(self) -> u8 {
        match self {
            StatusTemperatureFlag::OtFault => 0x80,
            StatusTemperatureFlag::OtWarning => 0x40,
            StatusTemperatureFlag::UtWarning => 0x20,
            StatusTemperatureFlag::UtFault => 0x10,
        }
    }

    /// The single vocabulary bit this flag occupies.
    #[verifier::when_used_as_spec(spec_mask)]
    pub fn mask(self) -> (m: u8)
        ensures
            m == self.spec_mask(),
    {
        match self {
            StatusTemperatureFlag::OtFault => 0x80,
            StatusTemperatureFlag::OtWarning => 0x40,
            StatusTemperatureFlag::UtWarning => 0x20,
            StatusTemperatureFlag::UtFault => 0x10,
        }
    }
}

/// The 0x7D register: temperature faults and warnings; four of eight bits are defined.
#[derive(Debug, Clone, Copy, PartialEq, Eq, Structural)]
pub struct StatusTemperature {
    bits: u8,
}

impl StatusTemperature {
    /// The retained vocabulary bits, as the contracts speak of them.
    pub closed spec fn spec_bits(self) -> u8 {
        self.bits
    }

    /// No bit outside the register's vocabulary is ever retained.
    pub open spec fn spec_wf(self) -> bool {
        self.spec_bits() & 0x0F == 0
    }

    /// Decode a raw bus value: keep the vocabulary bits, drop the rest.
    pub fn from_raw(raw: u8) -> (s: Self)
        ensures
            s.spec_bits() == raw & 0xF0,
            s.spec_wf(),
    {
        proof {
            assert((raw & 0xF0) & 0x0F == 0) by (bit_vector);
        }
        StatusTemperature { bits: raw & 0xF0 }
    }

    /// The currently set vocabulary bits, as a raw value suitable for the
    /// write-back that clears latched faults.
    pub fn bits(self) -> (r: u8)
        ensures
            r == self.spec_bits(),
    {
        self.bits
    }

    /// Whether the given flag is set.
    pub fn contains(self, flag: StatusTemperatureFlag) -> (r: bool)
        ensures
            r == (self.spec_bits() & flag.spec_mask() != 0),
    {
        self.bits & flag.mask() != 0
    }

    /// Whether no flag at all is set.
    pub fn is_empty(self) -> (r: bool)
        ensures
            r == (self.spec_bits() == 0),
    {
        self.bits == 0
    }
}

/// A named flag of the 0x7E register.
#[derive(Debug, Clone, Copy, PartialEq, Eq, Structural)]
pub enum StatusCmlFlag {
    InvalidCommand,
    InvalidData,
    PecFailed,
    MemoryFault,
    ProcessorFault,
    CommFaultOther,
    OtherMemLogic,
}

impl StatusCmlFlag {
    /// The single vocabulary bit this flag occupies.
    pub open spec fn spec_mask(self) -> u8 {
        match self {
            StatusCmlFlag::InvalidCommand => 0x80,
            StatusCmlFlag::InvalidData => 0x40,
            StatusCmlFlag::PecFailed => 0x20,
            StatusCmlFlag::MemoryFault => 0x10,
            StatusCmlFlag::ProcessorFault => 0x08,
            StatusCmlFlag::CommFaultOther => 0x02,
            StatusCmlFlag::OtherMemLogic => 0x01,
        }
    }

    /// The single vocabulary bit this flag occupies.
    #[verifier::when_used_as_spec(spec_mask)]
    pub fn mask(self) -> (m: u8)
        ensures
            m == self.spec_mask(),
    {
        match self {
            StatusCmlFlag::InvalidCommand => 0x80,
            StatusCmlFlag::InvalidData => 0x40,
            StatusCmlFlag::PecFailed => 0x20,
            StatusCmlFlag::MemoryFault => 0x10,
            StatusCmlFlag::ProcessorFault => 0x08,
            StatusCmlFlag::CommFaultOther => 0x02,
            StatusCmlFlag::OtherMemLogic => 0x01,
        }
    }
}

/// The 0x7E register: communication, memory and logic faults; seven of eight bits are defined.
#[derive(Debug, Clone, Copy, PartialEq, Eq, Structural)]
pub struct StatusCml {
    bits: u8,
}

impl StatusCml {
    /// The retained vocabulary bits, as the contracts speak of them.
    pub closed spec fn spec_bits(self) -> u8 {
        self.bits
    }

    /// No bit outside the register's vocabulary is ever retained.
    pub open spec fn spec_wf(self) -> bool {
        self.spec_bits() & 0x04 == 0
    }

    /// Decode a raw bus value: keep the vocabulary bits, drop the rest.
    pub fn from_raw(raw: u8) -> (s: Self)
        ensures
            s.spec_bits() == raw & 0xFB,
            s.spec_wf(),
    {
        proof {
            assert((raw & 0xFB) & 0x04 == 0) by (bit_vector);
        }
        StatusCml { bits: raw & 0xFB }
    }

    /// The currently set vocabulary bits, as a raw value suitable for the
    /// write-back that clears latched faults.
    pub fn bits(self) -> (r: u8)
        ensures
            r == self.spec_bits(),
    {
        self.bits
    }

    /// Whether the given flag is set.
    pub fn contains(self, flag: StatusCmlFlag) -> (r: bool)
        ensures
            r == (self.spec_bits() & flag.spec_mask() != 0),
    {
        self.bits & flag.mask() != 0
    }

    /// Whether no flag at all is set.
    pub fn is_empty(self) -> (r: bool)
        ensures
            r == (self.spec_bits() == 0),
    {
        self.bits == 0
    }
}

/// A named flag of the 0x7F register.
#[derive(Debug, Clone, Copy, PartialEq, Eq, Structural)]
pub enum StatusOtherFlag {
    Bit7,
    Bit6,
    Bit5,
    Bit4,
    Bit3,
    Bit2,
    Bit1,
    Bit0,
}

impl StatusOtherFlag {
    /// The single vocabulary bit this flag occupies.
    pub open spec fn spec_mask(self) -> u8 {
        match self {
            StatusOtherFlag::Bit7 => 0x80,
            StatusOtherFlag::Bit6 => 0x40,
            StatusOtherFlag::Bit5 => 0x20,
            StatusOtherFlag::Bit4 => 0x10,
            StatusOtherFlag::Bit3 => 0x08,
            StatusOtherFlag::Bit2 => 0x04,
            StatusOtherFlag::Bit1 => 0x02,
            StatusOtherFlag::Bit0 => 0x01,
        }
    }

    /// The single vocabulary bit this flag occupies.
    #[verifier::when_used_as_spec(spec_mask)]
    pub fn mask(self) -> (m: u8)
        ensures
            m == self.spec_mask(),
    {
        match self {
            StatusOtherFlag::Bit7 => 0x80,
            StatusOtherFlag::Bit6 => 0x40,
            StatusOtherFlag::Bit5 => 0x20,
            StatusOtherFlag::Bit4 => 0x10,
            StatusOtherFlag::Bit3 => 0x08,
            StatusOtherFlag::Bit2 => 0x04,
            StatusOtherFlag::Bit1 => 0x02,
            StatusOtherFlag::Bit0 => 0x01,
        }
    }
}

/// The 0x7F register: manufacturer-defined status, eight generic bits.
#[derive(Debug, Clone, Copy, PartialEq, Eq, Structural)]
pub struct StatusOther {
    bits: u8,
}

impl StatusOther {
    /// The retained vocabulary bits, as the contracts speak of them.
    pub closed spec fn spec_bits(self) -> u8 {
        self.bits
    }

    /// No bit outside the register's vocabulary is ever retained.
    pub open spec fn spec_wf(self) -> bool {
        self.spec_bits() & 0x00 == 0
    }

    /// Decode a raw bus value: keep the vocabulary bits, drop the rest.
    pub fn from_raw(raw: u8) -> (s: Self)
        ensures
            s.spec_bits() == raw & 0xFF,
            s.spec_wf(),
    {
        proof {
            assert((raw & 0xFF) & 0x00 == 0) by (bit_vector);
        }
        StatusOther { bits: raw & 0xFF }
    }

    /// The currently set vocabulary bits, as a raw value suitable for the
    /// write-back that clears latched faults.
    pub fn bits(self) -> (r: u8)
        ensures
            r == self.spec_bits(),
    {
        self.bits
    }

    /// Whether the given flag is set.
    pub fn contains(self, flag: StatusOtherFlag) -> (r: bool)
        ensures
            r == (self.spec_bits() & flag.spec_mask() != 0),
    {
        self.bits & flag.mask() != 0
    }

    /// Whether no flag at all is set.
    pub fn is_empty(self) -> (r: bool)
        ensures
            r == (self.spec_bits() == 0),
    {
        self.bits == 0
    }
}

/// A named flag of the 0x81 register.
#[derive(Debug, Clone, Copy, PartialEq, Eq, Structural)]
pub enum StatusFans12Flag {
    Fan1Fault,
    Fan1Warning,
    Fan1SpeedOverride,
    Fan2Fault,
    Fan2Warning,
    Fan2SpeedOverride,
}

impl StatusFans12Flag {
    /// The single vocabulary bit this flag occupies.
    pub open spec fn spec_mask(self) -> u8 {
        match self {
            StatusFans12Flag::Fan1Fault => 0x80,
            StatusFans12Flag::Fan1Warning => 0x40,
            StatusFans12Flag::Fan1SpeedOverride => 0x20,
            StatusFans12Flag::Fan2Fault => 0x10,
            StatusFans12Flag::Fan2Warning => 0x08,
            StatusFans12Flag::Fan2SpeedOverride => 0x04,
        }
    }

    /// The single vocabulary bit this flag occupies.
    #[verifier::when_used_as_spec(spec_mask)]
    pub fn mask(self) -> (m: u8)
        ensures
            m == self.spec_mask(),
    {
        match self {
            StatusFans12Flag::Fan1Fault => 0x80,
            StatusFans12Flag::Fan1Warning => 0x40,
            StatusFans12Flag::Fan1SpeedOverride => 0x20,
            StatusFans12Flag::Fan2Fault => 0x10,
            StatusFans12Flag::Fan2Warning => 0x08,
            StatusFans12Flag::Fan2SpeedOverride => 0x04,
        }
    }
}

/// The 0x81 register: fans one and two; six of eight bits are defined.
#[derive(Debug, Clone, Copy, PartialEq, Eq, Structural)]
pub struct StatusFans12 {
    bits: u8,
}

impl StatusFans12 {
    /// The retained vocabulary bits, as the contracts speak of them.
    pub closed spec fn spec_bits(self) -> u8 {
        self.bits
    }

    /// No bit outside the register's vocabulary is ever retained.
    pub open spec fn spec_wf(self) -> bool {
        self.spec_bits() & 0x03 == 0
    }

    /// Decode a raw bus value: keep the vocabulary bits, drop the rest.
    pub fn from_raw(raw: u8) -> (s: Self)
        ensures
            s.spec_bits() == raw & 0xFC,
            s.spec_wf(),
    {
        proof {
            assert((raw & 0xFC) & 0x03 == 0) by (bit_vector);
        }
        StatusFans12 { bits: raw & 0xFC }
    }

    /// The currently set vocabulary bits, as a raw value suitable for the
    /// write-back that clears latched faults.
    pub fn bits(self) -> (r: u8)
        ensures
            r == self.spec_bits(),
    {
        self.bits
    }

    /// Whether the given flag is set.
    pub fn contains(self, flag: StatusFans12Flag) -> (r: bool)
        ensures
            r == (self.spec_bits() & flag.spec_mask() != 0),
    {
        self.bits & flag.mask() != 0
    }

    /// Whether no flag at all is set.
    pub fn is_empty(self) -> (r: bool)
        ensures
            r == (self.spec_bits() == 0),
    {
        self.bits == 0
    }
}

/// A named flag of the 0x82 register.
#[derive(Debug, Clone, Copy, PartialEq, Eq, Structural)]
pub enum StatusFans34Flag {
    Fan3Fault,
    Fan3Warning,
    Fan3SpeedOverride,
    Fan4Fault,
    Fan4Warning,
    Fan4SpeedOverride,
}

impl StatusFans34Flag {
    /// The single vocabulary bit this flag occupies.
    pub open spec fn spec_mask(self) -> u8 {
        match self {
            StatusFans34Flag::Fan3Fault => 0x80,
            StatusFans34Flag::Fan3Warning => 0x40,
            StatusFans34Flag::Fan3SpeedOverride => 0x20,
            StatusFans34Flag::Fan4Fault => 0x10,
            StatusFans34Flag::Fan4Warning => 0x08,
            StatusFans34Flag::Fan4SpeedOverride => 0x04,
        }
    }

    /// The single vocabulary bit this flag occupies.
    #[verifier::when_used_as_spec(spec_mask)]
    pub fn mask(self) -> (m: u8)
        ensures
            m == self.spec_mask(),
    {
        match self {
            StatusFans34Flag::Fan3Fault => 0x80,
            StatusFans34Flag::Fan3Warning => 0x40,
            StatusFans34Flag::Fan3SpeedOverride => 0x20,
            StatusFans34Flag::Fan4Fault => 0x10,
            StatusFans34Flag::Fan4Warning => 0x08,
            StatusFans34Flag::Fan4SpeedOverride => 0x04,
        }
    }
}

/// The 0x82 register: fans three and four; six of eight bits are defined.
#[derive(Debug, Clone, Copy, PartialEq, Eq, Structural)]
pub struct StatusFans34 {
    bits: u8,
}

impl StatusFans34 {
    /// The retained vocabulary bits, as the contracts speak of them.
    pub closed spec fn spec_bits(self) -> u8 {
        self.bits
    }

    /// No bit outside the register's vocabulary is ever retained.
    pub open spec fn spec_wf(self) -> bool {
        self.spec_bits() & 0x03 == 0
    }

    /// Decode a raw bus value: keep the vocabulary bits, drop the rest.
    pub fn from_raw(raw: u8) -> (s: Self)
        ensures
            s.spec_bits() == raw & 0xFC,
            s.spec_wf(),
    {
        proof {
            assert((raw & 0xFC) & 0x03 == 0) by (bit_vector);
        }
        StatusFans34 { bits: raw & 0xFC }
    }

    /// The currently set vocabulary bits, as a raw value suitable for the
    /// write-back that clears latched faults.
    pub fn bits(self) -> (r: u8)
        ensures
            r == self.spec_bits(),
    {
        self.bits
    }

    /// Whether the given flag is set.
    pub fn contains(self, flag: StatusFans34Flag) -> (r: bool)
        ensures
            r == (self.spec_bits() & flag.spec_mask() != 0),
    {
        self.bits & flag.mask() != 0
    }

    /// Whether no flag at all is set.
    pub fn is_empty(self) -> (r: bool)
        ensures
            r == (self.spec_bits() == 0),
    {
        self.bits == 0
    }
}

} // verus!
