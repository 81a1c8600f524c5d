//! Codecs for the numeric value formats of the PMBus power-management
//! protocol: the 16-bit signed mantissa/exponent format, the 16-bit unsigned
//! fixed-point format with an external exponent, the coefficient-driven
//! linear transform format, the VOUT_MODE register that selects among them,
//! and the fault/warning status registers.
//!
//! Every codec works on exact integers. A physical value is carried as a
//! significand times a power of two, which is how a finite binary float
//! decomposes, so rounding and best-fit searches are exact and fully
//! specified; callers working in floating point convert at the boundary and
//! lose nothing.

pub mod arith;
pub mod commands;
pub mod error;
pub mod formats;
pub mod status;
pub mod vout_mode;

pub use commands::CommandCode;
pub use error::PmbusError;
pub use formats::DirectCoefficients;
pub use formats::Linear11;
pub use formats::ULinear16;
pub use status::StatusByte;
pub use status::StatusByteFlag;
pub use status::StatusWord;
pub use status::StatusWordFlag;
pub use status::StatusVout;
pub use status::StatusVoutFlag;
pub use status::StatusIout;
pub use status::StatusIoutFlag;
pub use status::StatusInput;
pub use status::StatusInputFlag;
pub use status::StatusTemperature;
pub use status::StatusTemperatureFlag;
pub use status::StatusCml;
pub use status::StatusCmlFlag;
pub use status::StatusOther;
pub use status::StatusOtherFlag;
pub use status::StatusFans12;
pub use status::StatusFans12Flag;
pub use status::StatusFans34;
pub use status::StatusFans34Flag;
pub use vout_mode::VoutMode;
pub use vout_mode::VoutModeType;
