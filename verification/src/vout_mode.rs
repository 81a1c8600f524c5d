//! The VOUT_MODE register: one control byte selecting which encoding scheme
//! and parameters govern a device's output-voltage registers.
//!
//! Bit layout: bit 7 flags a relative (margin) voltage command, bits 6:5
//! select the mode, bits 4:0 carry the mode-specific parameter.

use vstd::prelude::*;
use vstd::arithmetic::div_mod::lemma_mod_multiples_vanish;
use vstd::arithmetic::div_mod::lemma_small_mod;

verus! {

/// The output-voltage encoding mode selected by bits 6:5 of VOUT_MODE.
#[derive(Debug, Clone, Copy, PartialEq, Eq, Structural)]
pub enum VoutModeType {
    /// Linear mode: bits 4:0 hold a signed 5-bit exponent for the unsigned
    /// fixed-point format.
    ULinear16 { exponent: i8 },
    /// VID mode: bits 4:0 identify the VID code table, not interpreted here.
    Vid { code: u8 },
    /// Direct format mode: coefficients come from the device; the parameter
    /// bits are reserved.
    Direct,
    /// IEEE 754 half-precision floating point; the parameter bits are
    /// reserved.
    IeeeHalf,
}

/// A parsed VOUT_MODE register byte.
#[derive(Debug, Clone, Copy, PartialEq, Eq, Structural)]
pub struct VoutMode {
    /// Bit 7: when set, VOUT_COMMAND is a relative margin, not an absolute
    /// voltage. Informational only; it changes no codec arithmetic.
    pub relative: bool,
    /// The output-voltage encoding mode.
    pub mode: VoutModeType,
}

/// What parsing a raw VOUT_MODE byte yields.
pub open spec fn vm_decode(raw: u8) -> VoutMode {
    let param = raw & 0x1F;
    let sel = (raw >> 5) & 0x03;
    VoutMode {
        relative: (raw & 0x80) != 0,
        mode: if sel == 0 {
            VoutModeType::ULinear16 {
                exponent: if param >= 16 {
                    (param - 32) as i8
                } else {
                    param as i8
                },
            }
        } else if sel == 1 {
            VoutModeType::Vid { code: param }
        } else if sel == 2 {
            VoutModeType::Direct
        } else {
            VoutModeType::IeeeHalf
        },
    }
}

/// The byte that a parsed VOUT_MODE value writes back: the relative bit,
/// the selector, and the five parameter bits. The exponent re-enters the
/// field as its residue modulo 32 (its two's-complement truncation); the
/// reserved parameter bits of the direct and IEEE-half modes emit as zero.
pub open spec fn vm_encode(v: VoutMode) -> int {
    let rel: int = if v.relative {
        0x80
    } else {
        0
    };
    match v.mode {
        VoutModeType::ULinear16 { exponent } => rel + ((exponent as int) % 32),
        VoutModeType::Vid { code } => rel + 0x20 + ((code & 0x1F) as int),
        VoutModeType::Direct => rel + 0x40,
        VoutModeType::IeeeHalf => rel + 0x60,
    }
}

impl VoutMode {
    /// Parse a raw VOUT_MODE register byte.
    pub fn from_raw(raw: u8) -> (r: Self)
        ensures
            r == vm_decode(raw),
    {
        proof {
            assert(raw & 0x1F < 32 && (raw >> 5) & 0x03 < 4) by (bit_vector);
        }
        let relative = (raw & 0x80) != 0;
        let mode_bits = (raw >> 5) & 0x03;
        let param = raw & 0x1F;
        let mode = if mode_bits == 0 {
            let exponent: i8 = if param >= 16 {
                ((param as i32) - 32) as i8
            } else {
                param as i8
            };
            VoutModeType::ULinear16 { exponent }
        } else if mode_bits == 1 {
            VoutModeType::Vid { code: param }
        } else if mode_bits == 2 {
            VoutModeType::Direct
        } else {
            VoutModeType::IeeeHalf
        };
        VoutMode { relative, mode }
    }

    /// Encode back to a raw register byte.
    pub fn to_raw(self) -> (r: u8)
        ensures
            r as int == vm_encode(self),
    {
        let rel_bit: u8 = if self.relative {
            0x80
        } else {
            0x00
        };
        match self.mode {
            VoutModeType::ULinear16 { exponent } => {
                let param: u8 = if exponent >= 0 {
                    (exponent as u8) % 32
                } else {
                    (((exponent as i32) + 128) % 32) as u8
                };
                proof {
                    if exponent < 0 {
                        lemma_mod_multiples_vanish(4, exponent as int, 32);
                        assert(32 * 4 + exponent == (exponent as int) + 128);
                    }
                    assert(param as int == (exponent as int) % 32);
                    assert(rel_bit | param == rel_bit + param) by (bit_vector)
                        requires
                            param < 32,
                            rel_bit == 0x80 || rel_bit == 0,
                    ;
                }
                rel_bit | param
            },
            VoutModeType::Vid { code } => {
                proof {
                    assert(rel_bit | 0x20u8 | (code & 0x1F) == rel_bit + 0x20 + (code & 0x1F))
                        by (bit_vector)
                        requires
                            rel_bit == 0x80 || rel_bit == 0,
                    ;
                }
                rel_bit | 0x20 | (code & 0x1F)
            },
            VoutModeType::Direct => {
                proof {
                    assert(rel_bit | 0x40u8 == rel_bit + 0x40) by (bit_vector)
                        requires
                            rel_bit == 0x80 || rel_bit == 0,
                    ;
                }
                rel_bit | 0x40
            },
            VoutModeType::IeeeHalf => {
                proof {
                    assert(rel_bit | 0x60u8 == rel_bit + 0x60) by (bit_vector)
                        requires
                            rel_bit == 0x80 || rel_bit == 0,
                    ;
                }
                rel_bit | 0x60
            },
        }
    }
}

/// The register's round-trip law: a byte whose selector names the linear or
/// VID mode re-encodes exactly; one naming the direct or IEEE-half mode
/// keeps its upper three bits and drops the reserved parameter bits, by
/// design.
pub proof fn lemma_vout_mode_round_trip(raw: u8)
    ensures
        (raw >> 5) & 0x03 == 0 || (raw >> 5) & 0x03 == 1 ==> vm_encode(vm_decode(raw)) == raw,
        (raw >> 5) & 0x03 == 2 || (raw >> 5) & 0x03 == 3 ==> vm_encode(vm_decode(raw)) == (raw
            & 0xE0),
{
    let param = raw & 0x1F;
    let sel = (raw >> 5) & 0x03;
    let rel: int = if (raw & 0x80) != 0 {
        0x80
    } else {
        0
    };
    assert(raw & 0x1F < 32 && (raw >> 5) & 0x03 < 4) by (bit_vector);
    if sel == 0 {
        let e: int = if param >= 16 {
            param - 32
        } else {
            param as int
        };
        if param >= 16 {
            lemma_mod_multiples_vanish(-1, param as int, 32);
            lemma_small_mod(param as nat, 32);
        } else {
            lemma_small_mod(param as nat, 32);
        }
        assert(e % 32 == param);
        assert(((raw & 0x80 != 0) ==> (raw & 0x1F) + 0x80 == raw) && ((raw & 0x80 == 0) ==> (raw
            & 0x1F) == raw)) by (bit_vector)
            requires
                (raw >> 5) & 0x03 == 0,
        ;
    } else if sel == 1 {
        assert((raw & 0x1F) & 0x1F == raw & 0x1F) by (bit_vector);
        assert(((raw & 0x80 != 0) ==> 0x80 + 0x20 + (raw & 0x1F) == raw) && ((raw & 0x80 == 0)
            ==> 0x20 + (raw & 0x1F) == raw)) by (bit_vector)
            requires
                (raw >> 5) & 0x03 == 1,
        ;
    } else if sel == 2 {
        assert(((raw & 0x80 != 0) ==> 0x80 + 0x40 == (raw & 0xE0)) && ((raw & 0x80 == 0) ==> 0x40
            == (raw & 0xE0))) by (bit_vector)
            requires
                (raw >> 5) & 0x03 == 2,
        ;
    } else {
        assert(((raw & 0x80 != 0) ==> 0x80 + 0x60 == (raw & 0xE0)) && ((raw & 0x80 == 0) ==> 0x60
            == (raw & 0xE0))) by (bit_vector)
            requires
                (raw >> 5) & 0x03 == 3,
        ;
    }
}

} // verus!
