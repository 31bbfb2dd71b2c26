use std::collections::HashMap;
use vstd::prelude::*;

verus! {

/// A PDF number as the file writes it: an integer, or a real held as the bit
/// pattern of its single-precision value. The library passes numbers on as they
/// are; it reads one only for its whole part, where widths are matched.
#[derive(Debug, Clone, Copy, PartialEq, Eq, Structural)]
pub enum Number {
    Integer(i64),
    Real(u32),
}

/// One item of a Differences array.
#[derive(Debug, Clone)]
pub enum DiffItem {
    /// The code that the next name is given.
    Code(i64),
    /// A glyph name, given to the current code.
    Name(Vec<u8>),
    /// Anything else.
    Other,
}

/// The Encoding entry of a simple font.
#[derive(Debug, Clone)]
pub enum EncodingSource {
    Absent,
    /// The name of a built-in encoding.
    Name(Vec<u8>),
    /// An encoding dictionary: an optional base encoding and the codes that differ.
    Dict { base: Option<Vec<u8>>, differences: Option<Vec<DiffItem>> },
    /// An entry of another type.
    Other,
}

/// One mapping of a ToUnicode CMap: a character code and its text in UTF-16BE.
#[derive(Debug, Clone)]
pub struct CmapEntry {
    pub code: u32,
    pub text: Vec<u8>,
}

/// The ToUnicode entry of a font.
#[derive(Debug, Clone)]
pub enum ToUnicodeSource {
    Absent,
    /// The mappings of an embedded CMap.
    Cmap(Vec<CmapEntry>),
    /// The name of a predefined CMap.
    Name(Vec<u8>),
    /// An entry of another type.
    Other,
}

/// One `code /name put` of a Type 1 font program's encoding.
#[derive(Debug, Clone)]
pub struct Type1Entry {
    pub code: u32,
    pub name: Vec<u8>,
}

/// What a simple font's dictionary says, as far as decoding needs it.
#[derive(Debug, Clone)]
pub struct SimpleFontSource {
    pub base_font: Vec<u8>,
    pub subtype: Vec<u8>,
    pub encoding: EncodingSource,
    /// The encoding of the embedded Type 1 program, where there is one.
    pub type1_encoding: Option<Vec<Type1Entry>>,
    pub to_unicode: ToUnicodeSource,
    pub first_char: Option<i64>,
    pub last_char: Option<i64>,
    pub widths: Option<Vec<Number>>,
    pub missing_width: Option<Number>,
}

/// A code taken modulo 2^32, as a character code is stored.
pub open spec fn wrap_code(x: int) -> u32 {
    (x % 0x1_0000_0000) as u32
}

/// A code taken modulo 2^32.
pub fn wrapped_code(x: i64) -> (code: u32)
    ensures
        code == wrap_code(x as int),
{
    let m: i64 = x % 4294967296;
    if m < 0 {
        (m + 4294967296) as u32
    } else {
        m as u32
    }
}

/// The whole part of the single-precision value with a bit pattern, as a 32-bit
/// integer: rounded towards zero, the nearest bound where it lies beyond the
/// type's range, and `0` where the pattern is no number.
pub open spec fn real_whole(bits: u32) -> int {
    let negative = bits >= 0x8000_0000;
    let exponent = (bits / 0x80_0000) % 256;
    let fraction = bits % 0x80_0000;
    if exponent == 255 && fraction != 0 {
        0
    } else if exponent < 127 {
        0
    } else if exponent >= 158 {
        if negative {
            i32::MIN as int
        } else {
            i32::MAX as int
        }
    } else {
        let significand = 0x80_0000 + fraction;
        let magnitude = if exponent >= 150 {
            significand * pow2_small((exponent - 150) as nat)
        } else {
            significand / pow2_small((150 - exponent) as nat)
        };
        if negative {
            -magnitude
        } else {
            magnitude
        }
    }
}

/// The powers of two up to the 23rd.
pub const POWERS_OF_TWO: [u32; 24] = [
    1, 2, 4, 8, 16, 32, 64, 128,
    256, 512, 1024, 2048, 4096, 8192, 16384, 32768,
    65536, 131072, 262144, 524288, 1048576, 2097152, 4194304, 8388608,
];

/// Two to the power of an exponent below 24.
pub open spec fn pow2_small(e: nat) -> int {
    POWERS_OF_TWO@[e as int] as int
}

impl Number {
    /// The whole part of a number as a 32-bit integer: an integer clamped to the
    /// type's range, a real rounded towards zero.
    pub open spec fn whole(self) -> int {
        match self {
            Number::Integer(i) => if i < i32::MIN {
                i32::MIN as int
            } else if i > i32::MAX {
                i32::MAX as int
            } else {
                i as int
            },
            Number::Real(bits) => real_whole(bits),
        }
    }

    /// The whole part of a number as a 32-bit integer.
    pub fn to_whole(&self) -> (whole: i32)
        ensures
            whole == self.whole(),
    {
        match *self {
            Number::Integer(i) => {
                if i < -2147483648 {
                    -2147483648
                } else if i > 2147483647 {
                    2147483647
                } else {
                    i as i32
                }
            },
            Number::Real(bits) => {
                let negative = bits >= 0x8000_0000;
                let exponent: u32 = (bits / 0x80_0000) % 256;
                let fraction: u32 = bits % 0x80_0000;
                if exponent == 255 && fraction != 0 {
                    0
                } else if exponent < 127 {
                    0
                } else if exponent >= 158 {
                    if negative {
                        -2147483648
                    } else {
                        2147483647
                    }
                } else {
                    let significand: u32 = 0x80_0000 + fraction;
                    let powers = POWERS_OF_TWO;
                    let magnitude: i64 = if exponent >= 150 {
                        let p = powers[(exponent - 150) as usize];
                        assert(1 <= p <= 128);
                        assert(significand * p <= 0xFF_FFFF * 128) by (nonlinear_arith)
                            requires
                                significand <= 0xFF_FFFF,
                                p <= 128,
                        ;
                        (significand as i64) * (p as i64)
                    } else {
                        let p = powers[(150 - exponent) as usize];
                        assert(p >= 1);
                        (significand / p) as i64
                    };
                    if negative {
                        (-magnitude) as i32
                    } else {
                        magnitude as i32
                    }
                }
            },
        }
    }
}

/// The text of each entry of a map of strings.
pub open spec fn text_map(m: Map<u32, String>) -> Map<u32, Seq<char>> {
    Map::new(|k: u32| m.contains_key(k), |k: u32| m[k]@)
}

/// The text of each entry of an optional map of strings.
pub open spec fn option_text_map(m: Option<HashMap<u32, String>>) -> Option<Map<u32, Seq<char>>> {
    match m {
        Some(map) => Some(text_map(map@)),
        None => None,
    }
}

} // verus!
