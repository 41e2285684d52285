//! Typed scalar values and the closed set of comparison types used by the
//! rule language.
//!
//! Float-typed values are carried as their IEEE-754 bit patterns: the
//! verified core never performs floating-point arithmetic.

use vstd::prelude::*;

verus! {

/// Byte order selected by a comparison type.
#[derive(Debug, PartialEq, Eq, Copy, Clone, Structural)]
pub enum Endian {
    Big,
    Little,
    Median,
    Native,
}

/// The named comparison types of the rule language.
#[derive(Debug, PartialEq, Eq, Copy, Clone, Structural)]
pub enum ValType {
    Invalid,
    Byte,
    Short,
    Default,
    Long,
    String,
    Date,
    BEShort,
    BELong,
    BEDate,
    LEShort,
    LELong,
    LEDate,
    PString,
    LDate,
    BELDate,
    LELDate,
    Regex,
    BEString16,
    LEString16,
    Search,
    MEDate,
    MELDate,
    MELong,
    Quad,
    LEQuad,
    BEQuad,
    QDate,
    LEQDate,
    BEQDate,
    QLDate,
    LEQLDate,
    BEQLDate,
    Float,
    BEFloat,
    LEFloat,
    Double,
    BEDouble,
    LEDouble,
    BEID3,
    LEID3,
    Indirect,
    QWDate,
    LEQWDate,
    BEQWDate,
    Name,
    Use,
    Clear,
    Der,
    NamesSize,
}

impl Default for ValType {
    fn default() -> (r: Self)
        ensures
            r == ValType::Invalid,
    {
        ValType::Invalid
    }
}

impl ValType {
    pub open spec fn spec_is_string(&self) -> bool {
        self == ValType::String || self == ValType::PString || self == ValType::Regex
            || self == ValType::BEString16 || self == ValType::LEString16
            || self == ValType::Search || self == ValType::Name || self == ValType::Use
            || self == ValType::Der || self == ValType::Indirect
    }

    /// String-class types: compared as byte strings, not as numbers.
    #[verifier::when_used_as_spec(spec_is_string)]
    pub fn is_string(&self) -> (r: bool)
        ensures
            r == self.spec_is_string(),
    {
        match self {
            ValType::String
            | ValType::PString
            | ValType::Regex
            | ValType::BEString16
            | ValType::LEString16
            | ValType::Search
            | ValType::Name
            | ValType::Use
            | ValType::Der
            | ValType::Indirect => true,
            _ => false,
        }
    }

    pub open spec fn spec_is_i8(&self) -> bool {
        self == ValType::Byte
    }

    #[verifier::when_used_as_spec(spec_is_i8)]
    pub fn is_i8(&self) -> (r: bool)
        ensures
            r == self.spec_is_i8(),
    {
        match self {
            ValType::Byte => true,
            _ => false,
        }
    }

    pub open spec fn spec_is_i16(&self) -> bool {
        self == ValType::Short || self == ValType::BEShort || self == ValType::LEShort
    }

    #[verifier::when_used_as_spec(spec_is_i16)]
    pub fn is_i16(&self) -> (r: bool)
        ensures
            r == self.spec_is_i16(),
    {
        match self {
            ValType::Short | ValType::BEShort | ValType::LEShort => true,
            _ => false,
        }
    }

    pub open spec fn spec_is_i32(&self) -> bool {
        self == ValType::Long || self == ValType::Date || self == ValType::BELong
            || self == ValType::BEDate || self == ValType::LELong || self == ValType::LEDate
            || self == ValType::LDate || self == ValType::BELDate || self == ValType::LELDate
            || self == ValType::MEDate || self == ValType::MELDate || self == ValType::MELong
            || self == ValType::BEID3 || self == ValType::LEID3
    }

    #[verifier::when_used_as_spec(spec_is_i32)]
    pub fn is_i32(&self) -> (r: bool)
        ensures
            r == self.spec_is_i32(),
    {
        match self {
            ValType::Long
            | ValType::Date
            | ValType::BELong
            | ValType::BEDate
            | ValType::LELong
            | ValType::LEDate
            | ValType::LDate
            | ValType::BELDate
            | ValType::LELDate
            | ValType::MEDate
            | ValType::MELDate
            | ValType::MELong
            | ValType::BEID3
            | ValType::LEID3 => true,
            _ => false,
        }
    }

    pub open spec fn spec_is_f32(&self) -> bool {
        self == ValType::Float || self == ValType::BEFloat || self == ValType::LEFloat
    }

    #[verifier::when_used_as_spec(spec_is_f32)]
    pub fn is_f32(&self) -> (r: bool)
        ensures
            r == self.spec_is_f32(),
    {
        match self {
            ValType::Float | ValType::BEFloat | ValType::LEFloat => true,
            _ => false,
        }
    }

    pub open spec fn spec_is_i64(&self) -> bool {
        self == ValType::Quad || self == ValType::LEQuad || self == ValType::BEQuad
            || self == ValType::QDate || self == ValType::LEQDate || self == ValType::BEQDate
            || self == ValType::QLDate || self == ValType::LEQLDate || self == ValType::BEQLDate
            || self == ValType::QWDate || self == ValType::LEQWDate || self == ValType::BEQWDate
    }

    #[verifier::when_used_as_spec(spec_is_i64)]
    pub fn is_i64(&self) -> (r: bool)
        ensures
            r == self.spec_is_i64(),
    {
        match self {
            ValType::Quad
            | ValType::LEQuad
            | ValType::BEQuad
            | ValType::QDate
            | ValType::LEQDate
            | ValType::BEQDate
            | ValType::QLDate
            | ValType::LEQLDate
            | ValType::BEQLDate
            | ValType::QWDate
            | ValType::LEQWDate
            | ValType::BEQWDate => true,
            _ => false,
        }
    }

    pub open spec fn spec_is_f64(&self) -> bool {
        self == ValType::Double || self == ValType::BEDouble || self == ValType::LEDouble
    }

    #[verifier::when_used_as_spec(spec_is_f64)]
    pub fn is_f64(&self) -> (r: bool)
        ensures
            r == self.spec_is_f64(),
    {
        match self {
            ValType::Double | ValType::BEDouble | ValType::LEDouble => true,
            _ => false,
        }
    }

    pub open spec fn spec_is_be(&self) -> bool {
        self == ValType::BEShort || self == ValType::BELong || self == ValType::BEDate
            || self == ValType::BELDate || self == ValType::BEString16 || self == ValType::BEQuad
            || self == ValType::BEQDate || self == ValType::BEQLDate || self == ValType::BEFloat
            || self == ValType::BEDouble || self == ValType::BEID3 || self == ValType::BEQWDate
    }

    #[verifier::when_used_as_spec(spec_is_be)]
    pub fn is_be(&self) -> (r: bool)
        ensures
            r == self.spec_is_be(),
    {
        match self {
            ValType::BEShort
            | ValType::BELong
            | ValType::BEDate
            | ValType::BELDate
            | ValType::BEString16
            | ValType::BEQuad
            | ValType::BEQDate
            | ValType::BEQLDate
            | ValType::BEFloat
            | ValType::BEDouble
            | ValType::BEID3
            | ValType::BEQWDate => true,
            _ => false,
        }
    }

    pub open spec fn spec_is_le(&self) -> bool {
        self == ValType::LEShort || self == ValType::LELong || self == ValType::LEDate
            || self == ValType::LELDate || self == ValType::LEString16 || self == ValType::LEQuad
            || self == ValType::LEQDate || self == ValType::LEQLDate || self == ValType::LEFloat
            || self == ValType::LEDouble || self == ValType::LEID3 || self == ValType::LEQWDate
    }

    #[verifier::when_used_as_spec(spec_is_le)]
    pub fn is_le(&self) -> (r: bool)
        ensures
            r == self.spec_is_le(),
    {
        match self {
            ValType::LEShort
            | ValType::LELong
            | ValType::LEDate
            | ValType::LELDate
            | ValType::LEString16
            | ValType::LEQuad
            | ValType::LEQDate
            | ValType::LEQLDate
            | ValType::LEFloat
            | ValType::LEDouble
            | ValType::LEID3
            | ValType::LEQWDate => true,
            _ => false,
        }
    }

    pub open spec fn spec_is_me(&self) -> bool {
        self == ValType::MEDate || self == ValType::MELDate || self == ValType::MELong
    }

    #[verifier::when_used_as_spec(spec_is_me)]
    pub fn is_me(&self) -> (r: bool)
        ensures
            r == self.spec_is_me(),
    {
        match self {
            ValType::MEDate | ValType::MELDate | ValType::MELong => true,
            _ => false,
        }
    }

    pub open spec fn spec_is_ne(&self) -> bool {
        !self.spec_is_be() && !self.spec_is_me() && !self.spec_is_le()
    }

    #[verifier::when_used_as_spec(spec_is_ne)]
    pub fn is_ne(&self) -> (r: bool)
        ensures
            r == self.spec_is_ne(),
    {
        !self.is_be() && !self.is_me() && !self.is_le()
    }

    pub open spec fn spec_endian(&self) -> Endian {
        if self.spec_is_be() {
            Endian::Big
        } else if self.spec_is_le() {
            Endian::Little
        } else if self.spec_is_me() {
            Endian::Median
        } else {
            Endian::Native
        }
    }

    #[verifier::when_used_as_spec(spec_endian)]
    pub fn endian(&self) -> (r: Endian)
        ensures
            r == self.spec_endian(),
    {
        if self.is_be() {
            Endian::Big
        } else if self.is_le() {
            Endian::Little
        } else if self.is_me() {
            Endian::Median
        } else {
            Endian::Native
        }
    }

    pub open spec fn spec_size(&self) -> Option<usize> {
        if self.spec_is_i8() {
            Some(1usize)
        } else if self.spec_is_i16() {
            Some(2usize)
        } else if self.spec_is_i32() || self.spec_is_f32() {
            Some(4usize)
        } else if self.spec_is_i64() || self.spec_is_f64() {
            Some(8usize)
        } else {
            None
        }
    }

    /// Width in bytes of the fixed-size numeric types.
    #[verifier::when_used_as_spec(spec_size)]
    pub fn size(&self) -> (r: Option<usize>)
        ensures
            r == self.spec_size(),
    {
        if self.is_i8() {
            Some(1)
        } else if self.is_i16() {
            Some(2)
        } else if self.is_i32() || self.is_f32() {
            Some(4)
        } else if self.is_i64() || self.is_f64() {
            Some(8)
        } else {
            None
        }
    }

    pub open spec fn spec_from_char(c: u8) -> ValType {
        if c == 0x6c {
            ValType::LELong
        } else if c == 0x4c {
            ValType::BELong
        } else if c == 0x6d {
            ValType::MELong
        } else if c == 0x68 || c == 0x73 {
            ValType::LEShort
        } else if c == 0x48 || c == 0x53 {
            ValType::BEShort
        } else if c == 0x63 || c == 0x62 || c == 0x43 || c == 0x42 {
            ValType::Byte
        } else if c == 0x65 || c == 0x66 || c == 0x67 {
            ValType::LEDouble
        } else if c == 0x45 || c == 0x46 || c == 0x47 {
            ValType::BEDouble
        } else if c == 0x69 {
            ValType::LEID3
        } else if c == 0x49 {
            ValType::BEID3
        } else if c == 0x71 {
            ValType::LEQuad
        } else if c == 0x51 {
            ValType::BEQuad
        } else {
            ValType::Invalid
        }
    }

    /// The one-character type codes of offset type suffixes.
    #[verifier::when_used_as_spec(spec_from_char)]
    pub fn from_char(c: u8) -> (r: ValType)
        ensures
            r == ValType::spec_from_char(c),
    {
        match c {
            0x6c => ValType::LELong,           // l
            0x4c => ValType::BELong,           // L
            0x6d => ValType::MELong,           // m
            0x68 | 0x73 => ValType::LEShort,   // h s
            0x48 | 0x53 => ValType::BEShort,   // H S
            0x63 | 0x62 | 0x43 | 0x42 => ValType::Byte,  // c b C B
            0x65 | 0x66 | 0x67 => ValType::LEDouble,     // e f g
            0x45 | 0x46 | 0x47 => ValType::BEDouble,     // E F G
            0x69 => ValType::LEID3,            // i
            0x49 => ValType::BEID3,            // I
            0x71 => ValType::LEQuad,           // q
            0x51 => ValType::BEQuad,           // Q
            _ => ValType::Invalid,
        }
    }

    /// The canonical lowercase name of each type.
    pub open spec fn name_of(self) -> Seq<u8> {
        match self {
            ValType::Invalid => seq![0x69u8, 0x6eu8, 0x76u8, 0x61u8, 0x6cu8, 0x69u8, 0x64u8],
            ValType::Byte => seq![0x62u8, 0x79u8, 0x74u8, 0x65u8],
            ValType::Short => seq![0x73u8, 0x68u8, 0x6fu8, 0x72u8, 0x74u8],
            ValType::Default => seq![0x64u8, 0x65u8, 0x66u8, 0x61u8, 0x75u8, 0x6cu8, 0x74u8],
            ValType::Long => seq![0x6cu8, 0x6fu8, 0x6eu8, 0x67u8],
            ValType::String => seq![0x73u8, 0x74u8, 0x72u8, 0x69u8, 0x6eu8, 0x67u8],
            ValType::Date => seq![0x64u8, 0x61u8, 0x74u8, 0x65u8],
            ValType::BEShort => seq![0x62u8, 0x65u8, 0x73u8, 0x68u8, 0x6fu8, 0x72u8, 0x74u8],
            ValType::BELong => seq![0x62u8, 0x65u8, 0x6cu8, 0x6fu8, 0x6eu8, 0x67u8],
            ValType::BEDate => seq![0x62u8, 0x65u8, 0x64u8, 0x61u8, 0x74u8, 0x65u8],
            ValType::LEShort => seq![0x6cu8, 0x65u8, 0x73u8, 0x68u8, 0x6fu8, 0x72u8, 0x74u8],
            ValType::LELong => seq![0x6cu8, 0x65u8, 0x6cu8, 0x6fu8, 0x6eu8, 0x67u8],
            ValType::LEDate => seq![0x6cu8, 0x65u8, 0x64u8, 0x61u8, 0x74u8, 0x65u8],
            ValType::PString => seq![0x70u8, 0x73u8, 0x74u8, 0x72u8, 0x69u8, 0x6eu8, 0x67u8],
            ValType::LDate => seq![0x6cu8, 0x64u8, 0x61u8, 0x74u8, 0x65u8],
            ValType::BELDate => seq![0x62u8, 0x65u8, 0x6cu8, 0x64u8, 0x61u8, 0x74u8, 0x65u8],
            ValType::LELDate => seq![0x6cu8, 0x65u8, 0x6cu8, 0x64u8, 0x61u8, 0x74u8, 0x65u8],
            ValType::Regex => seq![0x72u8, 0x65u8, 0x67u8, 0x65u8, 0x78u8],
            ValType::BEString16 => seq![0x62u8, 0x65u8, 0x73u8, 0x74u8, 0x72u8, 0x69u8, 0x6eu8, 0x67u8, 0x31u8, 0x36u8],
            ValType::LEString16 => seq![0x6cu8, 0x65u8, 0x73u8, 0x74u8, 0x72u8, 0x69u8, 0x6eu8, 0x67u8, 0x31u8, 0x36u8],
            ValType::Search => seq![0x73u8, 0x65u8, 0x61u8, 0x72u8, 0x63u8, 0x68u8],
            ValType::MEDate => seq![0x6du8, 0x65u8, 0x64u8, 0x61u8, 0x74u8, 0x65u8],
            ValType::MELDate => seq![0x6du8, 0x65u8, 0x6cu8, 0x64u8, 0x61u8, 0x74u8, 0x65u8],
            ValType::MELong => seq![0x6du8, 0x65u8, 0x6cu8, 0x6fu8, 0x6eu8, 0x67u8],
            ValType::Quad => seq![0x71u8, 0x75u8, 0x61u8, 0x64u8],
            ValType::LEQuad => seq![0x6cu8, 0x65u8, 0x71u8, 0x75u8, 0x61u8, 0x64u8],
            ValType::BEQuad => seq![0x62u8, 0x65u8, 0x71u8, 0x75u8, 0x61u8, 0x64u8],
            ValType::QDate => seq![0x71u8, 0x64u8, 0x61u8, 0x74u8, 0x65u8],
            ValType::LEQDate => seq![0x6cu8, 0x65u8, 0x71u8, 0x64u8, 0x61u8, 0x74u8, 0x65u8],
            ValType::BEQDate => seq![0x62u8, 0x65u8, 0x71u8, 0x64u8, 0x61u8, 0x74u8, 0x65u8],
            ValType::QLDate => seq![0x71u8, 0x6cu8, 0x64u8, 0x61u8, 0x74u8, 0x65u8],
            ValType::LEQLDate => seq![0x6cu8, 0x65u8, 0x71u8, 0x6cu8, 0x64u8, 0x61u8, 0x74u8, 0x65u8],
            ValType::BEQLDate => seq![0x62u8, 0x65u8, 0x71u8, 0x6cu8, 0x64u8, 0x61u8, 0x74u8, 0x65u8],
            ValType::Float => seq![0x66u8, 0x6cu8, 0x6fu8, 0x61u8, 0x74u8],
            ValType::BEFloat => seq![0x62u8, 0x65u8, 0x66u8, 0x6cu8, 0x6fu8, 0x61u8, 0x74u8],
            ValType::LEFloat => seq![0x6cu8, 0x65u8, 0x66u8, 0x6cu8, 0x6fu8, 0x61u8, 0x74u8],
            ValType::Double => seq![0x64u8, 0x6fu8, 0x75u8, 0x62u8, 0x6cu8, 0x65u8],
            ValType::BEDouble => seq![0x62u8, 0x65u8, 0x64u8, 0x6fu8, 0x75u8, 0x62u8, 0x6cu8, 0x65u8],
            ValType::LEDouble => seq![0x6cu8, 0x65u8, 0x64u8, 0x6fu8, 0x75u8, 0x62u8, 0x6cu8, 0x65u8],
            ValType::BEID3 => seq![0x62u8, 0x65u8, 0x69u8, 0x64u8, 0x33u8],
            ValType::LEID3 => seq![0x6cu8, 0x65u8, 0x69u8, 0x64u8, 0x33u8],
            ValType::Indirect => seq![0x69u8, 0x6eu8, 0x64u8, 0x69u8, 0x72u8, 0x65u8, 0x63u8, 0x74u8],
            ValType::QWDate => seq![0x71u8, 0x77u8, 0x64u8, 0x61u8, 0x74u8, 0x65u8],
            ValType::LEQWDate => seq![0x6cu8, 0x65u8, 0x71u8, 0x77u8, 0x64u8, 0x61u8, 0x74u8, 0x65u8],
            ValType::BEQWDate => seq![0x62u8, 0x65u8, 0x71u8, 0x77u8, 0x64u8, 0x61u8, 0x74u8, 0x65u8],
            ValType::Name => seq![0x6eu8, 0x61u8, 0x6du8, 0x65u8],
            ValType::Use => seq![0x75u8, 0x73u8, 0x65u8],
            ValType::Clear => seq![0x63u8, 0x6cu8, 0x65u8, 0x61u8, 0x72u8],
            ValType::Der => seq![0x64u8, 0x65u8, 0x72u8],
            ValType::NamesSize => seq![0x6eu8, 0x61u8, 0x6du8, 0x65u8, 0x73u8, 0x73u8, 0x69u8, 0x7au8, 0x65u8],
        }
    }

    /// The type a name denotes; `Invalid` when no type has that name.
    pub open spec fn spec_from_name(s: Seq<u8>) -> ValType {
        if s.len() == 3 {
            if s =~= ValType::Use.name_of() {
                ValType::Use
            } else if s =~= ValType::Der.name_of() {
                ValType::Der
            } else {
                ValType::Invalid
            }
        } else if s.len() == 4 {
            if s =~= ValType::Byte.name_of() {
                ValType::Byte
            } else if s =~= ValType::Long.name_of() {
                ValType::Long
            } else if s =~= ValType::Date.name_of() {
                ValType::Date
            } else if s =~= ValType::Quad.name_of() {
                ValType::Quad
            } else if s =~= ValType::Name.name_of() {
                ValType::Name
            } else {
                ValType::Invalid
            }
        } else if s.len() == 5 {
            if s =~= ValType::Short.name_of() {
                ValType::Short
            } else if s =~= ValType::LDate.name_of() {
                ValType::LDate
            } else if s =~= ValType::Regex.name_of() {
                ValType::Regex
            } else if s =~= ValType::QDate.name_of() {
                ValType::QDate
            } else if s =~= ValType::Float.name_of() {
                ValType::Float
            } else if s =~= ValType::BEID3.name_of() {
                ValType::BEID3
            } else if s =~= ValType::LEID3.name_of() {
                ValType::LEID3
            } else if s =~= ValType::Clear.name_of() {
                ValType::Clear
            } else {
                ValType::Invalid
            }
        } else if s.len() == 6 {
            if s =~= ValType::String.name_of() {
                ValType::String
            } else if s =~= ValType::BELong.name_of() {
                ValType::BELong
            } else if s =~= ValType::BEDate.name_of() {
                ValType::BEDate
            } else if s =~= ValType::LELong.name_of() {
                ValType::LELong
            } else if s =~= ValType::LEDate.name_of() {
                ValType::LEDate
            } else if s =~= ValType::Search.name_of() {
                ValType::Search
            } else if s =~= ValType::MEDate.name_of() {
                ValType::MEDate
            } else if s =~= ValType::MELong.name_of() {
                ValType::MELong
            } else if s =~= ValType::LEQuad.name_of() {
                ValType::LEQuad
            } else if s =~= ValType::BEQuad.name_of() {
                ValType::BEQuad
            } else if s =~= ValType::QLDate.name_of() {
                ValType::QLDate
            } else if s =~= ValType::Double.name_of() {
                ValType::Double
            } else if s =~= ValType::QWDate.name_of() {
                ValType::QWDate
            } else {
                ValType::Invalid
            }
        } else if s.len() == 7 {
            if s =~= ValType::Invalid.name_of() {
                ValType::Invalid
            } else if s =~= ValType::Default.name_of() {
                ValType::Default
            } else if s =~= ValType::BEShort.name_of() {
                ValType::BEShort
            } else if s =~= ValType::LEShort.name_of() {
                ValType::LEShort
            } else if s =~= ValType::PString.name_of() {
                ValType::PString
            } else if s =~= ValType::BELDate.name_of() {
                ValType::BELDate
            } else if s =~= ValType::LELDate.name_of() {
                ValType::LELDate
            } else if s =~= ValType::MELDate.name_of() {
                ValType::MELDate
            } else if s =~= ValType::LEQDate.name_of() {
                ValType::LEQDate
            } else if s =~= ValType::BEQDate.name_of() {
                ValType::BEQDate
            } else if s =~= ValType::BEFloat.name_of() {
                ValType::BEFloat
            } else if s =~= ValType::LEFloat.name_of() {
                ValType::LEFloat
            } else {
                ValType::Invalid
            }
        } else if s.len() == 8 {
            if s =~= ValType::LEQLDate.name_of() {
                ValType::LEQLDate
            } else if s =~= ValType::BEQLDate.name_of() {
                ValType::BEQLDate
            } else if s =~= ValType::BEDouble.name_of() {
                ValType::BEDouble
            } else if s =~= ValType::LEDouble.name_of() {
                ValType::LEDouble
            } else if s =~= ValType::Indirect.name_of() {
                ValType::Indirect
            } else if s =~= ValType::LEQWDate.name_of() {
                ValType::LEQWDate
            } else if s =~= ValType::BEQWDate.name_of() {
                ValType::BEQWDate
            } else {
                ValType::Invalid
            }
        } else if s.len() == 9 {
            if s =~= ValType::NamesSize.name_of() {
                ValType::NamesSize
            } else {
                ValType::Invalid
            }
        } else if s.len() == 10 {
            if s =~= ValType::BEString16.name_of() {
                ValType::BEString16
            } else if s =~= ValType::LEString16.name_of() {
                ValType::LEString16
            } else {
                ValType::Invalid
            }
        } else {
            ValType::Invalid
        }
    }

    #[verifier::rlimit(80)]
    pub fn from_name(s: &[u8]) -> (r: ValType)
        ensures
            r == ValType::spec_from_name(s@),
    {
        let n = s.len();
        if n == 3 {
            if s[0] == 0x75 && s[1] == 0x73 && s[2] == 0x65 {
                proof { assert(s@ =~= ValType::Use.name_of()); }
                ValType::Use
            } else if s[0] == 0x64 && s[1] == 0x65 && s[2] == 0x72 {
                proof { assert(s@ =~= ValType::Der.name_of()); }
                ValType::Der
            } else {
                ValType::Invalid
            }
        } else if n == 4 {
            if s[0] == 0x62 && s[1] == 0x79 && s[2] == 0x74 && s[3] == 0x65 {
                proof { assert(s@ =~= ValType::Byte.name_of()); }
                ValType::Byte
            } else if s[0] == 0x6c && s[1] == 0x6f && s[2] == 0x6e && s[3] == 0x67 {
                proof { assert(s@ =~= ValType::Long.name_of()); }
                ValType::Long
            } else if s[0] == 0x64 && s[1] == 0x61 && s[2] == 0x74 && s[3] == 0x65 {
                proof { assert(s@ =~= ValType::Date.name_of()); }
                ValType::Date
            } else if s[0] == 0x71 && s[1] == 0x75 && s[2] == 0x61 && s[3] == 0x64 {
                proof { assert(s@ =~= ValType::Quad.name_of()); }
                ValType::Quad
            } else if s[0] == 0x6e && s[1] == 0x61 && s[2] == 0x6d && s[3] == 0x65 {
                proof { assert(s@ =~= ValType::Name.name_of()); }
                ValType::Name
            } else {
                ValType::Invalid
            }
        } else if n == 5 {
            if s[0] == 0x73 && s[1] == 0x68 && s[2] == 0x6f && s[3] == 0x72 && s[4] == 0x74 {
                proof { assert(s@ =~= ValType::Short.name_of()); }
                ValType::Short
            } else if s[0] == 0x6c && s[1] == 0x64 && s[2] == 0x61 && s[3] == 0x74 && s[4] == 0x65 {
                proof { assert(s@ =~= ValType::LDate.name_of()); }
                ValType::LDate
            } else if s[0] == 0x72 && s[1] == 0x65 && s[2] == 0x67 && s[3] == 0x65 && s[4] == 0x78 {
                proof { assert(s@ =~= ValType::Regex.name_of()); }
                ValType::Regex
            } else if s[0] == 0x71 && s[1] == 0x64 && s[2] == 0x61 && s[3] == 0x74 && s[4] == 0x65 {
                proof { assert(s@ =~= ValType::QDate.name_of()); }
                ValType::QDate
            } else if s[0] == 0x66 && s[1] == 0x6c && s[2] == 0x6f && s[3] == 0x61 && s[4] == 0x74 {
                proof { assert(s@ =~= ValType::Float.name_of()); }
                ValType::Float
            } else if s[0] == 0x62 && s[1] == 0x65 && s[2] == 0x69 && s[3] == 0x64 && s[4] == 0x33 {
                proof { assert(s@ =~= ValType::BEID3.name_of()); }
                ValType::BEID3
            } else if s[0] == 0x6c && s[1] == 0x65 && s[2] == 0x69 && s[3] == 0x64 && s[4] == 0x33 {
                proof { assert(s@ =~= ValType::LEID3.name_of()); }
                ValType::LEID3
            } else if s[0] == 0x63 && s[1] == 0x6c && s[2] == 0x65 && s[3] == 0x61 && s[4] == 0x72 {
                proof { assert(s@ =~= ValType::Clear.name_of()); }
                ValType::Clear
            } else {
                ValType::Invalid
            }
        } else if n == 6 {
            if s[0] == 0x73 && s[1] == 0x74 && s[2] == 0x72 && s[3] == 0x69 && s[4] == 0x6e && s[5] == 0x67 {
                proof { assert(s@ =~= ValType::String.name_of()); }
                ValType::String
            } else if s[0] == 0x62 && s[1] == 0x65 && s[2] == 0x6c && s[3] == 0x6f && s[4] == 0x6e && s[5] == 0x67 {
                proof { assert(s@ =~= ValType::BELong.name_of()); }
                ValType::BELong
            } else if s[0] == 0x62 && s[1] == 0x65 && s[2] == 0x64 && s[3] == 0x61 && s[4] == 0x74 && s[5] == 0x65 {
                proof { assert(s@ =~= ValType::BEDate.name_of()); }
                ValType::BEDate
            } else if s[0] == 0x6c && s[1] == 0x65 && s[2] == 0x6c && s[3] == 0x6f && s[4] == 0x6e && s[5] == 0x67 {
                proof { assert(s@ =~= ValType::LELong.name_of()); }
                ValType::LELong
            } else if s[0] == 0x6c && s[1] == 0x65 && s[2] == 0x64 && s[3] == 0x61 && s[4] == 0x74 && s[5] == 0x65 {
                proof { assert(s@ =~= ValType::LEDate.name_of()); }
                ValType::LEDate
            } else if s[0] == 0x73 && s[1] == 0x65 && s[2] == 0x61 && s[3] == 0x72 && s[4] == 0x63 && s[5] == 0x68 {
                proof { assert(s@ =~= ValType::Search.name_of()); }
                ValType::Search
            } else if s[0] == 0x6d && s[1] == 0x65 && s[2] == 0x64 && s[3] == 0x61 && s[4] == 0x74 && s[5] == 0x65 {
                proof { assert(s@ =~= ValType::MEDate.name_of()); }
                ValType::MEDate
            } else if s[0] == 0x6d && s[1] == 0x65 && s[2] == 0x6c && s[3] == 0x6f && s[4] == 0x6e && s[5] == 0x67 {
                proof { assert(s@ =~= ValType::MELong.name_of()); }
                ValType::MELong
            } else if s[0] == 0x6c && s[1] == 0x65 && s[2] == 0x71 && s[3] == 0x75 && s[4] == 0x61 && s[5] == 0x64 {
                proof { assert(s@ =~= ValType::LEQuad.name_of()); }
                ValType::LEQuad
            } else if s[0] == 0x62 && s[1] == 0x65 && s[2] == 0x71 && s[3] == 0x75 && s[4] == 0x61 && s[5] == 0x64 {
                proof { assert(s@ =~= ValType::BEQuad.name_of()); }
                ValType::BEQuad
            } else if s[0] == 0x71 && s[1] == 0x6c && s[2] == 0x64 && s[3] == 0x61 && s[4] == 0x74 && s[5] == 0x65 {
                proof { assert(s@ =~= ValType::QLDate.name_of()); }
                ValType::QLDate
            } else if s[0] == 0x64 && s[1] == 0x6f && s[2] == 0x75 && s[3] == 0x62 && s[4] == 0x6c && s[5] == 0x65 {
                proof { assert(s@ =~= ValType::Double.name_of()); }
                ValType::Double
            } else if s[0] == 0x71 && s[1] == 0x77 && s[2] == 0x64 && s[3] == 0x61 && s[4] == 0x74 && s[5] == 0x65 {
                proof { assert(s@ =~= ValType::QWDate.name_of()); }
                ValType::QWDate
            } else {
                ValType::Invalid
            }
        } else if n == 7 {
            if s[0] == 0x69 && s[1] == 0x6e && s[2] == 0x76 && s[3] == 0x61 && s[4] == 0x6c && s[5] == 0x69 && s[6] == 0x64 {
                proof { assert(s@ =~= ValType::Invalid.name_of()); }
                ValType::Invalid
            } else if s[0] == 0x64 && s[1] == 0x65 && s[2] == 0x66 && s[3] == 0x61 && s[4] == 0x75 && s[5] == 0x6c && s[6] == 0x74 {
                proof { assert(s@ =~= ValType::Default.name_of()); }
                ValType::Default
            } else if s[0] == 0x62 && s[1] == 0x65 && s[2] == 0x73 && s[3] == 0x68 && s[4] == 0x6f && s[5] == 0x72 && s[6] == 0x74 {
                proof { assert(s@ =~= ValType::BEShort.name_of()); }
                ValType::BEShort
            } else if s[0] == 0x6c && s[1] == 0x65 && s[2] == 0x73 && s[3] == 0x68 && s[4] == 0x6f && s[5] == 0x72 && s[6] == 0x74 {
                proof { assert(s@ =~= ValType::LEShort.name_of()); }
                ValType::LEShort
            } else if s[0] == 0x70 && s[1] == 0x73 && s[2] == 0x74 && s[3] == 0x72 && s[4] == 0x69 && s[5] == 0x6e && s[6] == 0x67 {
                proof { assert(s@ =~= ValType::PString.name_of()); }
                ValType::PString
            } else if s[0] == 0x62 && s[1] == 0x65 && s[2] == 0x6c && s[3] == 0x64 && s[4] == 0x61 && s[5] == 0x74 && s[6] == 0x65 {
                proof { assert(s@ =~= ValType::BELDate.name_of()); }
                ValType::BELDate
            } else if s[0] == 0x6c && s[1] == 0x65 && s[2] == 0x6c && s[3] == 0x64 && s[4] == 0x61 && s[5] == 0x74 && s[6] == 0x65 {
                proof { assert(s@ =~= ValType::LELDate.name_of()); }
                ValType::LELDate
            } else if s[0] == 0x6d && s[1] == 0x65 && s[2] == 0x6c && s[3] == 0x64 && s[4] == 0x61 && s[5] == 0x74 && s[6] == 0x65 {
                proof { assert(s@ =~= ValType::MELDate.name_of()); }
                ValType::MELDate
            } else if s[0] == 0x6c && s[1] == 0x65 && s[2] == 0x71 && s[3] == 0x64 && s[4] == 0x61 && s[5] == 0x74 && s[6] == 0x65 {
                proof { assert(s@ =~= ValType::LEQDate.name_of()); }
                ValType::LEQDate
            } else if s[0] == 0x62 && s[1] == 0x65 && s[2] == 0x71 && s[3] == 0x64 && s[4] == 0x61 && s[5] == 0x74 && s[6] == 0x65 {
                proof { assert(s@ =~= ValType::BEQDate.name_of()); }
                ValType::BEQDate
            } else if s[0] == 0x62 && s[1] == 0x65 && s[2] == 0x66 && s[3] == 0x6c && s[4] == 0x6f && s[5] == 0x61 && s[6] == 0x74 {
                proof { assert(s@ =~= ValType::BEFloat.name_of()); }
                ValType::BEFloat
            } else if s[0] == 0x6c && s[1] == 0x65 && s[2] == 0x66 && s[3] == 0x6c && s[4] == 0x6f && s[5] == 0x61 && s[6] == 0x74 {
                proof { assert(s@ =~= ValType::LEFloat.name_of()); }
                ValType::LEFloat
            } else {
                ValType::Invalid
            }
        } else if n == 8 {
            if s[0] == 0x6c && s[1] == 0x65 && s[2] == 0x71 && s[3] == 0x6c && s[4] == 0x64 && s[5] == 0x61 && s[6] == 0x74 && s[7] == 0x65 {
                proof { assert(s@ =~= ValType::LEQLDate.name_of()); }
                ValType::LEQLDate
            } else if s[0] == 0x62 && s[1] == 0x65 && s[2] == 0x71 && s[3] == 0x6c && s[4] == 0x64 && s[5] == 0x61 && s[6] == 0x74 && s[7] == 0x65 {
                proof { assert(s@ =~= ValType::BEQLDate.name_of()); }
                ValType::BEQLDate
            } else if s[0] == 0x62 && s[1] == 0x65 && s[2] == 0x64 && s[3] == 0x6f && s[4] == 0x75 && s[5] == 0x62 && s[6] == 0x6c && s[7] == 0x65 {
                proof { assert(s@ =~= ValType::BEDouble.name_of()); }
                ValType::BEDouble
            } else if s[0] == 0x6c && s[1] == 0x65 && s[2] == 0x64 && s[3] == 0x6f && s[4] == 0x75 && s[5] == 0x62 && s[6] == 0x6c && s[7] == 0x65 {
                proof { assert(s@ =~= ValType::LEDouble.name_of()); }
                ValType::LEDouble
            } else if s[0] == 0x69 && s[1] == 0x6e && s[2] == 0x64 && s[3] == 0x69 && s[4] == 0x72 && s[5] == 0x65 && s[6] == 0x63 && s[7] == 0x74 {
                proof { assert(s@ =~= ValType::Indirect.name_of()); }
                ValType::Indirect
            } else if s[0] == 0x6c && s[1] == 0x65 && s[2] == 0x71 && s[3] == 0x77 && s[4] == 0x64 && s[5] == 0x61 && s[6] == 0x74 && s[7] == 0x65 {
                proof { assert(s@ =~= ValType::LEQWDate.name_of()); }
                ValType::LEQWDate
            } else if s[0] == 0x62 && s[1] == 0x65 && s[2] == 0x71 && s[3] == 0x77 && s[4] == 0x64 && s[5] == 0x61 && s[6] == 0x74 && s[7] == 0x65 {
                proof { assert(s@ =~= ValType::BEQWDate.name_of()); }
                ValType::BEQWDate
            } else {
                ValType::Invalid
            }
        } else if n == 9 {
            if s[0] == 0x6e && s[1] == 0x61 && s[2] == 0x6d && s[3] == 0x65 && s[4] == 0x73 && s[5] == 0x73 && s[6] == 0x69 && s[7] == 0x7a && s[8] == 0x65 {
                proof { assert(s@ =~= ValType::NamesSize.name_of()); }
                ValType::NamesSize
            } else {
                ValType::Invalid
            }
        } else if n == 10 {
            if s[0] == 0x62 && s[1] == 0x65 && s[2] == 0x73 && s[3] == 0x74 && s[4] == 0x72 && s[5] == 0x69 && s[6] == 0x6e && s[7] == 0x67 && s[8] == 0x31 && s[9] == 0x36 {
                proof { assert(s@ =~= ValType::BEString16.name_of()); }
                ValType::BEString16
            } else if s[0] == 0x6c && s[1] == 0x65 && s[2] == 0x73 && s[3] == 0x74 && s[4] == 0x72 && s[5] == 0x69 && s[6] == 0x6e && s[7] == 0x67 && s[8] == 0x31 && s[9] == 0x36 {
                proof { assert(s@ =~= ValType::LEString16.name_of()); }
                ValType::LEString16
            } else {
                ValType::Invalid
            }
        } else {
            ValType::Invalid
        }
    }

    pub open spec fn spec_lookup(s: Seq<u8>) -> ValType {
        if s.len() == 1 {
            ValType::spec_from_char(s[0])
        } else {
            ValType::spec_from_name(s)
        }
    }

    /// Resolves a type token: one-character codes go through the character
    /// table, anything longer through the name table.
    pub fn lookup(s: &[u8]) -> (r: ValType)
        ensures
            r == ValType::spec_lookup(s@),
    {
        if s.len() == 1 {
            ValType::from_char(s[0])
        } else {
            ValType::from_name(s)
        }
    }

    /// Like `lookup`, but reports an unknown token as an error.
    pub fn try_from(s: &[u8]) -> (r: Result<ValType, ()>)
        ensures
            ValType::spec_lookup(s@) == ValType::Invalid <==> r is Err,
            r matches Ok(t) ==> t == ValType::spec_lookup(s@),
    {
        let t = ValType::lookup(s);
        if t == ValType::Invalid {
            Err(())
        } else {
            Ok(t)
        }
    }
}

/// A comparison type together with its signedness.
#[derive(Debug, PartialEq, Eq, Copy, Clone, Structural)]
pub struct SignValType {
    pub unsigned: bool,
    pub typ: ValType,
}

impl SignValType {
    pub fn new(unsigned: bool, typ: ValType) -> (r: Self)
        ensures
            r == (SignValType { unsigned, typ }),
    {
        SignValType { unsigned, typ }
    }
}

impl Default for SignValType {
    /// The default comparison type: signed and invalid.
    fn default() -> (r: Self)
        ensures
            r == (SignValType { unsigned: false, typ: ValType::Invalid }),
    {
        SignValType { unsigned: false, typ: ValType::Invalid }
    }
}

/// A typed scalar: a byte string, an integer of width 8 to 64 bits, or a
/// float carried as its raw bit pattern.
#[derive(Debug, PartialEq, Clone)]
pub enum Value {
    Bytes(Vec<u8>),
    U8(u8),
    U16(u16),
    U32(u32),
    U64(u64),
    I8(i8),
    I16(i16),
    I32(i32),
    I64(i64),
    /// IEEE-754 single-precision bit pattern.
    F32(u32),
    /// IEEE-754 double-precision bit pattern.
    F64(u64),
}

/// The mathematical model of a `Value`: byte strings become sequences.
pub enum ValueView {
    Bytes(Seq<u8>),
    U8(u8),
    U16(u16),
    U32(u32),
    U64(u64),
    I8(i8),
    I16(i16),
    I32(i32),
    I64(i64),
    F32(u32),
    F64(u64),
}

impl View for Value {
    type V = ValueView;

    open spec fn view(&self) -> ValueView {
        match self {
            Value::Bytes(b) => ValueView::Bytes(b@),
            Value::U8(x) => ValueView::U8(*x),
            Value::U16(x) => ValueView::U16(*x),
            Value::U32(x) => ValueView::U32(*x),
            Value::U64(x) => ValueView::U64(*x),
            Value::I8(x) => ValueView::I8(*x),
            Value::I16(x) => ValueView::I16(*x),
            Value::I32(x) => ValueView::I32(*x),
            Value::I64(x) => ValueView::I64(*x),
            Value::F32(x) => ValueView::F32(*x),
            Value::F64(x) => ValueView::F64(*x),
        }
    }
}

/// The views of the values inside an `Option`.
pub open spec fn opt_view(r: Option<Value>) -> Option<ValueView> {
    match r {
        Some(v) => Some(v@),
        None => None,
    }
}

impl Default for Value {
    fn default() -> (r: Self)
        ensures
            r == Value::I64(0i64),
    {
        Value::I64(0)
    }
}

/// The base-256 value of a big-endian digit string.
pub open spec fn be_val(s: Seq<u8>) -> int
    decreases s.len(),
{
    if s.len() == 0 {
        0
    } else {
        256 * be_val(s.drop_last()) + s.last()
    }
}

/// The base-256 value of a little-endian digit string.
pub open spec fn le_val(s: Seq<u8>) -> int
    decreases s.len(),
{
    if s.len() == 0 {
        0
    } else {
        s.first() + 256 * le_val(s.drop_first())
    }
}

/// The value of a middle-endian 32-bit digit string: the value's bytes,
/// most significant first, are taken from positions [2, 3, 0, 1].
pub open spec fn me_val(s: Seq<u8>) -> int {
    0x1000000 * s[2] + 0x10000 * s[3] + 0x100 * s[0] + s[1]
}

pub open spec fn pow256(n: nat) -> int
    decreases n,
{
    if n == 0 {
        1
    } else {
        256 * pow256((n - 1) as nat)
    }
}

pub proof fn lemma_pow256_vals()
    ensures
        pow256(1) == 0x100,
        pow256(2) == 0x10000,
        pow256(4) == 0x100000000,
        pow256(8) == 0x10000000000000000,
{
    assert(pow256(0) == 1);
    assert(pow256(1) == 0x100);
    assert(pow256(2) == 0x10000);
    assert(pow256(3) == 0x1000000);
    assert(pow256(4) == 0x100000000);
    assert(pow256(5) == 0x10000000000);
    assert(pow256(6) == 0x1000000000000);
    assert(pow256(7) == 0x100000000000000);
    assert(pow256(8) == 0x10000000000000000);
}

pub proof fn lemma_pow256_pos(n: nat)
    ensures
        pow256(n) >= 1,
    decreases n,
{
    if n > 0 {
        lemma_pow256_pos((n - 1) as nat);
    }
}

pub proof fn lemma_pow256_le(a: nat, b: nat)
    requires
        a <= b,
    ensures
        pow256(a) <= pow256(b),
    decreases b,
{
    if a < b {
        lemma_pow256_le(a, (b - 1) as nat);
        assert(pow256(b) == 256 * pow256((b - 1) as nat));
        lemma_pow256_pos((b - 1) as nat);
    }
}

pub proof fn lemma_be_val_bound(s: Seq<u8>)
    ensures
        0 <= be_val(s) < pow256(s.len()),
    decreases s.len(),
{
    if s.len() > 0 {
        lemma_be_val_bound(s.drop_last());
    }
}

pub proof fn lemma_le_val_bound(s: Seq<u8>)
    ensures
        0 <= le_val(s) < pow256(s.len()),
    decreases s.len(),
{
    if s.len() > 0 {
        lemma_le_val_bound(s.drop_first());
    }
}

/// Reads the first `w` bytes of `v` as a big-endian integer.
pub(crate) fn read_be(v: &[u8], w: usize) -> (r: u64)
    requires
        w <= 8,
        w <= v@.len(),
    ensures
        r as int == be_val(v@.subrange(0, w as int)),
{
    let mut acc: u64 = 0;
    let mut i: usize = 0;
    proof {
        assert(v@.subrange(0, 0) =~= Seq::<u8>::empty());
    }
    while i < w
        invariant
            i <= w <= 8,
            w <= v@.len(),
            acc as int == be_val(v@.subrange(0, i as int)),
            (acc as int) < pow256(i as nat),
        decreases w - i,
    {
        proof {
            lemma_pow256_vals();
            assert(pow256(i as nat + 1) == 256 * pow256(i as nat));
            lemma_pow256_le(i as nat + 1, 8);
            assert(v@.subrange(0, i + 1).drop_last() =~= v@.subrange(0, i as int));
            assert(v@.subrange(0, i + 1).last() == v@[i as int]);
        }
        acc = acc * 256 + (v[i] as u64);
        i = i + 1;
    }
    acc
}

/// Reads the first `w` bytes of `v` as a little-endian integer.
pub(crate) fn read_le(v: &[u8], w: usize) -> (r: u64)
    requires
        w <= 8,
        w <= v@.len(),
    ensures
        r as int == le_val(v@.subrange(0, w as int)),
{
    let mut acc: u64 = 0;
    let mut i: usize = w;
    proof {
        assert(v@.subrange(w as int, w as int) =~= Seq::<u8>::empty());
    }
    while i > 0
        invariant
            i <= w <= 8,
            w <= v@.len(),
            acc as int == le_val(v@.subrange(i as int, w as int)),
            (acc as int) < pow256((w - i) as nat),
        decreases i,
    {
        proof {
            lemma_pow256_vals();
            let k = i as int - 1;
            assert(pow256((w - k) as nat) == 256 * pow256((w - i) as nat));
            lemma_pow256_le((w - k) as nat, 8);
            assert(v@.subrange(k, w as int).drop_first() =~= v@.subrange(i as int, w as int));
            assert(v@.subrange(k, w as int).first() == v@[k]);
        }
        i = i - 1;
        acc = acc * 256 + (v[i] as u64);
    }
    acc
}

impl ValueView {
    pub open spec fn spec_size(self) -> nat {
        match self {
            ValueView::Bytes(b) => b.len(),
            ValueView::I8(_) | ValueView::U8(_) => 1,
            ValueView::I16(_) | ValueView::U16(_) => 2,
            ValueView::I32(_) | ValueView::U32(_) | ValueView::F32(_) => 4,
            ValueView::I64(_) | ValueView::U64(_) | ValueView::F64(_) => 8,
        }
    }

    pub open spec fn is_int(self) -> bool {
        match self {
            ValueView::U8(_) | ValueView::U16(_) | ValueView::U32(_) | ValueView::U64(_)
            | ValueView::I8(_) | ValueView::I16(_) | ValueView::I32(_) | ValueView::I64(_) => true,
            _ => false,
        }
    }

    pub open spec fn sign_extend(x: int) -> int {
        if x >= 0 {
            x
        } else {
            x + 0x10000000000000000
        }
    }

    /// The 64-bit two's-complement bit pattern of an integer value.
    pub open spec fn bits64(self) -> int
        recommends
            self.is_int(),
    {
        match self {
            ValueView::U8(x) => x as int,
            ValueView::U16(x) => x as int,
            ValueView::U32(x) => x as int,
            ValueView::U64(x) => x as int,
            ValueView::I8(x) => Self::sign_extend(x as int),
            ValueView::I16(x) => Self::sign_extend(x as int),
            ValueView::I32(x) => Self::sign_extend(x as int),
            ValueView::I64(x) => Self::sign_extend(x as int),
            _ => 0,
        }
    }

    /// Reinterprets `u`, a bit pattern with sign bit at `half`, as signed.
    pub open spec fn spec_signed(u: int, half: int) -> int {
        if u >= half {
            u - 2 * half
        } else {
            u
        }
    }

    /// The result of an integer cast: the low bits of `b`, read per the
    /// signedness and width that `t` selects; widths outside 8/16/32/64
    /// default to 64 bits.
    pub open spec fn spec_cast_int_to(t: SignValType, b: int) -> ValueView {
        if t.unsigned {
            if t.typ.spec_is_i8() {
                ValueView::U8((b % 0x100) as u8)
            } else if t.typ.spec_is_i16() {
                ValueView::U16((b % 0x10000) as u16)
            } else if t.typ.spec_is_i32() {
                ValueView::U32((b % 0x100000000) as u32)
            } else {
                ValueView::U64(b as u64)
            }
        } else {
            if t.typ.spec_is_i8() {
                ValueView::I8(Self::spec_signed(b % 0x100, 0x80) as i8)
            } else if t.typ.spec_is_i16() {
                ValueView::I16(Self::spec_signed(b % 0x10000, 0x8000) as i16)
            } else if t.typ.spec_is_i32() {
                ValueView::I32(Self::spec_signed(b % 0x100000000, 0x80000000) as i32)
            } else {
                ValueView::I64(Self::spec_signed(b, 0x8000000000000000) as i64)
            }
        }
    }

    /// Casting a value to a comparison type.  Byte strings are kept as they
    /// are; integers follow two's-complement narrowing and widening; a float
    /// bit pattern is kept only when the target has the same width, since
    /// the verified core does no floating-point arithmetic.
    pub open spec fn spec_cast_by(self, t: SignValType) -> Option<ValueView> {
        match self {
            ValueView::Bytes(b) => Some(ValueView::Bytes(b)),
            ValueView::F32(x) => if t.typ.spec_is_f32() {
                Some(ValueView::F32(x))
            } else {
                None
            },
            ValueView::F64(x) => if t.typ.spec_is_f64() {
                Some(ValueView::F64(x))
            } else {
                None
            },
            _ => {
                if t.typ.spec_is_f32() || t.typ.spec_is_f64() {
                    None
                } else {
                    Some(ValueView::spec_cast_int_to(t, self.bits64()))
                }
            },
        }
    }

    /// The integer read from the start of `s` in the byte order of `t`:
    /// big-endian, little-endian, or middle-endian (order [2, 3, 0, 1],
    /// 32-bit only).  Native order is read as little-endian.
    pub open spec fn spec_read_endian(t: ValType, s: Seq<u8>, w: int) -> Option<int> {
        match t.spec_endian() {
            Endian::Big => Some(be_val(s.subrange(0, w))),
            Endian::Little => Some(le_val(s.subrange(0, w))),
            Endian::Native => Some(le_val(s.subrange(0, w))),
            Endian::Median => if w == 4 {
                Some(me_val(s))
            } else {
                None
            },
        }
    }

    pub open spec fn spec_num_of(t: SignValType, w: int, u: int) -> ValueView {
        if t.typ.spec_is_f32() {
            ValueView::F32(u as u32)
        } else if t.typ.spec_is_f64() {
            ValueView::F64(u as u64)
        } else if t.unsigned {
            if w == 1 {
                ValueView::U8(u as u8)
            } else if w == 2 {
                ValueView::U16(u as u16)
            } else if w == 4 {
                ValueView::U32(u as u32)
            } else {
                ValueView::U64(u as u64)
            }
        } else {
            if w == 1 {
                ValueView::I8(Self::spec_signed(u, 0x80) as i8)
            } else if w == 2 {
                ValueView::I16(Self::spec_signed(u, 0x8000) as i16)
            } else if w == 4 {
                ValueView::I32(Self::spec_signed(u, 0x80000000) as i32)
            } else {
                ValueView::I64(Self::spec_signed(u, 0x8000000000000000) as i64)
            }
        }
    }

    /// Casting raw bytes to a numeric type: the digits are read in the
    /// type's byte order and reinterpreted per its signedness; floats keep
    /// the bit pattern read.  Fails when fewer than `size` bytes are given.
    pub open spec fn spec_cast_from_bytes_to_num(t: SignValType, s: Seq<u8>) -> Option<ValueView> {
        match t.typ.spec_size() {
            None => None,
            Some(w) => {
                if s.len() < w {
                    None
                } else {
                    match Self::spec_read_endian(t.typ, s, w as int) {
                        None => None,
                        Some(u) => Some(Self::spec_num_of(t, w as int, u)),
                    }
                }
            },
        }
    }

    /// String-class and control types cast from bytes to the default value;
    /// numeric types read their digits.
    pub open spec fn spec_cast_from_bytes(t: SignValType, s: Seq<u8>) -> Option<ValueView> {
        if t.typ.spec_size() is None {
            Some(ValueView::I64(0))
        } else {
            Self::spec_cast_from_bytes_to_num(t, s)
        }
    }
}

impl Value {
    /// Size of the value in bytes.
    pub fn size(&self) -> (r: usize)
        ensures
            r == self@.spec_size(),
    {
        match self {
            Value::Bytes(bytes) => bytes.len(),
            Value::I8(_) | Value::U8(_) => 1,
            Value::I16(_) | Value::U16(_) => 2,
            Value::I32(_) | Value::U32(_) | Value::F32(_) => 4,
            Value::I64(_) | Value::U64(_) | Value::F64(_) => 8,
        }
    }

    /// Length of a byte-string value; `None` for scalars.
    pub fn str_len(&self) -> (r: Option<usize>)
        ensures
            match self@ {
                ValueView::Bytes(b) => r matches Some(l) && l as nat == b.len(),
                _ => r is None,
            },
    {
        match self {
            Value::Bytes(b) => Some(b.len()),
            _ => None,
        }
    }

    pub fn bits64(&self) -> (r: Option<u64>)
        ensures
            r is Some <==> self@.is_int(),
            r matches Some(b) ==> b as int == self@.bits64(),
    {
        match self {
            Value::U8(x) => Some(*x as u64),
            Value::U16(x) => Some(*x as u64),
            Value::U32(x) => Some(*x as u64),
            Value::U64(x) => Some(*x),
            Value::I8(x) => Some(bits_of_i64(*x as i64)),
            Value::I16(x) => Some(bits_of_i64(*x as i64)),
            Value::I32(x) => Some(bits_of_i64(*x as i64)),
            Value::I64(x) => Some(bits_of_i64(*x)),
            _ => None,
        }
    }

    /// Casts this value to the given comparison type.
    ///
    /// Conversions between the integer and float domains would take real
    /// floating-point arithmetic, which the verified core leaves to its
    /// callers: those return `None`.
    pub fn cast_by(&self, typ: &SignValType) -> (r: Option<Value>)
        ensures
            opt_view(r) == self@.spec_cast_by(*typ),
    {
        match self {
            Value::Bytes(b) => Some(Value::Bytes(b.clone())),
            Value::F32(x) => if typ.typ.is_f32() {
                Some(Value::F32(*x))
            } else {
                None
            },
            Value::F64(x) => if typ.typ.is_f64() {
                Some(Value::F64(*x))
            } else {
                None
            },
            _ => {
                if typ.typ.is_f32() || typ.typ.is_f64() {
                    None
                } else {
                    let b = self.bits64().unwrap();
                    Some(Value::cast_int_to(typ, b))
                }
            },
        }
    }

    /// Casts a value to the given comparison type.
    pub fn cast_from(typ: &SignValType, v: &Value) -> (r: Option<Value>)
        ensures
            opt_view(r) == v@.spec_cast_by(*typ),
    {
        v.cast_by(typ)
    }

    /// Consuming form of `cast_by`.
    pub fn cast_to(self, typ: SignValType) -> (r: Option<Value>)
        ensures
            opt_view(r) == self@.spec_cast_by(typ),
    {
        self.cast_by(&typ)
    }

    pub fn cast_int_to(t: &SignValType, b: u64) -> (r: Value)
        ensures
            r@ == ValueView::spec_cast_int_to(*t, b as int),
    {
        if t.unsigned {
            if t.typ.is_i8() {
                Value::U8((b % 0x100) as u8)
            } else if t.typ.is_i16() {
                Value::U16((b % 0x10000) as u16)
            } else if t.typ.is_i32() {
                Value::U32((b % 0x100000000) as u32)
            } else {
                Value::U64(b)
            }
        } else {
            if t.typ.is_i8() {
                Value::I8(to_i8(b % 0x100))
            } else if t.typ.is_i16() {
                Value::I16(to_i16(b % 0x10000))
            } else if t.typ.is_i32() {
                Value::I32(to_i32(b % 0x100000000))
            } else {
                Value::I64(i64_from_bits(b))
            }
        }
    }

    /// Casts raw bytes to a value of the given type.
    pub fn cast_from_bytes(typ: &SignValType, v: &[u8]) -> (r: Option<Value>)
        ensures
            opt_view(r) == ValueView::spec_cast_from_bytes(*typ, v@),
    {
        match typ.typ.size() {
            None => Some(Value::I64(0)),
            Some(_) => Value::cast_from_bytes_to_num(typ, v),
        }
    }

    /// Casts raw bytes to a value of the given numeric type.
    pub fn cast_from_bytes_to_num(typ: &SignValType, v: &[u8]) -> (r: Option<Value>)
        ensures
            opt_view(r) == ValueView::spec_cast_from_bytes_to_num(*typ, v@),
    {
        let w = match typ.typ.size() {
            None => {
                return None;
            },
            Some(w) => w,
        };
        if v.len() < w {
            return None;
        }
        proof {
            lemma_pow256_vals();
        }
        let u: u64 = match typ.typ.endian() {
            Endian::Big => {
                proof {
                    lemma_be_val_bound(v@.subrange(0, w as int));
                    lemma_pow256_le(w as nat, 8);
                }
                read_be(v, w)
            },
            Endian::Little | Endian::Native => {
                proof {
                    lemma_le_val_bound(v@.subrange(0, w as int));
                    lemma_pow256_le(w as nat, 8);
                }
                read_le(v, w)
            },
            Endian::Median => {
                if w != 4 {
                    return None;
                }
                0x1000000 * (v[2] as u64) + 0x10000 * (v[3] as u64) + 0x100 * (v[0] as u64) + (
                v[1] as u64)
            },
        };
        let r = if typ.typ.is_f32() {
            Value::F32(u as u32)
        } else if typ.typ.is_f64() {
            Value::F64(u)
        } else if typ.unsigned {
            if w == 1 {
                Value::U8(u as u8)
            } else if w == 2 {
                Value::U16(u as u16)
            } else if w == 4 {
                Value::U32(u as u32)
            } else {
                Value::U64(u)
            }
        } else {
            if w == 1 {
                Value::I8(to_i8(u))
            } else if w == 2 {
                Value::I16(to_i16(u))
            } else if w == 4 {
                Value::I32(to_i32(u))
            } else {
                Value::I64(i64_from_bits(u))
            }
        };
        Some(r)
    }
}

/// The 64-bit two's-complement pattern of a signed value.
fn bits_of_i64(v: i64) -> (r: u64)
    ensures
        r as int == ValueView::sign_extend(v as int),
{
    if v >= 0 {
        v as u64
    } else {
        u64::MAX - ((-(v + 1)) as u64)
    }
}

/// The signed reading of a 64-bit pattern.
fn i64_from_bits(b: u64) -> (r: i64)
    ensures
        r as int == ValueView::spec_signed(b as int, 0x8000000000000000),
{
    if b >= 0x8000000000000000 {
        -((u64::MAX - b) as i64) - 1
    } else {
        b as i64
    }
}

fn to_i8(u: u64) -> (r: i8)
    requires
        u < 0x100,
    ensures
        r as int == ValueView::spec_signed(u as int, 0x80),
{
    if u >= 0x80 {
        ((u as i64) - 0x100) as i8
    } else {
        u as i8
    }
}

fn to_i16(u: u64) -> (r: i16)
    requires
        u < 0x10000,
    ensures
        r as int == ValueView::spec_signed(u as int, 0x8000),
{
    if u >= 0x8000 {
        ((u as i64) - 0x10000) as i16
    } else {
        u as i16
    }
}

fn to_i32(u: u64) -> (r: i32)
    requires
        u < 0x100000000,
    ensures
        r as int == ValueView::spec_signed(u as int, 0x80000000),
{
    if u >= 0x80000000 {
        ((u as i64) - 0x100000000) as i32
    } else {
        u as i32
    }
}

/// The comparison type that names an integer scalar's own kind.
pub open spec fn view_kind(v: ValueView) -> SignValType {
    match v {
        ValueView::U8(_) => SignValType { unsigned: true, typ: ValType::Byte },
        ValueView::U16(_) => SignValType { unsigned: true, typ: ValType::Short },
        ValueView::U32(_) => SignValType { unsigned: true, typ: ValType::Long },
        ValueView::U64(_) => SignValType { unsigned: true, typ: ValType::Quad },
        ValueView::I8(_) => SignValType { unsigned: false, typ: ValType::Byte },
        ValueView::I16(_) => SignValType { unsigned: false, typ: ValType::Short },
        ValueView::I32(_) => SignValType { unsigned: false, typ: ValType::Long },
        ValueView::I64(_) => SignValType { unsigned: false, typ: ValType::Quad },
        _ => SignValType { unsigned: false, typ: ValType::Invalid },
    }
}

proof fn lemma_mod_shift(s: int, m: int)
    requires
        m == 0x100 || m == 0x10000 || m == 0x100000000 || m == 0x10000000000000000,
    ensures
        (s + 0x10000000000000000) % m == s % m,
{
    let f = 0x10000000000000000int / m;
    assert(m * f == 0x10000000000000000);
    vstd::arithmetic::div_mod::lemma_mod_multiples_vanish(f, s, m);
}

proof fn lemma_mod_small(x: int, m: int)
    requires
        m > 0,
        0 <= x < m,
    ensures
        x % m == x,
{
    vstd::arithmetic::div_mod::lemma_small_mod(x as nat, m as nat);
}

proof fn lemma_mod_neg(x: int, m: int)
    requires
        m > 0,
        -m <= x < 0,
    ensures
        x % m == x + m,
{
    vstd::arithmetic::div_mod::lemma_mod_multiples_vanish(1, x, m);
    lemma_mod_small(x + m, m);
}

/// Casting an integer scalar to its own kind gives the value back.
pub proof fn lemma_cast_self_identity(v: ValueView)
    requires
        v.is_int(),
    ensures
        ValueView::spec_cast_int_to(view_kind(v), v.bits64()) == v,
{
    let b = v.bits64();
    match v {
        ValueView::U8(x) => {
            lemma_mod_small(b, 0x100);
        },
        ValueView::U16(x) => {
            lemma_mod_small(b, 0x10000);
        },
        ValueView::U32(x) => {
            lemma_mod_small(b, 0x100000000);
        },
        ValueView::U64(x) => {},
        ValueView::I8(x) => {
            if x >= 0 {
                lemma_mod_small(b, 0x100);
            } else {
                lemma_mod_shift(x as int, 0x100);
                lemma_mod_neg(x as int, 0x100);
            }
        },
        ValueView::I16(x) => {
            if x >= 0 {
                lemma_mod_small(b, 0x10000);
            } else {
                lemma_mod_shift(x as int, 0x10000);
                lemma_mod_neg(x as int, 0x10000);
            }
        },
        ValueView::I32(x) => {
            if x >= 0 {
                lemma_mod_small(b, 0x100000000);
            } else {
                lemma_mod_shift(x as int, 0x100000000);
                lemma_mod_neg(x as int, 0x100000000);
            }
        },
        ValueView::I64(x) => {},
        _ => {},
    }
}

/// Round-trip casting: casting an integer scalar to a same-width integer
/// type yields a value whose two's-complement bit pattern matches the
/// source on that width, and casting the result back to the source's own
/// kind restores the source exactly.
pub proof fn lemma_cast_same_width_roundtrip(v: ValueView, t: SignValType)
    requires
        v.is_int(),
        !t.typ.spec_is_f32(),
        !t.typ.spec_is_f64(),
        match t.typ.spec_size() {
            Some(w) => w == v.spec_size(),
            None => v.spec_size() == 8,
        },
    ensures
        v.spec_cast_by(t) matches Some(u) && {
            &&& u.is_int()
            &&& u.spec_size() == v.spec_size()
            &&& u.bits64() % pow256(v.spec_size()) == v.bits64() % pow256(v.spec_size())
            &&& u.spec_cast_by(view_kind(v)) == Some(v)
        },
{
    lemma_pow256_vals();
    let b = v.bits64();
    let u = ValueView::spec_cast_int_to(t, b);
    let m = pow256(v.spec_size());
    assert(0 <= b < 0x10000000000000000);
    // the low bits of the cast result equal the low bits of the source
    if t.typ.spec_is_i8() {
        vstd::arithmetic::div_mod::lemma_mod_bound(b, 0x100);
        if !t.unsigned {
            let s = ValueView::spec_signed(b % 0x100, 0x80);
            if s < 0 {
                lemma_mod_shift(s, 0x100);
                lemma_mod_neg(s, 0x100);
                vstd::arithmetic::div_mod::lemma_mod_twice(b, 0x100);
            } else {
                lemma_mod_small(s, 0x100);
                vstd::arithmetic::div_mod::lemma_mod_twice(b, 0x100);
            }
        } else {
            vstd::arithmetic::div_mod::lemma_mod_twice(b, 0x100);
        }
    } else if t.typ.spec_is_i16() {
        vstd::arithmetic::div_mod::lemma_mod_bound(b, 0x10000);
        if !t.unsigned {
            let s = ValueView::spec_signed(b % 0x10000, 0x8000);
            if s < 0 {
                lemma_mod_shift(s, 0x10000);
                lemma_mod_neg(s, 0x10000);
                vstd::arithmetic::div_mod::lemma_mod_twice(b, 0x10000);
            } else {
                lemma_mod_small(s, 0x10000);
                vstd::arithmetic::div_mod::lemma_mod_twice(b, 0x10000);
            }
        } else {
            vstd::arithmetic::div_mod::lemma_mod_twice(b, 0x10000);
        }
    } else if t.typ.spec_is_i32() {
        vstd::arithmetic::div_mod::lemma_mod_bound(b, 0x100000000);
        if !t.unsigned {
            let s = ValueView::spec_signed(b % 0x100000000, 0x80000000);
            if s < 0 {
                lemma_mod_shift(s, 0x100000000);
                lemma_mod_neg(s, 0x100000000);
                vstd::arithmetic::div_mod::lemma_mod_twice(b, 0x100000000);
            } else {
                lemma_mod_small(s, 0x100000000);
                vstd::arithmetic::div_mod::lemma_mod_twice(b, 0x100000000);
            }
        } else {
            vstd::arithmetic::div_mod::lemma_mod_twice(b, 0x100000000);
        }
    } else {
        // 64-bit targets
        if !t.unsigned {
            let s = ValueView::spec_signed(b, 0x8000000000000000);
            if s < 0 {
                lemma_mod_shift(s, 0x10000000000000000);
                lemma_mod_neg(s, 0x10000000000000000);
                lemma_mod_small(b, 0x10000000000000000);
            } else {
                lemma_mod_small(s, 0x10000000000000000);
                lemma_mod_small(b, 0x10000000000000000);
            }
        } else {
            lemma_mod_small(b, 0x10000000000000000);
        }
    }
    // casting back restores the source
    lemma_cast_self_identity(v);
    let bu = u.bits64();
    assert(0 <= bu < 0x10000000000000000);
    assert(bu % m == b % m);
    lemma_cast_back(v, bu);
}

/// Casting any bit pattern that agrees with the source on the source's
/// width back to the source's kind restores the source.
proof fn lemma_cast_back(v: ValueView, bu: int)
    requires
        v.is_int(),
        0 <= bu < 0x10000000000000000,
        bu % pow256(v.spec_size()) == v.bits64() % pow256(v.spec_size()),
    ensures
        ValueView::spec_cast_int_to(view_kind(v), bu) == v,
{
    lemma_pow256_vals();
    lemma_cast_self_identity(v);
    let b = v.bits64();
    match v {
        ValueView::U8(_) | ValueView::I8(_) => {},
        ValueView::U16(_) | ValueView::I16(_) => {},
        ValueView::U32(_) | ValueView::I32(_) => {},
        ValueView::U64(_) | ValueView::I64(_) => {
            lemma_mod_small(bu, 0x10000000000000000);
            lemma_mod_small(b, 0x10000000000000000);
        },
        _ => {},
    }
}

/// The documented byte orders, written out: big-endian reads the first
/// byte as the most significant, little-endian as the least; the
/// middle-endian value of bytes `[b0, b1, b2, b3]` is `b2 b3 b0 b1` read
/// big-endian.
pub proof fn lemma_endian_formulas(s: Seq<u8>)
    requires
        s.len() == 4,
    ensures
        be_val(s.subrange(0, 2)) == 0x100 * s[0] + s[1],
        be_val(s) == 0x1000000 * s[0] + 0x10000 * s[1] + 0x100 * s[2] + s[3],
        le_val(s) == s[0] + 0x100 * s[1] + 0x10000 * s[2] + 0x1000000 * s[3],
        me_val(s) == 0x1000000 * s[2] + 0x10000 * s[3] + 0x100 * s[0] + s[1],
{
    let p = s.subrange(0, 2);
    assert(p.drop_last() =~= s.subrange(0, 1));
    assert(s.subrange(0, 1).drop_last() =~= Seq::<u8>::empty());
    assert(s.subrange(0, 4) =~= s);
    assert(s.drop_last() =~= s.subrange(0, 3));
    assert(s.subrange(0, 3).drop_last() =~= s.subrange(0, 2));
    assert(s.last() == s[3]);
    assert(s.subrange(0, 3).last() == s[2]);
    assert(p.last() == s[1]);
    assert(s.subrange(0, 1).last() == s[0]);
    assert(be_val(Seq::<u8>::empty()) == 0);
    assert(be_val(s.subrange(0, 1)) == 256 * be_val(Seq::<u8>::empty()) + s[0]);
    assert(be_val(p) == 256 * be_val(s.subrange(0, 1)) + s[1]);
    assert(be_val(s.subrange(0, 3)) == 256 * be_val(p) + s[2]);
    assert(be_val(s) == 256 * be_val(s.subrange(0, 3)) + s[3]);
    assert(s.drop_first().drop_first() =~= s.subrange(2, 4));
    assert(s.subrange(2, 4).drop_first() =~= s.subrange(3, 4));
    assert(s.subrange(3, 4).drop_first() =~= Seq::<u8>::empty());
    assert(s.drop_first()[0] == s[1] && s.subrange(2, 4)[0] == s[2] && s.subrange(3, 4)[0] == s[3]);
    assert(le_val(Seq::<u8>::empty()) == 0);
    assert(le_val(s.subrange(3, 4)) == s[3] + 0x100 * le_val(Seq::<u8>::empty()));
    assert(le_val(s.subrange(2, 4)) == s[2] + 0x100 * le_val(s.subrange(3, 4)));
    assert(le_val(s.drop_first()) == s[1] + 0x100 * le_val(s.subrange(2, 4)));
    assert(le_val(s) == s[0] + 0x100 * le_val(s.drop_first()));
}

} // verus!
