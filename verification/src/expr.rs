//! Offset and comparison expressions: mask flags, operators, actions, and
//! the expression tree that rule lines compile to.

use vstd::prelude::*;

use crate::expr_value::{SignValType, Value};

verus! {

/// A 16-bit set of string-comparison modifier flags.
///
/// Bit positions follow the character table `WwcCsbtTBHhLlJr`: the flag for
/// character `i` of that table is bit `i`.
#[derive(Debug, PartialEq, Eq, Copy, Clone, Structural)]
pub struct MaskFlags {
    pub bits: u16,
}

/// Collapse runs of whitespace in the scanned input (`W`).
pub const FLAG_COMPACT_WHITESPACE: u16 = 0x0001;

/// Also accept absent whitespace (`w`).
pub const FLAG_COMPACT_OPTIONAL_WHITESPACE: u16 = 0x0002;

/// Fold lowercase in the scanned input (`c`).
pub const FLAG_IGNORE_LOWERCASE: u16 = 0x0004;

/// Fold uppercase in the scanned input (`C`).
pub const FLAG_IGNORE_UPPERCASE: u16 = 0x0008;

/// Anchor a regex match at the offset (`s`).
pub const FLAG_REGEX_OFFSET_START: u16 = 0x0010;

/// Force a binary test (`b`).
pub const FLAG_BINTEST: u16 = 0x0020;

/// Force a text test (`t`).
pub const FLAG_TEXTTEST: u16 = 0x0040;

/// Trim trailing whitespace from the matched output (`T`).
pub const FLAG_TRIM: u16 = 0x0080;

/// Pascal string with a 1-byte length prefix (`B`).
pub const FLAG_PSTRING_1_LE: u16 = 0x0100;

/// Pascal string with a 2-byte big-endian length prefix (`H`).
pub const FLAG_PSTRING_2_BE: u16 = 0x0200;

/// Pascal string with a 2-byte little-endian length prefix (`h`).
pub const FLAG_PSTRING_2_LE: u16 = 0x0400;

/// Pascal string with a 4-byte big-endian length prefix (`L`).
pub const FLAG_PSTRING_4_BE: u16 = 0x0800;

/// Pascal string with a 4-byte little-endian length prefix (`l`).
pub const FLAG_PSTRING_4_LE: u16 = 0x1000;

/// The length prefix counts itself (`J`).
pub const FLAG_PSTRING_LENGTH_INCLUDES_ITSELF: u16 = 0x2000;

/// The offset is relative to the indirect base (`r`).
pub const FLAG_INDIRECT_RRELATIVE: u16 = 0x4000;

/// The five alternative Pascal-string length-prefix flags.
pub const FLAG_PSTRING_LEN: u16 = 0x1f00;

/// All bits that carry a defined flag.
pub const FLAG_ALL: u16 = 0x7fff;

impl MaskFlags {
    /// The flag a modifier character denotes; 0 when the character is not in
    /// the table `WwcCsbtTBHhLlJr`.
    pub open spec fn spec_flag_of_char(c: u8) -> u16 {
        if c == 0x57 {  // W
            FLAG_COMPACT_WHITESPACE
        } else if c == 0x77 {  // w
            FLAG_COMPACT_OPTIONAL_WHITESPACE
        } else if c == 0x63 {  // c
            FLAG_IGNORE_LOWERCASE
        } else if c == 0x43 {  // C
            FLAG_IGNORE_UPPERCASE
        } else if c == 0x73 {  // s
            FLAG_REGEX_OFFSET_START
        } else if c == 0x62 {  // b
            FLAG_BINTEST
        } else if c == 0x74 {  // t
            FLAG_TEXTTEST
        } else if c == 0x54 {  // T
            FLAG_TRIM
        } else if c == 0x42 {  // B
            FLAG_PSTRING_1_LE
        } else if c == 0x48 {  // H
            FLAG_PSTRING_2_BE
        } else if c == 0x68 {  // h
            FLAG_PSTRING_2_LE
        } else if c == 0x4c {  // L
            FLAG_PSTRING_4_BE
        } else if c == 0x6c {  // l
            FLAG_PSTRING_4_LE
        } else if c == 0x4a {  // J
            FLAG_PSTRING_LENGTH_INCLUDES_ITSELF
        } else if c == 0x72 {  // r
            FLAG_INDIRECT_RRELATIVE
        } else {
            0
        }
    }

    /// The characters of the modifier table, in bit order.
    pub fn all_in_chars() -> &'static str {
        "WwcCsbtTBHhLlJr"
    }

    /// The empty flag set.
    pub fn none() -> (r: MaskFlags)
        ensures
            r.bits == 0,
    {
        MaskFlags { bits: 0 }
    }

    /// Keeps only the defined flag bits of a raw pattern.
    pub fn from_bits(bits: u16) -> (r: MaskFlags)
        ensures
            r.bits == bits & FLAG_ALL,
    {
        MaskFlags { bits: bits & FLAG_ALL }
    }

    /// The flag set a modifier character denotes.
    pub fn from_char(c: u8) -> (r: MaskFlags)
        ensures
            r.bits == MaskFlags::spec_flag_of_char(c),
    {
        match c {
            0x57 => MaskFlags { bits: FLAG_COMPACT_WHITESPACE },
            0x77 => MaskFlags { bits: FLAG_COMPACT_OPTIONAL_WHITESPACE },
            0x63 => MaskFlags { bits: FLAG_IGNORE_LOWERCASE },
            0x43 => MaskFlags { bits: FLAG_IGNORE_UPPERCASE },
            0x73 => MaskFlags { bits: FLAG_REGEX_OFFSET_START },
            0x62 => MaskFlags { bits: FLAG_BINTEST },
            0x74 => MaskFlags { bits: FLAG_TEXTTEST },
            0x54 => MaskFlags { bits: FLAG_TRIM },
            0x42 => MaskFlags { bits: FLAG_PSTRING_1_LE },
            0x48 => MaskFlags { bits: FLAG_PSTRING_2_BE },
            0x68 => MaskFlags { bits: FLAG_PSTRING_2_LE },
            0x4c => MaskFlags { bits: FLAG_PSTRING_4_BE },
            0x6c => MaskFlags { bits: FLAG_PSTRING_4_LE },
            0x4a => MaskFlags { bits: FLAG_PSTRING_LENGTH_INCLUDES_ITSELF },
            0x72 => MaskFlags { bits: FLAG_INDIRECT_RRELATIVE },
            _ => MaskFlags { bits: 0 },
        }
    }

    /// The flag set a modifier character denotes, or an error for a
    /// character outside the table.
    pub fn try_from(c: u8) -> (r: Result<MaskFlags, ()>)
        ensures
            MaskFlags::spec_flag_of_char(c) == 0 <==> r is Err,
            r matches Ok(f) ==> f.bits == MaskFlags::spec_flag_of_char(c),
    {
        let f = MaskFlags::from_char(c);
        if f.bits == 0 {
            Err(())
        } else {
            Ok(f)
        }
    }

    /// Whether every flag of `other` is set here.
    pub fn contains(&self, other: MaskFlags) -> (r: bool)
        ensures
            r == (self.bits & other.bits == other.bits),
    {
        self.bits & other.bits == other.bits
    }

    /// Whether any of the five Pascal-string length-prefix flags is set.
    pub fn is_pstring(&self) -> (r: bool)
        ensures
            r == (self.bits & FLAG_PSTRING_LEN != 0),
    {
        self.bits & FLAG_PSTRING_LEN != 0
    }

    /// Adds the given flag bits.
    pub fn insert(&mut self, bits: u16)
        ensures
            final(self).bits == old(self).bits | bits,
    {
        self.bits = self.bits | bits;
    }

    /// Removes the given flag bits.
    pub fn remove(&mut self, bits: u16)
        ensures
            final(self).bits == old(self).bits & !bits,
    {
        self.bits = self.bits & !bits;
    }

    /// The union of two flag sets.
    pub fn or(&self, other: MaskFlags) -> (r: MaskFlags)
        ensures
            r.bits == self.bits | other.bits,
    {
        MaskFlags { bits: self.bits | other.bits }
    }

    /// The raw bit pattern.
    pub fn bits(&self) -> (r: u16)
        ensures
            r == self.bits,
    {
        self.bits
    }
}

impl Default for MaskFlags {
    fn default() -> (r: Self)
        ensures
            r.bits == 0,
    {
        MaskFlags { bits: 0 }
    }
}

/// The operators of the rule language: arithmetic and logical reductions
/// and comparison relations.
#[derive(Debug, PartialEq, Eq, Copy, Clone, Structural)]
pub enum Operator {
    Noop,
    And,
    Or,
    Xor,
    Not,
    EQ,
    LT,
    GT,
    Add,
    Minus,
    Multiply,
    Divide,
    Modulo,
}

impl Default for Operator {
    fn default() -> (r: Self)
        ensures
            r == Operator::Noop,
    {
        Operator::Noop
    }
}

impl Operator {
    /// The operator an operator character denotes.  `!` maps to `Xor`, a
    /// historical quirk of the rule language that existing databases rely
    /// on.
    pub open spec fn spec_from_byte(b: u8) -> Operator {
        if b == 0x26 {  // &
            Operator::And
        } else if b == 0x7c {  // |
            Operator::Or
        } else if b == 0x5e || b == 0x21 {  // ^ !
            Operator::Xor
        } else if b == 0x2b {  // +
            Operator::Add
        } else if b == 0x2d {  // -
            Operator::Minus
        } else if b == 0x2a {  // *
            Operator::Multiply
        } else if b == 0x2f {  // /
            Operator::Divide
        } else if b == 0x25 {  // %
            Operator::Modulo
        } else if b == 0x3d {  // =
            Operator::EQ
        } else if b == 0x3c {  // <
            Operator::LT
        } else if b == 0x3e {  // >
            Operator::GT
        } else {
            Operator::Noop
        }
    }

    #[verifier::when_used_as_spec(spec_from_byte)]
    pub fn from_byte(b: u8) -> (r: Operator)
        ensures
            r == Operator::spec_from_byte(b),
    {
        match b {
            0x26 => Operator::And,       // &
            0x7c => Operator::Or,        // |
            0x5e => Operator::Xor,       // ^
            0x21 => Operator::Xor,       // ! (historical quirk)
            0x2b => Operator::Add,       // +
            0x2d => Operator::Minus,     // -
            0x2a => Operator::Multiply,  // *
            0x2f => Operator::Divide,    // /
            0x25 => Operator::Modulo,    // %
            0x3d => Operator::EQ,        // =
            0x3c => Operator::LT,        // <
            0x3e => Operator::GT,        // >
            _ => Operator::Noop,
        }
    }
}

/// The three offset interpretations an expression node can apply.
#[derive(Debug, PartialEq, Eq, Copy, Clone, Structural)]
pub enum UnOperator {
    /// The value stands as it is.
    Absolute,
    /// The value is added to the relative-offset context.
    Relative,
    /// The value is an offset at which a typed value is read.
    Indirect(SignValType),
}

/// A mask or relation attached to an expression node.
#[derive(Debug, PartialEq)]
pub enum Action {
    /// An arithmetic reduction with a right-hand expression.
    Num { op: Operator, val: Box<Expression> },
    /// String-comparison flags and a scan range.
    Str { flags: MaskFlags, range: u64 },
}

impl Action {
    /// Replaces the range of a string action; numeric actions are kept.
    pub fn update_range(self, range: u64) -> (r: Action)
        ensures
            match self {
                Action::Str { flags, range: _ } => r == (Action::Str { flags, range }),
                _ => r == self,
            },
    {
        match self {
            Action::Str { flags, range: _ } => Action::Str { flags, range },
            _ => self,
        }
    }

    /// Adds flags to a string action; numeric actions are kept.
    pub fn update_flags(self, new_flags: MaskFlags) -> (r: Action)
        ensures
            match self {
                Action::Str { flags, range } => r == (Action::Str {
                    flags: MaskFlags { bits: flags.bits | new_flags.bits },
                    range,
                }),
                _ => r == self,
            },
    {
        match self {
            Action::Str { flags, range } => Action::Str { flags: flags.or(new_flags), range },
            _ => self,
        }
    }

    /// A string action with no flags and no range.
    pub fn default_str() -> (r: Self)
        ensures
            r == (Action::Str { flags: MaskFlags { bits: 0u16 }, range: 0u64 }),
    {
        Action::Str { flags: MaskFlags::none(), range: 0 }
    }
}

/// An offset or value expression: a literal, or a unary node that applies
/// an offset interpretation and an optional action to an inner expression.
#[derive(Debug, PartialEq)]
pub enum Expression {
    UnOp(UnOperator, Box<Expression>, Option<Action>),
    Val(Value),
}

impl Default for Expression {
    fn default() -> (r: Self)
        ensures
            r == Expression::Val(Value::U64(0u64)),
    {
        Expression::Val(Value::U64(0))
    }
}

impl Expression {
    /// An indirect node; an absent type means the context's default.
    pub fn unop_indir(typ: Option<SignValType>, exp: Box<Expression>, mask: Option<Action>) -> (r:
        Box<Expression>)
        ensures
            match typ {
                Some(t) => r == Box::new(Expression::UnOp(UnOperator::Indirect(t), exp, mask)),
                None => r == Box::new(
                    Expression::UnOp(
                        UnOperator::Indirect(
                            SignValType { unsigned: false, typ: crate::expr_value::ValType::Invalid },
                        ),
                        exp,
                        mask,
                    ),
                ),
            },
    {
        let t = match typ {
            Some(t) => t,
            None => SignValType::default(),
        };
        Box::new(Expression::UnOp(UnOperator::Indirect(t), exp, mask))
    }

    /// A relative node.
    pub fn unop_rel(exp: Box<Expression>, mask: Option<Action>) -> (r: Box<Expression>)
        ensures
            r == Box::new(Expression::UnOp(UnOperator::Relative, exp, mask)),
    {
        Box::new(Expression::UnOp(UnOperator::Relative, exp, mask))
    }

    /// An absolute node.  An absolute node with no mask means the same as
    /// its inner expression, so it collapses to `exp` unchanged.
    pub fn unop_abs(exp: Box<Expression>, mask: Option<Action>) -> (r: Box<Expression>)
        ensures
            mask is None ==> r == exp,
            mask is Some ==> r == Box::new(Expression::UnOp(UnOperator::Absolute, exp, mask)),
    {
        if mask.is_none() {
            exp
        } else {
            Box::new(Expression::UnOp(UnOperator::Absolute, exp, mask))
        }
    }

    /// A literal value.
    pub fn val(v: Value) -> (r: Box<Expression>)
        ensures
            r == Box::new(Expression::Val(v)),
    {
        Box::new(Expression::Val(v))
    }
}

} // verus!
