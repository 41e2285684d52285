//! The recursive-descent parser that turns one rule-line text into a
//! `MagicLine`.
//!
//! The grammar, per line:
//!
//! ```text
//! line     := cont offset WS type mask? WS relation WS? desc ('|' typecode)?
//! cont     := '>'*
//! offset   := offset_atom (val_op value)?
//! offset_atom := '(' offset_atom ofs_type? ofs_action? ')' | '&' offset_atom | value
//! ```
//!
//! Each component parser carries its own exact contract; `parse_line`
//! states how the components assemble.

use vstd::prelude::*;

use crate::expr::{
    Action, Expression, MaskFlags, Operator, UnOperator, FLAG_PSTRING_LEN,
    FLAG_PSTRING_LENGTH_INCLUDES_ITSELF,
};
use crate::expr_value::{SignValType, ValType, Value};
use crate::magic_line::MagicLine;
use crate::str_utils::{
    dec_val, hex_digit_val, hex_val, is_blank, is_digit, is_hex_digit, read_dec, read_hex,
    scan_digits, scan_hex_digits, skip_blanks,
};

verus! {

/// Clamps `x` into `[lo, hi]`, falling back to `lo`.  The recursive parser
/// model applies it to recursion cursors so its definitions are well
/// founded on every input; on real parser runs the clamp never fires.
pub open spec fn clampi(lo: int, x: int, hi: int) -> int {
    if lo <= x <= hi {
        x
    } else {
        lo
    }
}

/// The end of the run of hex digits starting at `i`, as a recursive
/// definition.
pub open spec fn spec_scan_h(s: Seq<u8>, i: int) -> int
    decreases s.len() - i
    when 0 <= i <= s.len()
{
    if i < s.len() && is_hex_digit(s[i]) {
        spec_scan_h(s, i + 1)
    } else {
        i
    }
}

pub proof fn lemma_scan_h(s: Seq<u8>, i: int)
    requires
        0 <= i <= s.len(),
    ensures
        i <= spec_scan_h(s, i) <= s.len(),
        forall|m: int| i <= m < spec_scan_h(s, i) ==> is_hex_digit(s[m]),
        spec_scan_h(s, i) < s.len() ==> !is_hex_digit(s[spec_scan_h(s, i)]),
    decreases s.len() - i,
{
    if i < s.len() && is_hex_digit(s[i]) {
        lemma_scan_h(s, i + 1);
    }
}

/// The end of the run of `>` characters starting at `i`.
pub open spec fn spec_scan_gt(s: Seq<u8>, i: int) -> int
    decreases s.len() - i
    when 0 <= i <= s.len()
{
    if i < s.len() && s[i] == 0x3e {
        spec_scan_gt(s, i + 1)
    } else {
        i
    }
}

pub proof fn lemma_scan_gt(s: Seq<u8>, i: int)
    requires
        0 <= i <= s.len(),
    ensures
        i <= spec_scan_gt(s, i) <= s.len(),
        forall|m: int| i <= m < spec_scan_gt(s, i) ==> s[m] == 0x3e,
        spec_scan_gt(s, i) < s.len() ==> s[spec_scan_gt(s, i)] != 0x3e,
    decreases s.len() - i,
{
    if i < s.len() && s[i] == 0x3e {
        lemma_scan_gt(s, i + 1);
    }
}

/// The end of the run of letters and digits starting at `i`.
pub open spec fn spec_scan_alnum(s: Seq<u8>, i: int) -> int
    decreases s.len() - i
    when 0 <= i <= s.len()
{
    if i < s.len() && crate::str_utils::is_alnum(s[i]) {
        spec_scan_alnum(s, i + 1)
    } else {
        i
    }
}

pub proof fn lemma_scan_alnum(s: Seq<u8>, i: int)
    requires
        0 <= i <= s.len(),
    ensures
        i <= spec_scan_alnum(s, i) <= s.len(),
        forall|m: int| i <= m < spec_scan_alnum(s, i) ==> crate::str_utils::is_alnum(s[m]),
        spec_scan_alnum(s, i) < s.len() ==> !crate::str_utils::is_alnum(s[spec_scan_alnum(s, i)]),
    decreases s.len() - i,
{
    if i < s.len() && crate::str_utils::is_alnum(s[i]) {
        lemma_scan_alnum(s, i + 1);
    }
}

/// The sign applied to a parsed magnitude: unsigned literals become
/// `U64`, signed ones `I64`; a magnitude outside the signed range fails.
pub open spec fn spec_digit_fin(signed: bool, neg: bool, u: int, b: int) -> Option<(Value, int)> {
    if !signed {
        Some((Value::U64(u as u64), b))
    } else if neg {
        if u > 0x8000000000000000 {
            None
        } else {
            Some((Value::I64((-u) as i64), b))
        }
    } else {
        if u > 0x7fffffffffffffff {
            None
        } else {
            Some((Value::I64(u as i64), b))
        }
    }
}

/// What `get_digit` returns at cursor `a`: an optional sign, then hex
/// (`0x`) or decimal digits, read maximally; the value and the cursor
/// past the digits.  `None` when no digit follows or the value does not
/// fit.
pub open spec fn spec_get_digit(s: Seq<u8>, a: int) -> Option<(Value, int)> {
    let signed = a < s.len() && (s[a] == 0x2b || s[a] == 0x2d);
    let neg = a < s.len() && s[a] == 0x2d;
    let p = if signed {
        a + 1
    } else {
        a
    };
    if s.len() > 2 && p < s.len() - 2 && s[p] == 0x30 && s[p + 1] == 0x78 && is_hex_digit(
        s[p + 2],
    ) {
        let b = clampi(p + 2, spec_scan_h(s, p + 2), s.len() as int);
        if hex_val(s.subrange(p + 2, b)) > u64::MAX {
            None
        } else {
            spec_digit_fin(signed, neg, hex_val(s.subrange(p + 2, b)), b)
        }
    } else {
        let b = clampi(p, spec_scan_d(s, p), s.len() as int);
        if b == p {
            None
        } else if dec_val(s.subrange(p, b)) > u64::MAX {
            None
        } else {
            spec_digit_fin(signed, neg, dec_val(s.subrange(p, b)), b)
        }
    }
}

/// What `parse_ofs_typ` returns at cursor `a`: `.` or `,` followed by a
/// known one-character type code.
pub open spec fn spec_parse_ofs_typ(s: Seq<u8>, a: int) -> Option<(SignValType, int)> {
    if a < s.len() && (s[a] == 0x2e || s[a] == 0x2c) && a + 1 < s.len()
        && ValType::spec_from_char(s[a + 1]) != ValType::Invalid {
        Some(
            (
                SignValType { unsigned: s[a] == 0x2e, typ: ValType::spec_from_char(s[a + 1]) },
                a + 2,
            ),
        )
    } else {
        None
    }
}

/// What `parse_ofs_atom` returns at cursor `a`: a parenthesized indirect
/// offset with optional type and action, a `&`-relative offset, or a
/// numeric literal.
pub open spec fn spec_parse_atom(s: Seq<u8>, a: int) -> Option<(Box<Expression>, int)>
    decreases s.len() - a, 0int
    when 0 <= a <= s.len()
{
    if a < s.len() && s[a] == 0x28 {
        match spec_parse_atom(s, a + 1) {
            None => None,
            Some((e, i1r)) => {
                let i1 = clampi(a + 1, i1r, s.len() as int);
                let (typ, i2) = match spec_parse_ofs_typ(s, i1) {
                    Some((t, j)) => (Some(t), clampi(a + 1, j, s.len() as int)),
                    None => (None, i1),
                };
                let (act, i3) = if i2 < s.len() && is_val_op_char(s[i2]) {
                    match spec_parse_ofst(s, clampi(a + 1, i2 + 1, s.len() as int)) {
                        Some((ve, j)) => (
                            Some(
                                Box::new(
                                    Action::Num { op: Operator::spec_from_byte(s[i2]), val: ve },
                                ),
                            ),
                            clampi(a + 1, j, s.len() as int),
                        ),
                        None => (None, i2),
                    }
                } else {
                    (None, i2)
                };
                if i3 < s.len() && s[i3] == 0x29 {
                    let t2 = match typ {
                        Some(t) => t,
                        None => SignValType { unsigned: false, typ: ValType::Invalid },
                    };
                    let actv = match act {
                        Some(bx) => Some(*bx),
                        None => None,
                    };
                    Some(
                        (
                            Box::new(Expression::UnOp(UnOperator::Indirect(t2), e, actv)),
                            i3 + 1,
                        ),
                    )
                } else {
                    None
                }
            },
        }
    } else if a < s.len() && s[a] == 0x26 {
        match spec_parse_atom(s, a + 1) {
            None => None,
            Some((e, i1)) => Some(
                (Box::new(Expression::UnOp(UnOperator::Relative, e, None)), i1),
            ),
        }
    } else {
        match spec_get_digit(s, a) {
            None => None,
            Some((v, b)) => Some((Box::new(Expression::Val(v)), b)),
        }
    }
}

/// What `parse_ofst` returns at cursor `a`: an atom, optionally reduced
/// with an operator and a literal carrying an ignored type suffix.
pub open spec fn spec_parse_ofst(s: Seq<u8>, a: int) -> Option<(Box<Expression>, int)>
    decreases s.len() - a, 1int
    when 0 <= a <= s.len()
{
    match spec_parse_atom(s, a) {
        None => None,
        Some((e, i1r)) => {
            let i1 = clampi(a, i1r, s.len() as int);
            if i1 < s.len() && is_val_op_char(s[i1]) {
                match spec_get_digit(s, i1 + 1) {
                    Some((v, b)) => {
                        let b1 = if b < s.len() && s[b] == 0x75 {
                            b + 1
                        } else {
                            b
                        };
                        let b2 = if b1 < s.len() && (s[b1] == 0x6c || s[b1] == 0x68 || s[b1]
                            == 0x73 || s[b1] == 0x62 || s[b1] == 0x63) {
                            b1 + 1
                        } else {
                            b1
                        };
                        Some(
                            (
                                Box::new(
                                    Expression::UnOp(
                                        UnOperator::Absolute,
                                        e,
                                        Some(
                                            Action::Num {
                                                op: Operator::spec_from_byte(s[i1]),
                                                val: Box::new(Expression::Val(v)),
                                            },
                                        ),
                                    ),
                                ),
                                b2,
                            ),
                        )
                    },
                    None => Some((e, i1)),
                }
            } else {
                Some((e, i1))
            }
        },
    }
}

/// What `parse_cmp_typ` returns at cursor `a`: the maximal alphanumeric
/// token (which must not start with a digit) read as a type name, with
/// the `u` prefix selecting the unsigned reading when the rest names a
/// type on its own.
pub open spec fn spec_parse_cmp_typ(s: Seq<u8>, a: int) -> Option<(SignValType, int)> {
    if a >= s.len() || is_digit(s[a]) {
        None
    } else {
        let b = clampi(a, spec_scan_alnum(s, a), s.len() as int);
        if b == a {
            None
        } else {
            let t = MagicLine::spec_sign_typ(s.subrange(a, b));
            if t.typ == ValType::Invalid {
                None
            } else {
                Some((t, b))
            }
        }
    }
}

/// What `parse_mask` returns at cursor `a` for comparison type `t`:
/// for string types, `/` followed by the flag-and-range body; for
/// numeric types, an operator character and a literal with an ignored
/// type suffix.  `None` when the mask is absent or malformed.
pub open spec fn spec_parse_mask(s: Seq<u8>, a: int, t: SignValType) -> Option<(Action, int)> {
    if t.typ.spec_is_string() {
        if a < s.len() && s[a] == 0x2f {
            match spec_str_mask(s, a + 1, 0, 0, false) {
                Some((fl, rng, e)) => Some(
                    (Action::Str { flags: MaskFlags { bits: fl }, range: rng }, e),
                ),
                None => None,
            }
        } else {
            None
        }
    } else {
        if a < s.len() && is_val_op_char(s[a]) {
            match spec_get_digit(s, a + 1) {
                Some((v, b)) => {
                    let b1 = if b < s.len() && s[b] == 0x75 {
                        b + 1
                    } else {
                        b
                    };
                    let b2 = if b1 < s.len() && (s[b1] == 0x6c || s[b1] == 0x68 || s[b1] == 0x73
                        || s[b1] == 0x62 || s[b1] == 0x63) {
                        b1 + 1
                    } else {
                        b1
                    };
                    Some(
                        (
                            Action::Num {
                                op: Operator::spec_from_byte(s[a]),
                                val: Box::new(Expression::Val(v)),
                            },
                            b2,
                        ),
                    )
                },
                None => None,
            }
        } else {
            None
        }
    }
}

impl MagicLine {
    /// Counts the leading `>` characters and sets the continuation depth.
    pub fn parse_cont(&mut self, i: &mut usize, chars: &[u8])
        requires
            *old(i) <= chars@.len(),
        ensures
            *old(i) <= *final(i) <= chars@.len(),
            forall|k: int| *old(i) <= k < *final(i) ==> chars@[k] == 0x3e,
            *final(i) < chars@.len() && *final(i) - *old(i) < 0xffffffff
                ==> chars@[*final(i) as int] != 0x3e,
            final(self).cont_lvl == *final(i) - *old(i),
            final(self).exp == old(self).exp,
            final(self).typ == old(self).typ,
            final(self).desc == old(self).desc,
            final(self).typ_code == old(self).typ_code,
            final(self).aux == old(self).aux,
    {
        let start = *i;
        let mut j = *i;
        while j < chars.len() && chars[j] == 0x3e && j - start < 0xffffffff
            invariant
                start <= j <= chars@.len(),
                forall|k: int| start <= k < j ==> chars@[k] == 0x3e,
                j - start < 0x100000000,
            decreases chars@.len() - j,
        {
            j = j + 1;
        }
        self.cont_lvl = (j - start) as u32;
        *i = j;
    }

    /// Advances past blanks.
    pub fn jump_blank(i: &mut usize, chars: &[u8])
        requires
            *old(i) <= chars@.len(),
        ensures
            *old(i) <= *final(i) <= chars@.len(),
            forall|k: int| *old(i) <= k < *final(i) ==> is_blank(chars@[k]),
            *final(i) < chars@.len() ==> !is_blank(chars@[*final(i) as int]),
    {
        *i = skip_blanks(chars, *i);
    }

    /// Whether the parser treats a byte as a field separator.
    pub fn is_blank(c: u8) -> (r: bool)
        ensures
            r == is_blank(c),
    {
        c == 0x20 || c == 0x09 || c == 0x0d
    }

    /// The operator denoted by the byte at the cursor; the cursor does not
    /// move.  Reading past the end gives `Noop`.
    pub fn get_operator(i: &usize, chars: &[u8]) -> (r: Operator)
        ensures
            r == if *i < chars@.len() {
                Operator::spec_from_byte(chars@[*i as int])
            } else {
                Operator::Noop
            },
    {
        if *i < chars.len() {
            Operator::from_byte(chars[*i])
        } else {
            Operator::Noop
        }
    }

    /// Parses a numeric literal: an optional sign, then hex (`0x`) or
    /// decimal digits.  An unsigned literal becomes `U64`, a signed one
    /// `I64`.  Fails when no digits follow or the value does not fit;
    /// the result and the new cursor are exactly `spec_get_digit`'s.
    pub fn get_digit(i: &mut usize, chars: &[u8]) -> (r: Option<Value>)
        requires
            *old(i) <= chars@.len(),
        ensures
            *old(i) <= *final(i) <= chars@.len(),
            match spec_get_digit(chars@, *old(i) as int) {
                Some((v, b)) => r == Some(v) && *final(i) as int == b,
                None => r is None,
            },
    {
        let a = *i;
        let mut neg = false;
        let mut signed = false;
        let mut p = a;
        if p < chars.len() && (chars[p] == 0x2b || chars[p] == 0x2d) {
            neg = chars[p] == 0x2d;
            signed = true;
            p = p + 1;
        }
        let u: u64;
        if chars.len() > 2 && p < chars.len() - 2 && chars[p] == 0x30 && chars[p + 1] == 0x78
            && ((0x30 <= chars[p + 2] && chars[p + 2] <= 0x39) || (0x41 <= chars[p + 2] && chars[p
            + 2] <= 0x46) || (0x61 <= chars[p + 2] && chars[p + 2] <= 0x66)) {
            let b = scan_hex_digits(chars, p + 2);
            proof {
                lemma_scan_h(chars@, p + 2);
                assert(spec_scan_h(chars@, p + 2) == b as int) by {
                    let f = spec_scan_h(chars@, p + 2);
                    if f < b {
                        assert(is_hex_digit(chars@[f]));
                    }
                    if f > b {
                        assert(is_hex_digit(chars@[b as int]));
                    }
                }
            }
            match read_hex(chars, p + 2, b) {
                None => {
                    *i = b;
                    return None;
                },
                Some(v) => {
                    u = v;
                    *i = b;
                },
            }
        } else {
            let b = scan_digits(chars, p);
            proof {
                lemma_scan_d(chars@, p as int);
                assert(spec_scan_d(chars@, p as int) == b as int) by {
                    let f = spec_scan_d(chars@, p as int);
                    if f < b {
                        assert(is_digit(chars@[f]));
                    }
                    if f > b {
                        assert(is_digit(chars@[b as int]));
                    }
                }
            }
            if b == p {
                return None;
            }
            match read_dec(chars, p, b) {
                None => {
                    *i = b;
                    return None;
                },
                Some(v) => {
                    u = v;
                    *i = b;
                },
            }
        }
        if signed {
            if neg {
                if u > 0x8000000000000000 {
                    return None;
                }
                if u == 0x8000000000000000 {
                    Some(Value::I64(i64::MIN))
                } else {
                    Some(Value::I64(-(u as i64)))
                }
            } else {
                if u > 0x7fffffffffffffff {
                    return None;
                }
                Some(Value::I64(u as i64))
            }
        } else {
            Some(Value::U64(u))
        }
    }
}

/// Whether a byte is an arithmetic or logical operator character usable in
/// offset actions and numeric masks.
pub open spec fn is_val_op_char(c: u8) -> bool {
    c == 0x26 || c == 0x7c || c == 0x5e || c == 0x2b || c == 0x2d || c == 0x2a || c == 0x2f
        || c == 0x25
}

/// Whether a byte is a comparison operator character usable in relations.
pub open spec fn is_cmp_op_char(c: u8) -> bool {
    c == 0x26 || c == 0x5e || c == 0x3d || c == 0x3c || c == 0x3e || c == 0x21
}

fn is_val_op_byte(c: u8) -> (r: bool)
    ensures
        r == is_val_op_char(c),
{
    c == 0x26 || c == 0x7c || c == 0x5e || c == 0x2b || c == 0x2d || c == 0x2a || c == 0x2f
        || c == 0x25
}

fn is_cmp_op_byte(c: u8) -> (r: bool)
    ensures
        r == is_cmp_op_char(c),
{
    c == 0x26 || c == 0x5e || c == 0x3d || c == 0x3c || c == 0x3e || c == 0x21
}

impl MagicLine {
    /// Parses an offset expression: an atom, optionally reduced with an
    /// operator and a literal.
    pub fn parse_ofst(i: &mut usize, chars: &[u8]) -> (r: Option<Box<Expression>>)
        requires
            *old(i) <= chars@.len(),
        ensures
            *old(i) <= *final(i) <= chars@.len(),
            match spec_parse_ofst(chars@, *old(i) as int) {
                Some((e, b)) => r == Some(e) && *final(i) as int == b,
                None => r is None,
            },
        decreases chars@.len() - *i, 1int,
    {
        let e = match Self::parse_ofs_atom(i, chars) {
            None => {
                return None;
            },
            Some(e) => e,
        };
        let save = *i;
        if *i < chars.len() && is_val_op_byte(chars[*i]) {
            let op = Operator::from_byte(chars[*i]);
            *i = *i + 1;
            match Self::get_digit(i, chars) {
                Some(v) => {
                    // optional type suffix on the literal, ignored
                    if *i < chars.len() && chars[*i] == 0x75 {
                        *i = *i + 1;
                    }
                    if *i < chars.len() && (chars[*i] == 0x6c || chars[*i] == 0x68
                        || chars[*i] == 0x73 || chars[*i] == 0x62 || chars[*i] == 0x63) {
                        *i = *i + 1;
                    }
                    let act = Action::Num { op, val: Expression::val(v) };
                    return Some(Expression::unop_abs(e, Some(act)));
                },
                None => {
                    *i = save;
                },
            }
        }
        Some(Expression::unop_abs(e, None))
    }

    /// Parses an offset atom: a parenthesized indirect offset, a relative
    /// offset, or a numeric literal.
    fn parse_ofs_atom(i: &mut usize, chars: &[u8]) -> (r: Option<Box<Expression>>)
        requires
            *old(i) <= chars@.len(),
        ensures
            *old(i) <= *final(i) <= chars@.len(),
            match spec_parse_atom(chars@, *old(i) as int) {
                Some((e, b)) => r == Some(e) && *final(i) as int == b,
                None => r is None,
            },
        decreases chars@.len() - *i, 0int,
    {
        if *i < chars.len() && chars[*i] == 0x28 {  // (
            *i = *i + 1;
            let e = match Self::parse_ofs_atom(i, chars) {
                None => {
                    return None;
                },
                Some(e) => e,
            };
            let typ = Self::parse_ofs_typ(i, chars);
            let save = *i;
            let act = if *i < chars.len() && is_val_op_byte(chars[*i]) {
                match Self::parse_ofs_act(i, chars) {
                    Some(a) => Some(a),
                    None => {
                        *i = save;
                        None
                    },
                }
            } else {
                None
            };
            if *i < chars.len() && chars[*i] == 0x29 {  // )
                *i = *i + 1;
                Some(Expression::unop_indir(typ, e, act))
            } else {
                None
            }
        } else if *i < chars.len() && chars[*i] == 0x26 {  // &
            *i = *i + 1;
            match Self::parse_ofs_atom(i, chars) {
                None => None,
                Some(e) => Some(Expression::unop_rel(e, None)),
            }
        } else {
            match Self::get_digit(i, chars) {
                None => None,
                Some(v) => Some(Expression::val(v)),
            }
        }
    }

    /// Parses the type annotation of an indirect offset: `.` or `,`
    /// followed by a one-character type code.  Does not move the cursor
    /// when absent or unknown.
    pub fn parse_ofs_typ(i: &mut usize, chars: &[u8]) -> (r: Option<SignValType>)
        requires
            *old(i) <= chars@.len(),
        ensures
            *old(i) <= *final(i) <= chars@.len(),
            match spec_parse_ofs_typ(chars@, *old(i) as int) {
                Some((t, b)) => r == Some(t) && *final(i) as int == b,
                None => r is None && *final(i) == *old(i),
            },
    {
        if *i < chars.len() && (chars[*i] == 0x2e || chars[*i] == 0x2c) {
            if *i + 1 < chars.len() {
                let t = ValType::from_char(chars[*i + 1]);
                if t == ValType::Invalid {
                    return None;
                }
                let unsigned = chars[*i] == 0x2e;
                *i = *i + 2;
                return Some(SignValType { unsigned, typ: t });
            }
        }
        None
    }

    /// Parses the action of an indirect offset: an operator and a
    /// right-hand offset expression.
    fn parse_ofs_act(i: &mut usize, chars: &[u8]) -> (r: Option<Action>)
        requires
            *old(i) < chars@.len(),
            is_val_op_char(chars@[*old(i) as int]),
        ensures
            *old(i) <= *final(i) <= chars@.len(),
            match spec_parse_ofst(chars@, *old(i) + 1) {
                Some((ve, b)) => r == Some(
                    Action::Num {
                        op: Operator::spec_from_byte(chars@[*old(i) as int]),
                        val: ve,
                    },
                ) && *final(i) as int == b,
                None => r is None,
            },
        decreases chars@.len() - *i, 2int,
    {
        let op = Operator::from_byte(chars[*i]);
        *i = *i + 1;
        match Self::parse_ofst(i, chars) {
            None => None,
            Some(val) => Some(Action::Num { op, val }),
        }
    }

    /// The signedness and type a comparison-type token denotes: a `u`
    /// prefix selects the unsigned reading when the rest of the token is a
    /// known type on its own.
    pub open spec fn spec_sign_typ(tok: Seq<u8>) -> SignValType {
        if tok.len() >= 2 && tok[0] == 0x75 && ValType::spec_lookup(
            tok.subrange(1, tok.len() as int),
        ) != ValType::Invalid {
            SignValType {
                unsigned: true,
                typ: ValType::spec_lookup(tok.subrange(1, tok.len() as int)),
            }
        } else {
            SignValType { unsigned: false, typ: ValType::spec_lookup(tok) }
        }
    }

    /// Parses the comparison-type token of a rule line.  Fails when the
    /// token is empty, starts with a digit, or names no known type; the
    /// result and the new cursor are exactly `spec_parse_cmp_typ`'s.
    pub fn parse_cmp_typ(i: &mut usize, chars: &[u8]) -> (r: Option<SignValType>)
        requires
            *old(i) <= chars@.len(),
        ensures
            *old(i) <= *final(i) <= chars@.len(),
            match spec_parse_cmp_typ(chars@, *old(i) as int) {
                Some((t, b)) => r == Some(t) && *final(i) as int == b,
                None => r is None,
            },
    {
        let a = *i;
        if a >= chars.len() {
            return None;
        }
        let c0 = chars[a];
        if 0x30 <= c0 && c0 <= 0x39 {
            return None;
        }
        let mut b = a;
        while b < chars.len() && ((0x30 <= chars[b] && chars[b] <= 0x39) || (0x41 <= chars[b]
            && chars[b] <= 0x5a) || (0x61 <= chars[b] && chars[b] <= 0x7a))
            invariant
                a <= b <= chars@.len(),
                forall|m: int| a <= m < b ==> crate::str_utils::is_alnum(chars@[m]),
            decreases chars@.len() - b,
        {
            b = b + 1;
        }
        proof {
            lemma_scan_alnum(chars@, a as int);
            assert(spec_scan_alnum(chars@, a as int) == b as int) by {
                let f = spec_scan_alnum(chars@, a as int);
                if f < b {
                    assert(crate::str_utils::is_alnum(chars@[f]));
                }
                if f > b {
                    assert(crate::str_utils::is_alnum(chars@[b as int]));
                }
            }
        }
        if b == a {
            return None;
        }
        let tok = &chars[a..b];
        let t: SignValType;
        if tok.len() >= 2 && tok[0] == 0x75 {
            let t1 = ValType::lookup(&tok[1..tok.len()]);
            if t1 != ValType::Invalid {
                proof {
                    assert(chars@.subrange(a as int, b as int).subrange(
                        1,
                        chars@.subrange(a as int, b as int).len() as int,
                    ) =~= chars@.subrange(a + 1, b as int));
                }
                t = SignValType { unsigned: true, typ: t1 };
                *i = b;
                return Some(t);
            }
        }
        let t2 = ValType::lookup(tok);
        if t2 == ValType::Invalid {
            return None;
        }
        proof {
            if chars@.subrange(a as int, b as int).len() >= 2 && chars@.subrange(
                a as int,
                b as int,
            )[0] == 0x75 {
                assert(chars@.subrange(a as int, b as int).subrange(
                    1,
                    chars@.subrange(a as int, b as int).len() as int,
                ) =~= chars@.subrange(a + 1, b as int));
            }
        }
        t = SignValType { unsigned: false, typ: t2 };
        *i = b;
        Some(t)
    }
}

/// The end of the run of decimal digits starting at `i`, as a recursive
/// definition.
pub open spec fn spec_scan_d(s: Seq<u8>, i: int) -> int
    decreases s.len() - i
    when 0 <= i <= s.len()
{
    if i < s.len() && is_digit(s[i]) {
        spec_scan_d(s, i + 1)
    } else {
        i
    }
}

pub proof fn lemma_scan_d(s: Seq<u8>, i: int)
    requires
        0 <= i <= s.len(),
    ensures
        i <= spec_scan_d(s, i) <= s.len(),
        forall|m: int| i <= m < spec_scan_d(s, i) ==> is_digit(s[m]),
        spec_scan_d(s, i) < s.len() ==> !is_digit(s[spec_scan_d(s, i)]),
    decreases s.len() - i,
{
    if i < s.len() && is_digit(s[i]) {
        lemma_scan_d(s, i + 1);
    }
}

/// The effect of a string-mask body on the accumulated flags and range,
/// starting at `i` with state `(fl, rng, have)`: a digit run is a range
/// (the first one wins), a character of the modifier table is a flag, and
/// `/` separates tokens.  Setting a Pascal-string length flag other than
/// `J` first clears the other length flags.  The result also carries the
/// position where the mask body ends; a range beyond `u64` is malformed.
pub open spec fn spec_str_mask(s: Seq<u8>, i: int, fl: u16, rng: u64, have: bool) -> Option<
    (u16, u64, int),
>
    decreases s.len() - i
    when 0 <= i <= s.len()
{
    if i >= s.len() {
        Some((fl, rng, i))
    } else if s[i] == 0x2f {
        spec_str_mask(s, i + 1, fl, rng, have)
    } else if is_digit(s[i]) {
        let e0 = spec_scan_d(s, i);
        let e = if i < e0 <= s.len() {
            e0
        } else {
            i + 1
        };
        if dec_val(s.subrange(i, e)) > u64::MAX {
            None
        } else {
            spec_str_mask(
                s,
                e,
                fl,
                if have {
                    rng
                } else {
                    dec_val(s.subrange(i, e)) as u64
                },
                true,
            )
        }
    } else if MaskFlags::spec_flag_of_char(s[i]) != 0 {
        let f = MaskFlags::spec_flag_of_char(s[i]);
        let fl2 = if f & FLAG_PSTRING_LEN != 0 && f != FLAG_PSTRING_LENGTH_INCLUDES_ITSELF {
            (fl & !FLAG_PSTRING_LEN) | f
        } else {
            fl | f
        };
        spec_str_mask(s, i + 1, fl2, rng, have)
    } else {
        Some((fl, rng, i))
    }
}

/// The control byte an escaped character denotes; other characters stand
/// for themselves.
pub open spec fn esc_char(c: u8) -> u8 {
    if c == 0x74 {  // t
        0x09
    } else if c == 0x30 {  // 0
        0x00
    } else if c == 0x6e {  // n
        0x0a
    } else if c == 0x72 {  // r
        0x0d
    } else if c == 0x76 {  // v
        0x0b
    } else if c == 0x61 {  // a
        0x07
    } else if c == 0x62 {  // b
        0x08
    } else if c == 0x66 {  // f
        0x0c
    } else {
        c
    }
}

pub open spec fn is_oct_digit(c: u8) -> bool {
    0x30 <= c <= 0x37
}

/// The decoded bytes of a string literal starting at `i`, and the position
/// where it ends.  A literal is printable bytes and backslash escapes:
/// `\xHH` (exactly two hex digits), `\ddd` (exactly three octal digits,
/// when the value fits a byte), or `\c` for a control character or the
/// character itself.  It ends at the first unescaped byte outside
/// `0x21..=0x7e`.
pub open spec fn spec_raw_bytes(s: Seq<u8>, i: int) -> (Seq<u8>, int)
    decreases s.len() - i
    when 0 <= i <= s.len()
{
    if i >= s.len() {
        (Seq::<u8>::empty(), i)
    } else {
        let c = s[i];
        if c == 0x5c && i + 1 < s.len() {
            let c1 = s[i + 1];
            if c1 == 0x78 && i + 3 < s.len() && is_hex_digit(s[i + 2]) && is_hex_digit(s[i + 3]) {
                let b = 16 * hex_digit_val(s[i + 2]) + hex_digit_val(s[i + 3]);
                let rest = spec_raw_bytes(s, i + 4);
                (seq![b as u8] + rest.0, rest.1)
            } else if i + 3 < s.len() && is_oct_digit(c1) && is_oct_digit(s[i + 2]) && is_oct_digit(
                s[i + 3],
            ) && 64 * (c1 - 0x30) + 8 * (s[i + 2] - 0x30) + (s[i + 3] - 0x30) <= 255 {
                let b = 64 * (c1 - 0x30) + 8 * (s[i + 2] - 0x30) + (s[i + 3] - 0x30);
                let rest = spec_raw_bytes(s, i + 4);
                (seq![b as u8] + rest.0, rest.1)
            } else {
                let rest = spec_raw_bytes(s, i + 2);
                (seq![esc_char(c1)] + rest.0, rest.1)
            }
        } else if 0x21 <= c <= 0x7e && c != 0x5c {
            let rest = spec_raw_bytes(s, i + 1);
            (seq![c] + rest.0, rest.1)
        } else {
            (Seq::<u8>::empty(), i)
        }
    }
}

impl MagicLine {
    /// Parses the optional mask of a rule line: string flags and range
    /// after `/` for string types, an arithmetic reduction for numeric
    /// types.  The result and the new cursor are exactly
    /// `spec_parse_mask`'s; the cursor does not move when the mask is
    /// absent or malformed.
    pub fn parse_mask(i: &mut usize, chars: &[u8], typ: &SignValType) -> (r: Option<Action>)
        requires
            *old(i) <= chars@.len(),
        ensures
            *old(i) <= *final(i) <= chars@.len(),
            match spec_parse_mask(chars@, *old(i) as int, *typ) {
                Some((act, b)) => r == Some(act) && *final(i) as int == b,
                None => r is None && *final(i) == *old(i),
            },
    {
        let save = *i;
        if typ.typ.is_string() {
            if *i < chars.len() && chars[*i] == 0x2f {
                let start = *i + 1;
                let mut cur = start;
                let mut fl: u16 = 0;
                let mut rng: u64 = 0;
                let mut have = false;
                loop
                    invariant
                        typ.typ.spec_is_string(),
                        *i == *old(i),
                        save == *old(i),
                        *old(i) < chars@.len(),
                        chars@[*old(i) as int] == 0x2f,
                        start == *old(i) + 1,
                        start <= cur <= chars@.len(),
                        spec_str_mask(chars@, start as int, 0, 0, false) == spec_str_mask(
                            chars@,
                            cur as int,
                            fl,
                            rng,
                            have,
                        ),
                    decreases chars@.len() - cur,
                {
                    if cur >= chars.len() {
                        *i = cur;
                        return Some(Action::Str { flags: MaskFlags { bits: fl }, range: rng });
                    }
                    let c = chars[cur];
                    if c == 0x2f {
                        cur = cur + 1;
                    } else if 0x30 <= c && c <= 0x39 {
                        let e = scan_digits(chars, cur);
                        proof {
                            lemma_scan_d(chars@, cur as int);
                            assert(spec_scan_d(chars@, cur as int) == e as int) by {
                                let f = spec_scan_d(chars@, cur as int);
                                if f < e {
                                    assert(is_digit(chars@[f]));
                                }
                                if f > e {
                                    assert(is_digit(chars@[e as int]));
                                }
                            }
                        }
                        match read_dec(chars, cur, e) {
                            None => {
                                *i = save;
                                return None;
                            },
                            Some(v) => {
                                if !have {
                                    rng = v;
                                }
                                have = true;
                                cur = e;
                            },
                        }
                    } else {
                        let f = MaskFlags::from_char(c);
                        if f.bits == 0 {
                            *i = cur;
                            return Some(
                                Action::Str { flags: MaskFlags { bits: fl }, range: rng },
                            );
                        }
                        if f.bits & FLAG_PSTRING_LEN != 0 && f.bits
                            != FLAG_PSTRING_LENGTH_INCLUDES_ITSELF {
                            fl = (fl & !FLAG_PSTRING_LEN) | f.bits;
                        } else {
                            fl = fl | f.bits;
                        }
                        cur = cur + 1;
                    }
                }
            } else {
                None
            }
        } else {
            if *i < chars.len() && is_val_op_byte(chars[*i]) {
                let op = Operator::from_byte(chars[*i]);
                *i = *i + 1;
                match Self::get_digit(i, chars) {
                    None => {
                        *i = save;
                        None
                    },
                    Some(v) => {
                        // optional type suffix on the literal, ignored
                        if *i < chars.len() && chars[*i] == 0x75 {
                            *i = *i + 1;
                        }
                        if *i < chars.len() && (chars[*i] == 0x6c || chars[*i] == 0x68
                            || chars[*i] == 0x73 || chars[*i] == 0x62 || chars[*i] == 0x63) {
                            *i = *i + 1;
                        }
                        let val = Expression::val(v);
                        Some(Action::Num { op, val })
                    },
                }
            } else {
                None
            }
        }
    }

    /// Decodes a string literal at the cursor, leaving the cursor where
    /// the literal ends.
    pub fn parse_raw_bytes(i: &mut usize, chars: &[u8]) -> (r: Vec<u8>)
        requires
            *old(i) <= chars@.len(),
        ensures
            *old(i) <= *final(i) <= chars@.len(),
            (r@, *final(i) as int) == spec_raw_bytes(chars@, *old(i) as int),
    {
        let mut out: Vec<u8> = Vec::new();
        let ghost start = *i as int;
        loop
            invariant
                start == *old(i) as int,
                *old(i) <= *i <= chars@.len(),
                spec_raw_bytes(chars@, start).0 == out@ + spec_raw_bytes(chars@, *i as int).0,
                spec_raw_bytes(chars@, start).1 == spec_raw_bytes(chars@, *i as int).1,
            decreases chars@.len() - *i,
        {
            let cur = *i;
            if cur >= chars.len() {
                proof {
                    assert(spec_raw_bytes(chars@, cur as int).0 =~= Seq::<u8>::empty());
                    assert(out@ =~= out@ + Seq::<u8>::empty());
                }
                return out;
            }
            let c = chars[cur];
            if c == 0x5c && cur + 1 < chars.len() {
                let c1 = chars[cur + 1];
                if c1 == 0x78 && chars.len() > 3 && cur < chars.len() - 3 && ((0x30 <= chars[cur + 2] && chars[cur + 2]
                    <= 0x39) || (0x41 <= chars[cur + 2] && chars[cur + 2] <= 0x46) || (0x61
                    <= chars[cur + 2] && chars[cur + 2] <= 0x66)) && ((0x30 <= chars[cur + 3]
                    && chars[cur + 3] <= 0x39) || (0x41 <= chars[cur + 3] && chars[cur + 3] <= 0x46)
                    || (0x61 <= chars[cur + 3] && chars[cur + 3] <= 0x66)) {
                    let h1 = hex_digit_value(chars[cur + 2]);
                    let h2 = hex_digit_value(chars[cur + 3]);
                    out.push(16 * h1 + h2);
                    *i = cur + 4;
                } else if chars.len() > 3 && cur < chars.len() - 3 && (0x30 <= c1 && c1 <= 0x37) && (0x30 <= chars[cur
                    + 2] && chars[cur + 2] <= 0x37) && (0x30 <= chars[cur + 3] && chars[cur + 3]
                    <= 0x37) && 64 * ((c1 - 0x30) as u16) + 8 * ((chars[cur + 2] - 0x30) as u16) + ((
                chars[cur + 3] - 0x30) as u16) <= 255 {
                    let v: u16 = 64 * ((c1 - 0x30) as u16) + 8 * ((chars[cur + 2] - 0x30) as u16)
                        + ((chars[cur + 3] - 0x30) as u16);
                    out.push(v as u8);
                    *i = cur + 4;
                } else {
                    out.push(esc_byte(c1));
                    *i = cur + 2;
                }
            } else if 0x21 <= c && c <= 0x7e && c != 0x5c {
                out.push(c);
                *i = cur + 1;
            } else {
                proof {
                    assert(spec_raw_bytes(chars@, cur as int).0 =~= Seq::<u8>::empty());
                    assert(out@ =~= out@ + Seq::<u8>::empty());
                }
                return out;
            }
            proof {
                assert(spec_raw_bytes(chars@, cur as int).1 == spec_raw_bytes(
                    chars@,
                    *i as int,
                ).1);
                assert(spec_raw_bytes(chars@, start).0 =~= out@ + spec_raw_bytes(
                    chars@,
                    *i as int,
                ).0);
            }
        }
    }
}

/// The numeric value of a hex digit character.
fn hex_digit_value(c: u8) -> (r: u8)
    requires
        is_hex_digit(c),
    ensures
        r as int == hex_digit_val(c),
{
    if 0x30 <= c && c <= 0x39 {
        c - 0x30
    } else if 0x41 <= c && c <= 0x46 {
        c - 0x41 + 10
    } else {
        c - 0x61 + 10
    }
}

/// The control byte an escaped character denotes.
fn esc_byte(c: u8) -> (r: u8)
    ensures
        r == esc_char(c),
{
    match c {
        0x74 => 0x09,  // t
        0x30 => 0x00,  // 0
        0x6e => 0x0a,  // n
        0x72 => 0x0d,  // r
        0x76 => 0x0b,  // v
        0x61 => 0x07,  // a
        0x62 => 0x08,  // b
        0x66 => 0x0c,  // f
        _ => c,
    }
}

/// The first non-blank position at or after `i`.
pub open spec fn spec_skip_b(s: Seq<u8>, i: int) -> int
    decreases s.len() - i
    when 0 <= i <= s.len()
{
    if i < s.len() && is_blank(s[i]) {
        spec_skip_b(s, i + 1)
    } else {
        i
    }
}

pub proof fn lemma_skip_b(s: Seq<u8>, i: int)
    requires
        0 <= i <= s.len(),
    ensures
        i <= spec_skip_b(s, i) <= s.len(),
        forall|m: int| i <= m < spec_skip_b(s, i) ==> is_blank(s[m]),
        spec_skip_b(s, i) < s.len() ==> !is_blank(s[spec_skip_b(s, i)]),
    decreases s.len() - i,
{
    if i < s.len() && is_blank(s[i]) {
        lemma_skip_b(s, i + 1);
    }
}

/// The position of the first `|` at or after `i`; the end when absent.
pub open spec fn spec_scan_to_pipe(s: Seq<u8>, i: int) -> int
    decreases s.len() - i
    when 0 <= i <= s.len()
{
    if i < s.len() && s[i] != 0x7c {
        spec_scan_to_pipe(s, i + 1)
    } else {
        i
    }
}

pub proof fn lemma_scan_to_pipe(s: Seq<u8>, i: int)
    requires
        0 <= i <= s.len(),
    ensures
        i <= spec_scan_to_pipe(s, i) <= s.len(),
        forall|m: int| i <= m < spec_scan_to_pipe(s, i) ==> s[m] != 0x7c,
        spec_scan_to_pipe(s, i) < s.len() ==> s[spec_scan_to_pipe(s, i)] == 0x7c,
    decreases s.len() - i,
{
    if i < s.len() && s[i] != 0x7c {
        lemma_scan_to_pipe(s, i + 1);
    }
}

/// The whitespace class that may follow the relation wildcard.
pub open spec fn is_peek_ws(c: u8) -> bool {
    c == 0x20 || c == 0x09 || c == 0x0d || c == 0x00
}


/// The relation of a parsed line, at the specification level.
pub enum RelnShape {
    /// The wildcard `x`: no comparison at match time.
    Wildcard,
    /// A numeric comparison against a literal.
    Lit(Operator, Value),
    /// A string comparison against decoded literal bytes.
    Str(Operator, Seq<u8>),
}

/// Everything a well-formed rule line determines.
pub struct LineShape {
    pub cont: u32,
    pub typ: SignValType,
    pub ofs: Box<Expression>,
    pub mask: Option<Action>,
    pub reln: RelnShape,
    pub desc: Seq<u8>,
    pub typ_code: u32,
}

/// What `parse_reln` returns at cursor `a` for comparison type `t`, as a
/// relation shape.
pub open spec fn spec_parse_reln_sh(s: Seq<u8>, a: int, t: SignValType) -> Option<
    (RelnShape, int),
> {
    let wc = a < s.len() && s[a] == 0x78 && (a + 1 == s.len() || is_peek_ws(s[a + 1]));
    let has_op = !wc && a < s.len() && is_cmp_op_char(s[a]);
    let op = if has_op {
        Operator::spec_from_byte(s[a])
    } else {
        Operator::EQ
    };
    let p = if has_op {
        clampi(a, spec_skip_b(s, a + 1), s.len() as int)
    } else {
        clampi(a, spec_skip_b(s, a), s.len() as int)
    };
    if wc {
        Some((RelnShape::Wildcard, a + 1))
    } else if t.typ.spec_is_string() {
        Some((RelnShape::Str(op, spec_raw_bytes(s, p).0), spec_raw_bytes(s, p).1))
    } else {
        match spec_get_digit(s, p) {
            Some((v, b)) => Some((RelnShape::Lit(op, v), b)),
            None => None,
        }
    }
}

/// What `parse_line` determines from a whole line, per the grammar:
/// continuation depth, offset expression, comparison type, optional
/// mask, relation, description (one space prepended unless a backspace
/// sentinel leads), and type code after `|`.  `None` exactly when some
/// component is malformed, a required separator is missing, or input
/// trails after the type code.
pub open spec fn spec_parse_line(s: Seq<u8>) -> Option<LineShape> {
    let c = spec_scan_gt(s, 0);
    if c < 0 || c > 0xffffffff {
        None
    } else {
        let i1 = clampi(c, spec_skip_b(s, c), s.len() as int);
        match spec_parse_ofst(s, i1) {
            None => None,
            Some((ofs, i2r)) => {
                let i2 = clampi(i1, i2r, s.len() as int);
                let i3 = clampi(i2, spec_skip_b(s, i2), s.len() as int);
                if i3 == i2 {
                    None
                } else {
                    match spec_parse_cmp_typ(s, i3) {
                        None => None,
                        Some((typ, i4r)) => {
                            let i4 = clampi(i3, i4r, s.len() as int);
                            let (mask, i5) = match spec_parse_mask(s, i4, typ) {
                                Some((m, j)) => (Some(m), clampi(i4, j, s.len() as int)),
                                None => (None, i4),
                            };
                            let i6 = clampi(i5, spec_skip_b(s, i5), s.len() as int);
                            if i6 == i5 {
                                None
                            } else {
                                match spec_parse_reln_sh(s, i6, typ) {
                                    None => None,
                                    Some((reln, i7r)) => {
                                        let i7 = clampi(i6, i7r, s.len() as int);
                                        let i8 = clampi(i7, spec_skip_b(s, i7), s.len() as int);
                                        spec_line_tail(s, i8, c as u32, typ, ofs, mask, reln)
                                    },
                                }
                            }
                        },
                    }
                }
            },
        }
    }
}

/// The description and type code at the tail of a line, assembled with
/// the already-parsed pieces.
pub open spec fn spec_line_tail(
    s: Seq<u8>,
    i8: int,
    cont: u32,
    typ: SignValType,
    ofs: Box<Expression>,
    mask: Option<Action>,
    reln: RelnShape,
) -> Option<LineShape> {
    let verbatim = (i8 < s.len() && s[i8] == 0x08) || (i8 + 1 < s.len() && s[i8] == 0x5c && s[i8
        + 1] == 0x62);
    let dstart = if i8 < s.len() && s[i8] == 0x08 {
        i8 + 1
    } else if i8 + 1 < s.len() && s[i8] == 0x5c && s[i8 + 1] == 0x62 {
        i8 + 2
    } else {
        i8
    };
    let e = clampi(dstart, spec_scan_to_pipe(s, dstart), s.len() as int);
    let desc = if verbatim {
        s.subrange(dstart, e)
    } else {
        seq![0x20u8] + s.subrange(dstart, e)
    };
    if e < s.len() && s[e] == 0x7c {
        if e + 1 < s.len() {
            match spec_get_digit(s, e + 1) {
                Some((Value::U64(u), b)) => if u > 0xffffffff || b != s.len() {
                    None
                } else {
                    Some(
                        LineShape { cont, typ, ofs, mask, reln, desc, typ_code: u as u32 },
                    )
                },
                _ => None,
            }
        } else {
            Some(LineShape { cont, typ, ofs, mask, reln, desc, typ_code: 0 })
        }
    } else if e == s.len() {
        Some(LineShape { cont, typ, ofs, mask, reln, desc, typ_code: 0 })
    } else {
        None
    }
}

/// Whether a stored expression tree realizes a line shape: the offset
/// wrapped in an indirect node carrying the comparison type and mask,
/// wrapped in an absolute node carrying the relation unless the relation
/// is the wildcard.  The string literal is compared by content.
pub open spec fn line_exp_matches(exp: Box<Expression>, sh: LineShape) -> bool {
    match sh.reln {
        RelnShape::Wildcard => exp == Box::new(
            Expression::UnOp(UnOperator::Indirect(sh.typ), sh.ofs, sh.mask),
        ),
        RelnShape::Lit(op, v) => exp == Box::new(
            Expression::UnOp(
                UnOperator::Absolute,
                Box::new(Expression::UnOp(UnOperator::Indirect(sh.typ), sh.ofs, sh.mask)),
                Some(Action::Num { op, val: Box::new(Expression::Val(v)) }),
            ),
        ),
        RelnShape::Str(op, lit) => (*exp) matches Expression::UnOp(
            UnOperator::Absolute,
            inner,
            Some(act),
        ) && *inner == Expression::UnOp(UnOperator::Indirect(sh.typ), sh.ofs, sh.mask) && (act
            matches Action::Num { op: o2, val } && o2 == op && ((*val) matches Expression::Val(v)
            && (v matches Value::Bytes(b) && b@ == lit))),
    }
}


/// Connects `parse_reln`'s result description to the relation-shape
/// model: given a relation successfully parsed at `a` ending at `i7`,
/// the shape model yields the corresponding shape and end.
proof fn lemma_reln_shape(s: Seq<u8>, a: int, t: SignValType, rel: Option<Action>, i7: int)
    requires
        0 <= a <= s.len(),
        ({
            let wc = a < s.len() && s[a] == 0x78 && (a + 1 == s.len() || is_peek_ws(s[a + 1]));
            let has_op = !wc && a < s.len() && is_cmp_op_char(s[a]);
            let op = if has_op {
                Operator::spec_from_byte(s[a])
            } else {
                Operator::EQ
            };
            let p = if has_op {
                spec_skip_b(s, a + 1)
            } else {
                spec_skip_b(s, a)
            };
            if wc {
                rel is None && i7 == a + 1
            } else if t.typ.spec_is_string() {
                (rel matches Some(act) && (act matches Action::Num { op: o2, val } && o2 == op && (
                (*val) matches Expression::Val(v) && (v matches Value::Bytes(bv) && bv@
                    == spec_raw_bytes(s, p).0)))) && i7 == spec_raw_bytes(s, p).1
            } else {
                match spec_get_digit(s, p) {
                    Some((v, b)) => rel == Some(
                        Action::Num { op, val: Box::new(Expression::Val(v)) },
                    ) && i7 == b,
                    None => false,
                }
            }
        }),
    ensures
        spec_parse_reln_sh(s, a, t) matches Some((sh, e)) && e == i7 && match sh {
            RelnShape::Wildcard => rel is None,
            RelnShape::Lit(op, v) => rel == Some(
                Action::Num { op, val: Box::new(Expression::Val(v)) },
            ),
            RelnShape::Str(op, lit) => rel matches Some(act) && (act matches Action::Num {
                op: o2,
                val,
            } && o2 == op && ((*val) matches Expression::Val(v) && (v matches Value::Bytes(bv)
                && bv@ == lit))),
        },
{
    let wc = a < s.len() && s[a] == 0x78 && (a + 1 == s.len() || is_peek_ws(s[a + 1]));
    let has_op = !wc && a < s.len() && is_cmp_op_char(s[a]);
    if has_op {
        lemma_skip_b(s, a + 1);
        assert(clampi(a, spec_skip_b(s, a + 1), s.len() as int) == spec_skip_b(s, a + 1));
    } else {
        lemma_skip_b(s, a);
        assert(clampi(a, spec_skip_b(s, a), s.len() as int) == spec_skip_b(s, a));
    }
}

impl MagicLine {
    /// Parses the relation of a rule line.  `x` followed by whitespace or
    /// the line end is the wildcard (`Some(None)`); otherwise an optional
    /// comparison operator (`=` when absent), blanks, and a literal: an
    /// escaped byte string for string types (always accepted), a number
    /// for numeric types (the line fails when it is missing or does not
    /// fit).  The result is exactly determined by the input.
    pub fn parse_reln(i: &mut usize, chars: &[u8], typ: &SignValType) -> (r: Option<
        Option<Action>,
    >)
        requires
            *old(i) <= chars@.len(),
        ensures
            *old(i) <= *final(i) <= chars@.len(),
            ({
                let a = *old(i) as int;
                let s = chars@;
                let wc = a < s.len() && s[a] == 0x78 && (a + 1 == s.len() || is_peek_ws(s[a + 1]));
                let has_op = !wc && a < s.len() && is_cmp_op_char(s[a]);
                let op = if has_op {
                    Operator::spec_from_byte(s[a])
                } else {
                    Operator::EQ
                };
                let p = if has_op {
                    spec_skip_b(s, a + 1)
                } else {
                    spec_skip_b(s, a)
                };
                if wc {
                    r matches Some(relopt) && relopt is None && *final(i) == a + 1
                } else if typ.typ.spec_is_string() {
                    r matches Some(relopt) && (relopt matches Some(act) && (act matches
                        Action::Num { op: o2, val } && o2 == op && ((*val) matches Expression::Val(
                        v,
                    ) && (v matches Value::Bytes(bv) && bv@ == spec_raw_bytes(s, p).0))))
                        && (*final(i) as int) == spec_raw_bytes(s, p).1
                } else {
                    match spec_get_digit(s, p) {
                        Some((v, b)) => r matches Some(relopt) && (relopt matches Some(act) && act
                            == (Action::Num { op, val: Box::new(Expression::Val(v)) })) && (
                        *final(i) as int) == b,
                        None => r is None,
                    }
                }
            }),
    {
        let a = *i;
        if a < chars.len() && chars[a] == 0x78 && (a + 1 >= chars.len() || chars[a + 1] == 0x20
            || chars[a + 1] == 0x09 || chars[a + 1] == 0x0d || chars[a + 1] == 0x00) {
            *i = a + 1;
            return Some(None);
        }
        let mut op = Operator::EQ;
        let has = a < chars.len() && is_cmp_op_byte(chars[a]);
        if has {
            op = Operator::from_byte(chars[a]);
            *i = a + 1;
        }
        let before = *i;
        Self::jump_blank(i, chars);
        proof {
            lemma_skip_b(chars@, before as int);
            assert(spec_skip_b(chars@, before as int) == *i as int) by {
                let f = spec_skip_b(chars@, before as int);
                if f < *i {
                    assert(is_blank(chars@[f]));
                }
                if f > *i {
                    assert(is_blank(chars@[*i as int]));
                }
            }
        }
        if typ.typ.is_string() {
            let bv = Self::parse_raw_bytes(i, chars);
            Some(Some(Action::Num { op, val: Expression::val(Value::Bytes(bv)) }))
        } else {
            match Self::get_digit(i, chars) {
                None => None,
                Some(v) => Some(Some(Action::Num { op, val: Expression::val(v) })),
            }
        }
    }

    /// Parses the description: the rest of the line up to `|`.  A leading
    /// backspace sentinel (byte 0x08 or the two characters `\b`) is
    /// consumed and the description kept verbatim; otherwise one space is
    /// prepended.
    pub fn parse_desc(&mut self, i: &mut usize, chars: &[u8])
        requires
            *old(i) <= chars@.len(),
        ensures
            *old(i) <= *final(i) <= chars@.len(),
            final(self).cont_lvl == old(self).cont_lvl,
            final(self).exp == old(self).exp,
            final(self).typ == old(self).typ,
            final(self).typ_code == old(self).typ_code,
            final(self).aux == old(self).aux,
            ({
                let a = *old(i) as int;
                let s = chars@;
                if a < s.len() && s[a] == 0x08 {
                    let e = spec_scan_to_pipe(s, a + 1);
                    final(self).desc@ == s.subrange(a + 1, e) && *final(i) as int == e
                } else if a + 1 < s.len() && s[a] == 0x5c && s[a + 1] == 0x62 {
                    let e = spec_scan_to_pipe(s, a + 2);
                    final(self).desc@ == s.subrange(a + 2, e) && *final(i) as int == e
                } else {
                    let e = spec_scan_to_pipe(s, a);
                    final(self).desc@ == seq![0x20u8] + s.subrange(a, e) && *final(i) as int == e
                }
            }),
    {
        let a = *i;
        let mut verbatim = false;
        let mut p = a;
        if a < chars.len() && chars[a] == 0x08 {
            verbatim = true;
            p = a + 1;
        } else if chars.len() > 1 && a < chars.len() - 1 && chars[a] == 0x5c && chars[a + 1]
            == 0x62 {
            verbatim = true;
            p = a + 2;
        }
        let mut e = p;
        while e < chars.len() && chars[e] != 0x7c
            invariant
                p <= e <= chars@.len(),
                forall|m: int| p <= m < e ==> chars@[m] != 0x7c,
            decreases chars@.len() - e,
        {
            e = e + 1;
        }
        proof {
            lemma_scan_to_pipe(chars@, p as int);
            assert(spec_scan_to_pipe(chars@, p as int) == e as int) by {
                let f = spec_scan_to_pipe(chars@, p as int);
                if f < e {
                    assert(chars@[f] != 0x7c);
                }
                if f > e {
                    assert(chars@[e as int] != 0x7c);
                }
            }
        }
        let mut d: Vec<u8> = Vec::new();
        if !verbatim {
            d.push(0x20);
        }
        let mut k = p;
        while k < e
            invariant
                p <= k <= e <= chars@.len(),
                verbatim ==> d@ == chars@.subrange(p as int, k as int),
                !verbatim ==> d@ == seq![0x20u8] + chars@.subrange(p as int, k as int),
            decreases e - k,
        {
            d.push(chars[k]);
            proof {
                if verbatim {
                    assert(d@ =~= chars@.subrange(p as int, k + 1));
                } else {
                    assert(d@ =~= seq![0x20u8] + chars@.subrange(p as int, k + 1));
                }
            }
            k = k + 1;
        }
        self.desc = d;
        *i = e;
    }

    /// Parses one rule line.  The result is exactly `spec_parse_line`'s:
    /// the line yields a parse with the determined continuation depth,
    /// comparison type, expression tree, description and type code
    /// precisely when the grammar accepts it.
    #[verifier::rlimit(100)]
    pub fn parse_line(line: &[u8]) -> (r: Option<MagicLine>)
        ensures
            match spec_parse_line(line@) {
                None => r is None,
                Some(sh) => r matches Some(ml) && ml.cont_lvl == sh.cont && ml.typ == sh.typ
                    && ml.typ_code == sh.typ_code && ml.desc@ == sh.desc && ml.aux is None
                    && line_exp_matches(ml.exp, sh),
            },
    {
        let ghost s = line@;
        let mut ml = MagicLine::default();
        // continuation depth: the run of leading `>`
        let mut c: usize = 0;
        while c < line.len() && line[c] == 0x3e
            invariant
                c <= line@.len(),
                forall|k: int| 0 <= k < c ==> line@[k] == 0x3e,
            decreases line@.len() - c,
        {
            c = c + 1;
        }
        proof {
            lemma_scan_gt(s, 0);
            assert(spec_scan_gt(s, 0) == c as int) by {
                let f = spec_scan_gt(s, 0);
                if f < c {
                    assert(s[f] != 0x3e);
                    assert(s[f] == 0x3e);
                }
                if f > c {
                    assert(s[c as int] == 0x3e);
                }
            }
        }
        if c > 0xffffffff {
            return None;
        }
        ml.cont_lvl = c as u32;
        let mut i: usize = c;
        Self::jump_blank(&mut i, line);
        proof {
            lemma_skip_b(s, c as int);
            assert(spec_skip_b(s, c as int) == i as int) by {
                let f = spec_skip_b(s, c as int);
                if f < i {
                    assert(is_blank(s[f]));
                }
                if f > i {
                    assert(is_blank(s[i as int]));
                }
            }
        }
        let ghost i1 = i as int;
        let ofs = match Self::parse_ofst(&mut i, line) {
            None => {
                return None;
            },
            Some(e) => e,
        };
        let ghost i2 = i as int;
        let j = i;
        Self::jump_blank(&mut i, line);
        proof {
            lemma_skip_b(s, j as int);
            assert(spec_skip_b(s, j as int) == i as int) by {
                let f = spec_skip_b(s, j as int);
                if f < i {
                    assert(is_blank(s[f]));
                }
                if f > i {
                    assert(is_blank(s[i as int]));
                }
            }
        }
        if i == j {
            return None;
        }
        let ghost i3 = i as int;
        let typ = match Self::parse_cmp_typ(&mut i, line) {
            None => {
                return None;
            },
            Some(t) => t,
        };
        let ghost i4 = i as int;
        let mask = Self::parse_mask(&mut i, line, &typ);
        let ghost i5 = i as int;
        let j2 = i;
        Self::jump_blank(&mut i, line);
        proof {
            lemma_skip_b(s, j2 as int);
            assert(spec_skip_b(s, j2 as int) == i as int) by {
                let f = spec_skip_b(s, j2 as int);
                if f < i {
                    assert(is_blank(s[f]));
                }
                if f > i {
                    assert(is_blank(s[i as int]));
                }
            }
        }
        if i == j2 {
            return None;
        }
        let ghost i6 = i as int;
        let reln = match Self::parse_reln(&mut i, line, &typ) {
            None => {
                proof {
                    assert(spec_parse_reln_sh(s, i6, typ) is None);
                }
                return None;
            },
            Some(rel) => rel,
        };
        let ghost i7 = i as int;
        proof {
            lemma_reln_shape(s, i6, typ, reln, i7);
        }
        Self::jump_blank(&mut i, line);
        proof {
            lemma_skip_b(s, i7);
            assert(spec_skip_b(s, i7) == i as int) by {
                let f = spec_skip_b(s, i7);
                if f < i {
                    assert(is_blank(s[f]));
                }
                if f > i {
                    assert(is_blank(s[i as int]));
                }
            }
        }
        ml.parse_desc(&mut i, line);
        let mut typ_code: u32 = 0;
        if i < line.len() && line[i] == 0x7c {
            i = i + 1;
            if i < line.len() {
                match Self::get_digit(&mut i, line) {
                    Some(Value::U64(u)) => {
                        if u > 0xffffffff {
                            return None;
                        }
                        typ_code = u as u32;
                    },
                    _ => {
                        return None;
                    },
                }
            }
        }
        if i != line.len() {
            return None;
        }
        ml.typ = typ;
        ml.exp = Expression::unop_abs(Expression::unop_indir(Some(typ), ofs, mask), reln);
        ml.typ_code = typ_code;
        Some(ml)
    }

    /// Parses one rule line; an alias of `parse_line` for callers that
    /// name the character-cursor scanner.
    pub fn parse_line2(line: &[u8]) -> (r: Option<MagicLine>)
        ensures
            match spec_parse_line(line@) {
                None => r is None,
                Some(sh) => r matches Some(ml) && ml.cont_lvl == sh.cont && ml.typ == sh.typ
                    && ml.typ_code == sh.typ_code && ml.desc@ == sh.desc && ml.aux is None
                    && line_exp_matches(ml.exp, sh),
            },
    {
        Self::parse_line(line)
    }
}

} // verus!
