//! The match engine: evaluates entry trees against a byte buffer,
//! carrying relative and indirect offset context, fetching typed values,
//! and comparing them per the line's relation and modifier flags.

use vstd::prelude::*;

use crate::expr::{
    Action, Expression, Operator, UnOperator, FLAG_COMPACT_OPTIONAL_WHITESPACE,
    FLAG_COMPACT_WHITESPACE, FLAG_IGNORE_LOWERCASE, FLAG_IGNORE_UPPERCASE, FLAG_PSTRING_2_BE,
    FLAG_PSTRING_2_LE, FLAG_PSTRING_4_BE, FLAG_PSTRING_4_LE,
    FLAG_PSTRING_LENGTH_INCLUDES_ITSELF,
};
use crate::expr_value::{be_val, le_val};
use crate::expr_value::{opt_view, SignValType, ValType, Value, ValueView};
use crate::magic_entry::{MagicEntry, tree_wf};
use crate::magic_file::MagicFile;
use crate::magic_line::MagicLine;
use crate::tree::TreeNode;

verus! {

/// One successful line match: where it started and ended in the stream,
/// the value fetched there, and the line's description and type code.
#[derive(Debug)]
pub struct MatchRecord {
    pub matched_start: u64,
    pub matched_end: u64,
    pub fetched_val: Value,
    pub desc: Vec<u8>,
    pub typ_code: u32,
}

/// The offset context of one match invocation.
#[derive(Debug)]
pub struct MatchContext {
    /// The absolute stream offset where this entry's match began.
    pub start: u64,
    /// The value added by `Relative` expressions.
    pub relative_offset: Value,
    /// The offset in effect while an indirect action's right-hand side is
    /// evaluated; saved and restored around that evaluation.
    pub indirect_offset: Value,
    /// The type of untyped indirect reads.
    pub indirect_type: SignValType,
}

impl MatchContext {
    /// A fresh context: relative and indirect offsets start at the given
    /// positions, untyped indirect reads default to `uquad`.
    pub fn new(start: i64, last_offset: i64) -> (r: Self)
        requires
            start >= 0,
        ensures
            r.start == start as u64,
            r.relative_offset == Value::I64(last_offset),
            r.indirect_offset == Value::I64(start),
            r.indirect_type == (SignValType { unsigned: true, typ: ValType::Quad }),
    {
        MatchContext {
            start: start as u64,
            relative_offset: Value::I64(last_offset),
            indirect_offset: Value::I64(start),
            indirect_type: SignValType { unsigned: true, typ: ValType::Quad },
        }
    }
}

/// The signedness and bit width a scalar variant carries.
pub open spec fn spec_kind(v: ValueView) -> (bool, int) {
    match v {
        ValueView::U8(_) => (true, 8),
        ValueView::U16(_) => (true, 16),
        ValueView::U32(_) => (true, 32),
        ValueView::U64(_) => (true, 64),
        ValueView::I8(_) => (false, 8),
        ValueView::I16(_) => (false, 16),
        ValueView::I32(_) => (false, 32),
        ValueView::I64(_) => (false, 64),
        _ => (false, 0),
    }
}

/// The mathematical value of an integer scalar.
pub open spec fn spec_int_val(v: ValueView) -> int {
    match v {
        ValueView::U8(x) => x as int,
        ValueView::U16(x) => x as int,
        ValueView::U32(x) => x as int,
        ValueView::U64(x) => x as int,
        ValueView::I8(x) => x as int,
        ValueView::I16(x) => x as int,
        ValueView::I32(x) => x as int,
        ValueView::I64(x) => x as int,
        _ => 0,
    }
}

/// An integer scalar with the kind of `k` and mathematical value `n`,
/// when `n` fits that kind.
pub open spec fn spec_of_kind(k: (bool, int), n: int) -> Option<ValueView> {
    if k.0 {
        if k.1 == 8 && 0 <= n < 0x100 {
            Some(ValueView::U8(n as u8))
        } else if k.1 == 16 && 0 <= n < 0x10000 {
            Some(ValueView::U16(n as u16))
        } else if k.1 == 32 && 0 <= n < 0x100000000 {
            Some(ValueView::U32(n as u32))
        } else if k.1 == 64 && 0 <= n < 0x10000000000000000 {
            Some(ValueView::U64(n as u64))
        } else {
            None
        }
    } else {
        if k.1 == 8 && -0x80 <= n < 0x80 {
            Some(ValueView::I8(n as i8))
        } else if k.1 == 16 && -0x8000 <= n < 0x8000 {
            Some(ValueView::I16(n as i16))
        } else if k.1 == 32 && -0x80000000 <= n < 0x80000000 {
            Some(ValueView::I32(n as i32))
        } else if k.1 == 64 && -0x8000000000000000 <= n < 0x8000000000000000 {
            Some(ValueView::I64(n as i64))
        } else {
            None
        }
    }
}

/// Truncating division, as the hardware divides.
pub open spec fn spec_trunc_div(a: int, b: int) -> int {
    if (a >= 0) == (b >= 0) {
        abs_of(a) / abs_of(b)
    } else {
        -(abs_of(a) / abs_of(b))
    }
}

/// Truncating remainder: `a - b * trunc_div(a, b)`.
pub open spec fn spec_trunc_rem(a: int, b: int) -> int {
    a - b * spec_trunc_div(a, b)
}

pub open spec fn abs_of(a: int) -> int {
    if a >= 0 {
        a
    } else {
        -a
    }
}

/// An arithmetic or logical reduction of two integer scalars, carried out
/// in the kind of the left operand: the right operand is first cast to
/// that kind.  A result outside the kind's range, a division by zero, and
/// non-integer operands give `None` (treated as a non-match).
pub open spec fn spec_value_arith(op: Operator, l: ValueView, r: ValueView) -> Option<ValueView> {
    if !l.is_int() || !r.is_int() {
        None
    } else {
        let k = spec_kind(l);
        let rv = ValueView::spec_cast_int_to(
            SignValType {
                unsigned: k.0,
                typ: if k.1 == 8 {
                    ValType::Byte
                } else if k.1 == 16 {
                    ValType::Short
                } else if k.1 == 32 {
                    ValType::Long
                } else {
                    ValType::Quad
                },
            },
            r.bits64(),
        );
        let a = spec_int_val(l);
        let b = spec_int_val(rv);
        if op == Operator::Add {
            spec_of_kind(k, a + b)
        } else if op == Operator::Minus {
            spec_of_kind(k, a - b)
        } else if op == Operator::Multiply {
            spec_of_kind(k, a * b)
        } else if op == Operator::Divide {
            if b == 0 {
                None
            } else {
                spec_of_kind(k, spec_trunc_div(a, b))
            }
        } else if op == Operator::Modulo {
            if b == 0 {
                None
            } else {
                spec_of_kind(k, spec_trunc_rem(a, b))
            }
        } else if op == Operator::And {
            Some(
                ValueView::spec_cast_int_to(
                    kind_typ(k),
                    ((l.bits64() as u64) & (rv.bits64() as u64)) as int,
                ),
            )
        } else if op == Operator::Or {
            Some(
                ValueView::spec_cast_int_to(
                    kind_typ(k),
                    ((l.bits64() as u64) | (rv.bits64() as u64)) as int,
                ),
            )
        } else if op == Operator::Xor {
            Some(
                ValueView::spec_cast_int_to(
                    kind_typ(k),
                    ((l.bits64() as u64) ^ (rv.bits64() as u64)) as int,
                ),
            )
        } else {
            None
        }
    }
}

/// A representative type of each kind, used to reuse the cast machinery.
pub open spec fn kind_typ(k: (bool, int)) -> SignValType {
    SignValType {
        unsigned: k.0,
        typ: if k.1 == 8 {
            ValType::Byte
        } else if k.1 == 16 {
            ValType::Short
        } else if k.1 == 32 {
            ValType::Long
        } else {
            ValType::Quad
        },
    }
}

/// Evaluation of an offset expression against the buffer `data`, with
/// relative-offset context `rel` and indirect-offset context `ind`:
///
/// * a literal is its value;
/// * an absolute node applies its numeric action to the inner value, the
///   action's right-hand side seeing the inner value as its indirect base;
/// * a relative node adds the relative offset, in the type of the inner
///   value;
/// * an indirect node reads a typed value from the buffer at the inner
///   value's offset (the context's default type when untyped) and reduces
///   it with its action.
///
/// Reads past the buffer, arithmetic outside the operand's range, and
/// division by zero evaluate to `None`.
pub open spec fn eval_spec(e: Expression, rel: ValueView, ind: ValueView, dflt: SignValType, data: Seq<u8>) -> Option<
    ValueView,
>
    decreases e,
{
    match e {
        Expression::Val(v) => Some(v@),
        Expression::UnOp(uop, inner, act) => match eval_spec(*inner, rel, ind, dflt, data) {
            None => None,
            Some(v) => match uop {
                UnOperator::Absolute => match act {
                    None => Some(v),
                    Some(Action::Num { op, val }) => match eval_spec(*val, rel, v, dflt, data) {
                        None => None,
                        Some(m) => spec_value_arith(op, v, m),
                    },
                    Some(Action::Str { .. }) => Some(v),
                },
                UnOperator::Relative => spec_value_arith(Operator::Add, v, rel),
                UnOperator::Indirect(t) => {
                    let t2 = if t.typ == ValType::Invalid {
                        dflt
                    } else {
                        t
                    };
                    if !v.is_int() || spec_int_val(v) < 0 || spec_int_val(v) > data.len() {
                        None
                    } else {
                        match ValueView::spec_cast_from_bytes_to_num(
                            t2,
                            data.skip(spec_int_val(v)),
                        ) {
                            None => None,
                            Some(fetched) => match act {
                                None => Some(fetched),
                                Some(Action::Num { op, val }) => match eval_spec(
                                    *val,
                                    rel,
                                    v,
                                    dflt,
                                    data,
                                ) {
                                    None => None,
                                    Some(m) => spec_value_arith(op, fetched, m),
                                },
                                Some(Action::Str { .. }) => Some(fetched),
                            },
                        }
                    }
                },
            },
        },
    }
}

/// Casts an integer scalar into the kind of `k`'s representative type.
fn cast_to_kind(unsigned: bool, width: u32, v: &Value) -> (r: Value)
    requires
        v@.is_int(),
        width == 8 || width == 16 || width == 32 || width == 64,
    ensures
        r@ == ValueView::spec_cast_int_to(kind_typ((unsigned, width as int)), v@.bits64()),
{
    let typ = if width == 8 {
        ValType::Byte
    } else if width == 16 {
        ValType::Short
    } else if width == 32 {
        ValType::Long
    } else {
        ValType::Quad
    };
    let t = SignValType { unsigned, typ };
    let r = v.cast_by(&t);
    match r {
        Some(x) => x,
        None => {
            proof {
                assert(false);
            }
            Value::U64(0)
        },
    }
}

/// The kind of an integer scalar.
fn kind_of(v: &Value) -> (r: (bool, u32))
    requires
        v@.is_int(),
    ensures
        spec_kind(v@) == (r.0, r.1 as int),
        r.1 == 8 || r.1 == 16 || r.1 == 32 || r.1 == 64,
{
    match v {
        Value::U8(_) => (true, 8),
        Value::U16(_) => (true, 16),
        Value::U32(_) => (true, 32),
        Value::U64(_) => (true, 64),
        Value::I8(_) => (false, 8),
        Value::I16(_) => (false, 16),
        Value::I32(_) => (false, 32),
        Value::I64(_) => (false, 64),
        _ => (false, 8),
    }
}

/// The mathematical value of an integer scalar, as a signed 128-bit
/// number (every kind fits).
fn int_val_i128(v: &Value) -> (r: i128)
    requires
        v@.is_int(),
    ensures
        r as int == spec_int_val(v@),
{
    match v {
        Value::U8(x) => *x as i128,
        Value::U16(x) => *x as i128,
        Value::U32(x) => *x as i128,
        Value::U64(x) => *x as i128,
        Value::I8(x) => *x as i128,
        Value::I16(x) => *x as i128,
        Value::I32(x) => *x as i128,
        Value::I64(x) => *x as i128,
        _ => 0,
    }
}

/// Builds the scalar of kind `(unsigned, width)` holding `n`, when `n`
/// fits.
fn of_kind(unsigned: bool, width: u32, n: i128) -> (r: Option<Value>)
    requires
        width == 8 || width == 16 || width == 32 || width == 64,
    ensures
        opt_view(r) == spec_of_kind((unsigned, width as int), n as int),
{
    if unsigned {
        if n < 0 {
            None
        } else if width == 8 && n < 0x100 {
            Some(Value::U8(n as u8))
        } else if width == 16 && n < 0x10000 {
            Some(Value::U16(n as u16))
        } else if width == 32 && n < 0x100000000 {
            Some(Value::U32(n as u32))
        } else if width == 64 && n < 0x10000000000000000 {
            Some(Value::U64(n as u64))
        } else {
            None
        }
    } else {
        if width == 8 && -0x80 <= n && n < 0x80 {
            Some(Value::I8(n as i8))
        } else if width == 16 && -0x8000 <= n && n < 0x8000 {
            Some(Value::I16(n as i16))
        } else if width == 32 && -0x80000000 <= n && n < 0x80000000 {
            Some(Value::I32(n as i32))
        } else if width == 64 && -0x8000000000000000 <= n && n < 0x8000000000000000 {
            Some(Value::I64(n as i64))
        } else {
            None
        }
    }
}

/// Reduces two integer scalars in the kind of the left one.
pub fn value_arith(op: Operator, l: &Value, r: &Value) -> (res: Option<Value>)
    ensures
        opt_view(res) == spec_value_arith(op, l@, r@),
{
    let lb = match l.bits64() {
        Some(b) => b,
        None => {
            return None;
        },
    };
    if r.bits64().is_none() {
        return None;
    }
    let (unsigned, width) = kind_of(l);
    let rv = cast_to_kind(unsigned, width, r);
    let a = int_val_i128(l);
    let b = int_val_i128(&rv);
    if op == Operator::Add {
        of_kind(unsigned, width, a + b)
    } else if op == Operator::Minus {
        of_kind(unsigned, width, a - b)
    } else if op == Operator::Multiply {
        let am: u128 = if a >= 0 {
            a as u128
        } else {
            (-(a + 1)) as u128 + 1
        };
        let bm: u128 = if b >= 0 {
            b as u128
        } else {
            (-(b + 1)) as u128 + 1
        };
        proof {
            assert(am as int == abs_of(a as int));
            assert(bm as int == abs_of(b as int));
            assert(am * bm < 0x100000000000000000000000000000000) by (nonlinear_arith)
                requires
                    am < 0x10000000000000000,
                    bm < 0x10000000000000000,
            ;
            assert((a as int) * (b as int) == am * bm || (a as int) * (b as int) == -((
            am * bm) as int)) by (nonlinear_arith)
                requires
                    am == abs_of(a as int),
                    bm == abs_of(b as int),
            ;
        }
        let pm = am * bm;
        if pm >= 0x10000000000000000 {
            proof {
                let n = (a as int) * (b as int);
                assert(n >= 0x10000000000000000 || n <= -0x10000000000000000);
                assert(spec_value_arith(op, l@, r@) is None);
            }
            None
        } else {
            let sp: i128 = if (a >= 0) == (b >= 0) {
                pm as i128
            } else {
                -(pm as i128)
            };
            proof {
                assert((a >= 0) == (b >= 0) ==> (a as int) * (b as int) >= 0) by (nonlinear_arith);
                assert(a >= 0 && b < 0 ==> (a as int) * (b as int) <= 0) by (nonlinear_arith);
                assert(a < 0 && b >= 0 ==> (a as int) * (b as int) <= 0) by (nonlinear_arith);
                assert(sp as int == (a as int) * (b as int));
            }
            of_kind(unsigned, width, sp)
        }
    } else if op == Operator::Divide {
        if b == 0 {
            None
        } else {
            of_kind(unsigned, width, trunc_div_i128(a, b))
        }
    } else if op == Operator::Modulo {
        if b == 0 {
            None
        } else {
            let q = trunc_div_i128(a, b);
            proof {
                lemma_trunc_rem_bound(a as int, b as int);
            }
            of_kind(unsigned, width, a - b * q)
        }
    } else if op == Operator::And {
        let rb = rv.bits64().unwrap();
        Some(Value::cast_int_to(
            &SignValType { unsigned, typ: width_typ(width) },
            lb & rb,
        ))
    } else if op == Operator::Or {
        let rb = rv.bits64().unwrap();
        Some(Value::cast_int_to(
            &SignValType { unsigned, typ: width_typ(width) },
            lb | rb,
        ))
    } else if op == Operator::Xor {
        let rb = rv.bits64().unwrap();
        Some(Value::cast_int_to(
            &SignValType { unsigned, typ: width_typ(width) },
            lb ^ rb,
        ))
    } else {
        None
    }
}

fn width_typ(width: u32) -> (r: ValType)
    requires
        width == 8 || width == 16 || width == 32 || width == 64,
    ensures
        r == kind_typ((true, width as int)).typ,
        r == kind_typ((false, width as int)).typ,
{
    if width == 8 {
        ValType::Byte
    } else if width == 16 {
        ValType::Short
    } else if width == 32 {
        ValType::Long
    } else {
        ValType::Quad
    }
}

/// Truncating signed division on values far from the 128-bit bounds.
fn trunc_div_i128(a: i128, b: i128) -> (r: i128)
    requires
        b != 0,
        -0x10000000000000000 < a < 0x10000000000000000,
        -0x10000000000000000 < b < 0x10000000000000000,
    ensures
        r as int == spec_trunc_div(a as int, b as int),
{
    let an: u128 = if a >= 0 {
        a as u128
    } else {
        (-(a + 1)) as u128 + 1
    };
    let bn: u128 = if b >= 0 {
        b as u128
    } else {
        (-(b + 1)) as u128 + 1
    };
    let q = an / bn;
    proof {
        assert(an as int == abs_of(a as int));
        assert(bn as int == abs_of(b as int));
        assert(q as int == abs_of(a as int) / abs_of(b as int));
    }
    if (a >= 0) == (b >= 0) {
        q as i128
    } else {
        -(q as i128)
    }
}

proof fn lemma_trunc_rem_bound(a: int, b: int)
    requires
        b != 0,
        -0x10000000000000000 < a < 0x10000000000000000,
        -0x10000000000000000 < b < 0x10000000000000000,
    ensures
        -0x10000000000000000 < a - b * spec_trunc_div(a, b) < 0x10000000000000000,
        -0x80000000000000000000000000000000 < b * spec_trunc_div(a, b)
            < 0x80000000000000000000000000000000,
{
    let q = spec_trunc_div(a, b);
    let ab = abs_of(a);
    let bb = abs_of(b);
    vstd::arithmetic::div_mod::lemma_fundamental_div_mod(ab, bb);
    assert(ab == bb * (ab / bb) + ab % bb);
    vstd::arithmetic::div_mod::lemma_mod_bound(ab, bb);
    assert(0 <= ab % bb < bb);
    assert(0 <= bb * (ab / bb) <= ab);
    assert(a >= 0 ==> b * q == bb * (ab / bb)) by (nonlinear_arith)
        requires
            b != 0,
            q == (if (a >= 0) == (b >= 0) {
                abs_of(a) / abs_of(b)
            } else {
                -(abs_of(a) / abs_of(b))
            }),
            bb == abs_of(b),
            ab == abs_of(a),
    ;
    assert(a < 0 ==> b * q == -(bb * (ab / bb))) by (nonlinear_arith)
        requires
            b != 0,
            q == (if (a >= 0) == (b >= 0) {
                abs_of(a) / abs_of(b)
            } else {
                -(abs_of(a) / abs_of(b))
            }),
            bb == abs_of(b),
            ab == abs_of(a),
    ;
    if a >= 0 {
        assert(0 <= b * q <= a);
    } else {
        assert(a <= b * q <= 0);
    }
}

/// The first NUL at or after `off`, or the end of the buffer.
pub open spec fn spec_scan_nul(data: Seq<u8>, off: int) -> int
    decreases data.len() - off
    when 0 <= off <= data.len()
{
    if off < data.len() && data[off] != 0 {
        spec_scan_nul(data, off + 1)
    } else {
        off
    }
}

pub proof fn lemma_scan_nul(data: Seq<u8>, off: int)
    requires
        0 <= off <= data.len(),
    ensures
        off <= spec_scan_nul(data, off) <= data.len(),
        forall|m: int| off <= m < spec_scan_nul(data, off) ==> data[m] != 0,
        spec_scan_nul(data, off) < data.len() ==> data[spec_scan_nul(data, off)] == 0,
    decreases data.len() - off,
{
    if off < data.len() && data[off] != 0 {
        lemma_scan_nul(data, off + 1);
    }
}

/// The first window start in `[s, limit]` where the literal matches, and
/// the match end; `None` when no start matches.
pub open spec fn spec_search_from(data: Seq<u8>, lit: Seq<u8>, s: int, limit: int, fl: u16) -> Option<
    (int, int),
>
    decreases limit - s
    when 0 <= s <= limit <= data.len()
{
    match spec_str_eq(lit, 0, data, s, fl) {
        Some(e) => Some((s, e)),
        None => if s < limit {
            spec_search_from(data, lit, s + 1, limit, fl)
        } else {
            None
        },
    }
}

/// The width and byte order of a Pascal-string length prefix, per the
/// modifier flags; one little-endian byte when no length flag is set.
pub open spec fn spec_pstr_prefix(fl: u16) -> (int, bool) {
    if fl & FLAG_PSTRING_2_BE != 0 {
        (2, true)
    } else if fl & FLAG_PSTRING_2_LE != 0 {
        (2, false)
    } else if fl & FLAG_PSTRING_4_BE != 0 {
        (4, true)
    } else if fl & FLAG_PSTRING_4_LE != 0 {
        (4, false)
    } else {
        (1, false)
    }
}

/// The content span of a Pascal string at `off`: the span after the
/// length prefix, whose length the prefix gives (minus the prefix width
/// when the length counts itself).  `None` when the prefix or content
/// would reach past the buffer.
pub open spec fn spec_pstring_span(data: Seq<u8>, off: int, fl: u16) -> Option<(int, int)> {
    let (wp, be) = spec_pstr_prefix(fl);
    if off + wp > data.len() {
        None
    } else {
        let raw = if be {
            be_val(data.subrange(off, off + wp))
        } else {
            le_val(data.subrange(off, off + wp))
        };
        let l = if fl & FLAG_PSTRING_LENGTH_INCLUDES_ITSELF != 0 {
            raw - wp
        } else {
            raw
        };
        if l < 0 || off + wp + l > data.len() {
            None
        } else {
            Some((off + wp, off + wp + l))
        }
    }
}

/// The deconstruction of a stored rule line: its offset expression, mask
/// action and relation action, per the grammar's composition.
pub open spec fn spec_line_parts(line: MagicLine) -> Option<
    (Box<Expression>, Option<Action>, Option<Action>),
> {
    match *line.exp {
        Expression::UnOp(UnOperator::Absolute, inner, Some(a)) => match *inner {
            Expression::UnOp(UnOperator::Indirect(_), ofs, mask) => Some((ofs, mask, Some(a))),
            _ => None,
        },
        Expression::UnOp(UnOperator::Indirect(_), ofs, mask) => Some((ofs, mask, None)),
        _ => None,
    }
}

/// The string-comparison flags and scan range of a line's mask; zero
/// when the mask is absent or numeric.
pub open spec fn spec_str_flags(mask: Option<Action>) -> (u16, u64) {
    match mask {
        Some(Action::Str { flags, range }) => (flags.bits, range),
        _ => (0, 0),
    }
}

/// What matching one line at its computed offset yields: the matched
/// span and the fetched value, or `None` on any failed evaluation,
/// fetch, reduction or comparison.  Numeric lines fetch a typed value,
/// reduce it with the mask and compare per the relation; `string`
/// compares anchored under the flags, `search` scans a window, `pstring`
/// compares after its length prefix, and the 16-bit string types match
/// each literal byte against a code unit.  The remaining string-class
/// types (`regex`, `der` and the control types) are outside the verified
/// engine and never match.
pub open spec fn spec_match_line(line: MagicLine, rel: ValueView, dflt: SignValType, data: Seq<u8>) -> Option<
    (int, int, ValueView),
> {
    match spec_line_parts(line) {
        None => None,
        Some((ofs, mask, reln)) => match eval_spec(*ofs, rel, ValueView::I64(0), dflt, data) {
            None => None,
            Some(offv) => {
                if !offv.is_int() || spec_int_val(offv) < 0 || spec_int_val(offv) > data.len() {
                    None
                } else {
                    let off = spec_int_val(offv);
                    if line.typ.typ.spec_size() is Some {
                        spec_match_num(line, rel, dflt, data, mask, reln, offv, off)
                    } else {
                        spec_match_str(line, rel, dflt, data, mask, reln, off)
                    }
                }
            },
        },
    }
}

/// The numeric half of `spec_match_line`.
pub open spec fn spec_match_num(
    line: MagicLine,
    rel: ValueView,
    dflt: SignValType,
    data: Seq<u8>,
    mask: Option<Action>,
    reln: Option<Action>,
    offv: ValueView,
    off: int,
) -> Option<(int, int, ValueView)> {
    match ValueView::spec_cast_from_bytes_to_num(line.typ, data.skip(off)) {
        None => None,
        Some(f0) => {
            let fetched = match mask {
                Some(Action::Num { op, val }) => match eval_spec(*val, rel, offv, dflt, data) {
                    None => None,
                    Some(m) => spec_value_arith(op, f0, m),
                },
                _ => Some(f0),
            };
            match fetched {
                None => None,
                Some(f) => {
                    if f.spec_size() > data.len() - off {
                        None
                    } else {
                        let w = f.spec_size() as int;
                        match reln {
                            None => Some((off, off + w, f)),
                            Some(Action::Num { op, val }) => match eval_spec(
                                *val,
                                rel,
                                offv,
                                dflt,
                                data,
                            ) {
                                None => None,
                                Some(rv) => match spec_compare_int(op, f, rv) {
                                    Some(true) => Some((off, off + w, f)),
                                    _ => None,
                                },
                            },
                            Some(Action::Str { .. }) => None,
                        }
                    }
                },
            }
        },
    }
}

/// The string half of `spec_match_line`: dispatches per string type.
pub open spec fn spec_match_str(
    line: MagicLine,
    rel: ValueView,
    dflt: SignValType,
    data: Seq<u8>,
    mask: Option<Action>,
    reln: Option<Action>,
    off: int,
) -> Option<(int, int, ValueView)> {
    let t = line.typ.typ;
    let (fl, range) = spec_str_flags(mask);
    if t == ValType::String || t == ValType::Search {
        spec_match_plain(t, fl, range, reln, data, off)
    } else if t == ValType::PString {
        spec_match_pstring(fl, reln, data, off)
    } else if t == ValType::LEString16 || t == ValType::BEString16 {
        spec_match_str16(t == ValType::LEString16, reln, data, off)
    } else {
        None
    }
}

/// Anchored and windowed byte-string matching (`string` and `search`).
pub open spec fn spec_match_plain(
    t: ValType,
    fl: u16,
    range: u64,
    reln: Option<Action>,
    data: Seq<u8>,
    off: int,
) -> Option<(int, int, ValueView)> {
    match reln {
        None => {
            let e = spec_scan_nul(data, off);
            Some((off, e, ValueView::Bytes(data.subrange(off, e))))
        },
        Some(Action::Num { op, val }) => match *val {
            Expression::Val(Value::Bytes(litv)) => {
                let lit = litv@;
                if op == Operator::EQ {
                    if t == ValType::Search {
                        let limit = if range > 0 && range <= data.len() - off {
                            off + range
                        } else {
                            data.len() as int
                        };
                        match spec_search_from(data, lit, off, limit, fl) {
                            Some((s, e)) => Some((s, e, ValueView::Bytes(data.subrange(s, e)))),
                            None => None,
                        }
                    } else {
                        match spec_str_eq(lit, 0, data, off, fl) {
                            Some(e) => Some((off, e, ValueView::Bytes(data.subrange(off, e)))),
                            None => None,
                        }
                    }
                } else if op == Operator::GT || op == Operator::LT {
                    let e = spec_scan_nul(data, off);
                    let fetched = data.subrange(off, e);
                    let hit = if op == Operator::GT {
                        spec_lex_lt(lit, fetched)
                    } else {
                        spec_lex_lt(fetched, lit)
                    };
                    if hit {
                        Some((off, e, ValueView::Bytes(fetched)))
                    } else {
                        None
                    }
                } else {
                    None
                }
            },
            _ => None,
        },
        Some(Action::Str { .. }) => None,
    }
}

/// Pascal-string matching: the length prefix bounds the content.
pub open spec fn spec_match_pstring(fl: u16, reln: Option<Action>, data: Seq<u8>, off: int) -> Option<
    (int, int, ValueView),
> {
    match reln {
        None => match spec_pstring_span(data, off, fl) {
            Some((b, e)) => Some((off, e, ValueView::Bytes(data.subrange(b, e)))),
            None => None,
        },
        Some(Action::Num { op, val }) => match *val {
            Expression::Val(Value::Bytes(litv)) => {
                if op == Operator::EQ {
                    match spec_pstring_span(data, off, fl) {
                        Some((b, e)) => match spec_str_eq(litv@, 0, data.subrange(0, e), b, fl) {
                            Some(e2) => Some((off, e2, ValueView::Bytes(data.subrange(b, e)))),
                            None => None,
                        },
                        None => None,
                    }
                } else {
                    None
                }
            },
            _ => None,
        },
        Some(Action::Str { .. }) => None,
    }
}

/// Whether each literal byte matches one 16-bit code unit at `off`: the
/// byte in the low half of little-endian units and the high half of
/// big-endian units, the other half zero.
pub open spec fn spec_units_match(le: bool, lit: Seq<u8>, data: Seq<u8>, off: int) -> bool {
    forall|u: int|
        0 <= u < lit.len() ==> #[trigger] data[off + 2 * u] == (if le {
            lit[u]
        } else {
            0
        }) && data[off + 2 * u + 1] == (if le {
            0
        } else {
            lit[u]
        })
}

/// 16-bit string matching: each literal byte against one code unit.
pub open spec fn spec_match_str16(le: bool, reln: Option<Action>, data: Seq<u8>, off: int) -> Option<
    (int, int, ValueView),
> {
    match reln {
        Some(Action::Num { op, val }) => match *val {
            Expression::Val(Value::Bytes(litv)) => {
                let lit = litv@;
                if op == Operator::EQ && off + 2 * lit.len() <= data.len() && spec_units_match(
                    le,
                    lit,
                    data,
                    off,
                ) {
                    Some((off, off + 2 * lit.len(), ValueView::Bytes(lit)))
                } else {
                    None
                }
            },
            _ => None,
        },
        _ => None,
    }
}

/// Copies a byte slice into a fresh vector.
fn copy_bytes(s: &[u8]) -> (r: Vec<u8>)
    ensures
        r@ == s@,
{
    let mut v: Vec<u8> = Vec::new();
    let mut k: usize = 0;
    while k < s.len()
        invariant
            k <= s@.len(),
            v@ == s@.subrange(0, k as int),
        decreases s@.len() - k,
    {
        v.push(s[k]);
        proof {
            assert(v@ =~= s@.subrange(0, k + 1));
        }
        k = k + 1;
    }
    proof {
        assert(v@ =~= s@);
    }
    v
}

/// A copy of a value, equal in the model.
fn clone_value(v: &Value) -> (r: Value)
    ensures
        r@ == v@,
{
    match v {
        Value::Bytes(b) => Value::Bytes(copy_bytes(b.as_slice())),
        Value::U8(x) => Value::U8(*x),
        Value::U16(x) => Value::U16(*x),
        Value::U32(x) => Value::U32(*x),
        Value::U64(x) => Value::U64(*x),
        Value::I8(x) => Value::I8(*x),
        Value::I16(x) => Value::I16(*x),
        Value::I32(x) => Value::I32(*x),
        Value::I64(x) => Value::I64(*x),
        Value::F32(x) => Value::F32(*x),
        Value::F64(x) => Value::F64(*x),
    }
}

/// The recursive evaluator behind `Expression::eval`.
fn eval_rec(e: &Expression, rel: &Value, ind: &Value, dflt: SignValType, data: &[u8]) -> (r: Option<
    Value,
>)
    ensures
        opt_view(r) == eval_spec(*e, rel@, ind@, dflt, data@),
    decreases *e,
{
    match e {
        Expression::Val(v) => Some(clone_value(v)),
        Expression::UnOp(uop, inner, act) => {
            let v = match eval_rec(inner, rel, ind, dflt, data) {
                None => {
                    return None;
                },
                Some(v) => v,
            };
            match uop {
                UnOperator::Absolute => match act {
                    None => Some(v),
                    Some(Action::Num { op, val }) => {
                        let m = match eval_rec(val, rel, &v, dflt, data) {
                            None => {
                                return None;
                            },
                            Some(m) => m,
                        };
                        value_arith(*op, &v, &m)
                    },
                    Some(Action::Str { .. }) => Some(v),
                },
                UnOperator::Relative => value_arith(Operator::Add, &v, rel),
                UnOperator::Indirect(t) => {
                    let t2 = if t.typ == ValType::Invalid {
                        dflt
                    } else {
                        *t
                    };
                    if v.bits64().is_none() {
                        return None;
                    }
                    let iv = int_val_i128(&v);
                    if iv < 0 || iv > data.len() as i128 {
                        return None;
                    }
                    let off = iv as usize;
                    proof {
                        assert(data@.subrange(off as int, data@.len() as int) =~= data@.skip(
                            off as int,
                        ));
                    }
                    let fetched = match Value::cast_from_bytes_to_num(
                        &t2,
                        &data[off..data.len()],
                    ) {
                        None => {
                            return None;
                        },
                        Some(f) => f,
                    };
                    match act {
                        None => Some(fetched),
                        Some(Action::Num { op, val }) => {
                            let m = match eval_rec(val, rel, &v, dflt, data) {
                                None => {
                                    return None;
                                },
                                Some(m) => m,
                            };
                            value_arith(*op, &fetched, &m)
                        },
                        Some(Action::Str { .. }) => Some(fetched),
                    }
                },
            }
        },
    }
}

impl Expression {
    /// Evaluates this expression in the given context against `data`.
    pub fn eval(&self, ctx: &MatchContext, data: &[u8]) -> (r: Option<Value>)
        ensures
            opt_view(r) == eval_spec(
                *self,
                ctx.relative_offset@,
                ctx.indirect_offset@,
                ctx.indirect_type,
                data@,
            ),
    {
        eval_rec(self, &ctx.relative_offset, &ctx.indirect_offset, ctx.indirect_type, data)
    }
}

/// The lowercase folding of an ASCII byte.
pub open spec fn spec_lc(c: u8) -> u8 {
    if 0x41 <= c <= 0x5a {
        (c + 0x20) as u8
    } else {
        c
    }
}

/// Whether a literal byte accepts a data byte under the case-folding
/// flags: a lowercase literal accepts both cases under `c`, an uppercase
/// literal accepts both cases under `C`.
pub open spec fn spec_char_matches(cl: u8, cd: u8, fl: u16) -> bool {
    cl == cd || (fl & FLAG_IGNORE_LOWERCASE != 0 && 0x61 <= cl <= 0x7a && spec_lc(cd) == cl) || (fl
        & FLAG_IGNORE_UPPERCASE != 0 && 0x41 <= cl <= 0x5a && cd == cl + 0x20)
}

/// The first position at or after `j` whose byte is not a space.
pub open spec fn spec_skip_sp(data: Seq<u8>, j: int) -> int
    decreases data.len() - j
    when 0 <= j <= data.len()
{
    if j < data.len() && data[j] == 0x20 {
        spec_skip_sp(data, j + 1)
    } else {
        j
    }
}

pub proof fn lemma_skip_sp(data: Seq<u8>, j: int)
    requires
        0 <= j <= data.len(),
    ensures
        j <= spec_skip_sp(data, j) <= data.len(),
    decreases data.len() - j,
{
    if j < data.len() && data[j] == 0x20 {
        lemma_skip_sp(data, j + 1);
    }
}

/// Anchored string equality under modifier flags, starting at `data[j]`:
/// the position just past the match, or `None`.  A space in the literal
/// under `COMPACT_WHITESPACE` eats a run of spaces, and under
/// `COMPACT_OPTIONAL_WHITESPACE` may match no space at all; other literal
/// bytes match one data byte under case folding.
pub open spec fn spec_str_eq(lit: Seq<u8>, li: int, data: Seq<u8>, j: int, fl: u16) -> Option<int>
    decreases lit.len() - li
    when 0 <= li <= lit.len() && 0 <= j <= data.len()
{
    if li >= lit.len() {
        Some(j)
    } else {
        let cl = lit[li];
        if cl == 0x20 && fl & FLAG_COMPACT_WHITESPACE != 0 {
            if j < data.len() && data[j] == 0x20 {
                let j2 = spec_skip_sp(data, j);
                spec_str_eq(lit, li + 1, data, if j <= j2 <= data.len() {
                    j2
                } else {
                    j
                }, fl)
            } else if fl & FLAG_COMPACT_OPTIONAL_WHITESPACE != 0 {
                spec_str_eq(lit, li + 1, data, j, fl)
            } else {
                None
            }
        } else if j < data.len() && spec_char_matches(cl, data[j], fl) {
            spec_str_eq(lit, li + 1, data, j + 1, fl)
        } else {
            None
        }
    }
}

/// Anchored string match at `data[j]` per `spec_str_eq`.
pub fn str_eq_match(lit: &[u8], data: &[u8], j: usize, fl: u16) -> (r: Option<usize>)
    requires
        j <= data@.len(),
    ensures
        match r {
            Some(e) => Some(e as int) == spec_str_eq(lit@, 0, data@, j as int, fl) && j <= e
                <= data@.len(),
            None => spec_str_eq(lit@, 0, data@, j as int, fl) is None,
        },
{
    let mut li: usize = 0;
    let mut dj: usize = j;
    loop
        invariant
            li <= lit@.len(),
            j <= dj <= data@.len(),
            spec_str_eq(lit@, 0, data@, j as int, fl) == spec_str_eq(
                lit@,
                li as int,
                data@,
                dj as int,
                fl,
            ),
        decreases lit@.len() - li,
    {
        if li >= lit.len() {
            return Some(dj);
        }
        let cl = lit[li];
        if cl == 0x20 && fl & FLAG_COMPACT_WHITESPACE != 0 {
            if dj < data.len() && data[dj] == 0x20 {
                let mut j2 = dj;
                while j2 < data.len() && data[j2] == 0x20
                    invariant
                        dj <= j2 <= data@.len(),
                        spec_skip_sp(data@, dj as int) == spec_skip_sp(data@, j2 as int),
                    decreases data@.len() - j2,
                {
                    j2 = j2 + 1;
                }
                proof {
                    lemma_skip_sp(data@, dj as int);
                    assert(spec_skip_sp(data@, j2 as int) == j2);
                }
                li = li + 1;
                dj = j2;
            } else if fl & FLAG_COMPACT_OPTIONAL_WHITESPACE != 0 {
                li = li + 1;
            } else {
                return None;
            }
        } else if dj < data.len() {
            let cd = data[dj];
            let m = cl == cd || (fl & FLAG_IGNORE_LOWERCASE != 0 && 0x61 <= cl && cl <= 0x7a && (
            if 0x41 <= cd && cd <= 0x5a {
                cd + 0x20
            } else {
                cd
            }) == cl) || (fl & FLAG_IGNORE_UPPERCASE != 0 && 0x41 <= cl && cl <= 0x5a && cd == cl
                + 0x20);
            if m {
                li = li + 1;
                dj = dj + 1;
            } else {
                return None;
            }
        } else {
            return None;
        }
    }
}

/// Lexicographic byte-string order.
pub open spec fn spec_lex_lt(a: Seq<u8>, b: Seq<u8>) -> bool
    decreases a.len(),
{
    if b.len() == 0 {
        false
    } else if a.len() == 0 {
        true
    } else if a[0] < b[0] {
        true
    } else if a[0] > b[0] {
        false
    } else {
        spec_lex_lt(a.drop_first(), b.drop_first())
    }
}

/// Lexicographic comparison of two byte strings.
pub fn lex_lt(a: &[u8], b: &[u8]) -> (r: bool)
    ensures
        r == spec_lex_lt(a@, b@),
{
    let mut k: usize = 0;
    proof {
        assert(a@.skip(0) =~= a@);
        assert(b@.skip(0) =~= b@);
    }
    loop
        invariant
            k <= a@.len(),
            k <= b@.len(),
            spec_lex_lt(a@, b@) == spec_lex_lt(a@.skip(k as int), b@.skip(k as int)),
        decreases a@.len() - k,
    {
        proof {
            if k < a@.len() {
                assert(a@.skip(k as int).drop_first() =~= a@.skip(k + 1));
            }
            if k < b@.len() {
                assert(b@.skip(k as int).drop_first() =~= b@.skip(k + 1));
            }
            if k < a@.len() {
                assert(a@.skip(k as int)[0] == a@[k as int]);
            }
            if k < b@.len() {
                assert(b@.skip(k as int)[0] == b@[k as int]);
            }
            assert(a@.skip(k as int).len() == a@.len() - k);
            assert(b@.skip(k as int).len() == b@.len() - k);
        }
        if k >= b.len() {
            return false;
        }
        if k >= a.len() {
            return true;
        }
        if a[k] < b[k] {
            return true;
        }
        if a[k] > b[k] {
            return false;
        }
        k = k + 1;
    }
}

/// An integer comparison per the relation operator: the literal is cast
/// to the fetched value's kind first.  `&` tests that all literal bits
/// are set, `^` that none are.
pub open spec fn spec_compare_int(op: Operator, f: ValueView, r: ValueView) -> Option<bool> {
    if !f.is_int() || !r.is_int() {
        None
    } else {
        let k = spec_kind(f);
        let rv = ValueView::spec_cast_int_to(kind_typ(k), r.bits64());
        let a = spec_int_val(f);
        let b = spec_int_val(rv);
        if op == Operator::EQ {
            Some(a == b)
        } else if op == Operator::LT {
            Some(a < b)
        } else if op == Operator::GT {
            Some(a > b)
        } else if op == Operator::And {
            Some((f.bits64() as u64) & (rv.bits64() as u64) == (rv.bits64() as u64))
        } else if op == Operator::Xor {
            Some((f.bits64() as u64) & (rv.bits64() as u64) == 0)
        } else {
            None
        }
    }
}

/// Compares a fetched integer against a relation literal.
pub fn compare_int(op: Operator, f: &Value, r: &Value) -> (res: Option<bool>)
    ensures
        res == spec_compare_int(op, f@, r@),
{
    if f.bits64().is_none() || r.bits64().is_none() {
        return None;
    }
    let (unsigned, width) = kind_of(f);
    let rv = cast_to_kind(unsigned, width, r);
    let a = int_val_i128(f);
    let b = int_val_i128(&rv);
    if op == Operator::EQ {
        Some(a == b)
    } else if op == Operator::LT {
        Some(a < b)
    } else if op == Operator::GT {
        Some(a > b)
    } else if op == Operator::And {
        let fb = f.bits64().unwrap();
        let rb = rv.bits64().unwrap();
        Some(fb & rb == rb)
    } else if op == Operator::Xor {
        let fb = f.bits64().unwrap();
        let rb = rv.bits64().unwrap();
        Some(fb & rb == 0)
    } else {
        None
    }
}

/// The end of the byte string starting at `off`: the first NUL or the end
/// of the buffer.
fn scan_to_nul(data: &[u8], off: usize) -> (r: usize)
    requires
        off <= data@.len(),
    ensures
        off <= r <= data@.len(),
        forall|m: int| off <= m < r ==> data@[m] != 0,
        r < data@.len() ==> data@[r as int] == 0,
{
    let mut k = off;
    while k < data.len() && data[k] != 0
        invariant
            off <= k <= data@.len(),
            forall|m: int| off <= m < k ==> data@[m] != 0,
        decreases data@.len() - k,
    {
        k = k + 1;
    }
    k
}

/// Scans window starts in `[off, limit]` for an anchored literal match.
fn search_window(lit: &[u8], data: &[u8], off: usize, limit: usize, fl: u16) -> (r: Option<
    (usize, usize),
>)
    requires
        off <= limit <= data@.len(),
    ensures
        match spec_search_from(data@, lit@, off as int, limit as int, fl) {
            Some((s, e)) => r matches Some(p) && p.0 as int == s && p.1 as int == e,
            None => r is None,
        },
        r matches Some(p) ==> off <= p.0 && p.0 <= p.1 <= data@.len(),
{
    let mut s = off;
    loop
        invariant
            off <= s <= limit,
            limit <= data@.len(),
            spec_search_from(data@, lit@, off as int, limit as int, fl) == spec_search_from(
                data@,
                lit@,
                s as int,
                limit as int,
                fl,
            ),
        decreases limit - s,
    {
        match str_eq_match(lit, data, s, fl) {
            Some(e) => {
                return Some((s, e));
            },
            None => {},
        }
        if s == limit {
            return None;
        }
        s = s + 1;
    }
}

/// Whether each literal byte matches one 16-bit code unit at `off`:
/// little-endian units carry the byte low, big-endian units high, the
/// other half zero.
fn utf16_eq(lit: &Vec<u8>, data: &[u8], off: usize, le: bool) -> (r: bool)
    requires
        off + 2 * lit@.len() <= data@.len(),
    ensures
        r == spec_units_match(le, lit@, data@, off as int),
{
    let n = data.len();
    let mut u: usize = 0;
    while u < lit.len()
        invariant
            u <= lit@.len(),
            n == data@.len(),
            off + 2 * lit@.len() <= n,
            forall|m: int|
                0 <= m < u ==> #[trigger] data@[off + 2 * m] == (if le {
                    lit@[m]
                } else {
                    0
                }) && data@[off + 2 * m + 1] == (if le {
                    0
                } else {
                    lit@[m]
                }),
        decreases lit@.len() - u,
    {
        let lo = data[off + 2 * u];
        let hi = data[off + 2 * u + 1];
        let c = lit[u];
        let ok = if le {
            lo == c && hi == 0
        } else {
            lo == 0 && hi == c
        };
        if !ok {
            proof {
                assert(!(data@[off + 2 * (u as int)] == (if le {
                    lit@[u as int]
                } else {
                    0
                }) && data@[off + 2 * (u as int) + 1] == (if le {
                    0
                } else {
                    lit@[u as int]
                })));
            }
            return false;
        }
        u = u + 1;
    }
    true
}

/// The action behind an optional reference.
pub open spec fn opt_act(r: Option<&Action>) -> Option<Action> {
    match r {
        Some(a) => Some(*a),
        None => None,
    }
}

/// Matches one rule line at its computed offset.  The result is exactly
/// `spec_match_line`'s, with the line's description and type code
/// carried on the record.
/// Matches one rule line at its computed offset.  The result is exactly
/// `spec_match_line`'s, with the line's description and type code
/// carried on the record.
pub fn match_line(line: &MagicLine, rel: &Value, dflt: SignValType, data: &[u8]) -> (r: Option<
    MatchRecord,
>)
    ensures
        match spec_match_line(*line, rel@, dflt, data@) {
            None => r is None,
            Some((st, en, fv)) => r matches Some(rec) && rec.matched_start as int == st
                && rec.matched_end as int == en && rec.fetched_val@ == fv && rec.desc@
                == line.desc@ && rec.typ_code == line.typ_code,
        },
{
    let ind0 = Value::I64(0);
    // deconstruct: the relation sits on an absolute node over the
    // indirect node that carries the offset and mask
    let (ind_node, reln): (&Expression, Option<&Action>) = match &*line.exp {
        Expression::UnOp(UnOperator::Absolute, inner, Some(a)) => (&**inner, Some(a)),
        other => (other, None),
    };
    let (ofs_expr, mask_act): (&Expression, &Option<Action>) = match ind_node {
        Expression::UnOp(UnOperator::Indirect(_), ofs, mask) => (&**ofs, mask),
        _ => {
            return None;
        },
    };
    let offv = match eval_rec(ofs_expr, rel, &ind0, dflt, data) {
        None => {
            return None;
        },
        Some(v) => v,
    };
    if offv.bits64().is_none() {
        return None;
    }
    let iv = int_val_i128(&offv);
    if iv < 0 || iv > data.len() as i128 {
        return None;
    }
    let off = iv as usize;
    let is_num = match line.typ.typ.size() {
        Some(_) => true,
        None => false,
    };
    if is_num {
        match_line_num(line, rel, dflt, data, mask_act, reln, &offv, off)
    } else {
        match_line_str(line, data, mask_act, reln, off)
    }
}

/// The numeric half of line matching: fetch, mask reduction, relation.
fn match_line_num(
    line: &MagicLine,
    rel: &Value,
    dflt: SignValType,
    data: &[u8],
    mask_act: &Option<Action>,
    reln: Option<&Action>,
    offv: &Value,
    off: usize,
) -> (r: Option<MatchRecord>)
    requires
        off <= data@.len(),
    ensures
        match spec_match_num(
            *line,
            rel@,
            dflt,
            data@,
            *mask_act,
            opt_act(reln),
            offv@,
            off as int,
        ) {
            None => r is None,
            Some((st, en, fv)) => r matches Some(rec) && rec.matched_start as int == st
                && rec.matched_end as int == en && rec.fetched_val@ == fv && rec.desc@
                == line.desc@ && rec.typ_code == line.typ_code,
        },
{

        proof {
            assert(data@.subrange(off as int, data@.len() as int) =~= data@.skip(off as int));
        }
        let mut fetched = match Value::cast_from_bytes_to_num(&line.typ, &data[off..data.len()]) {
            None => {
                return None;
            },
            Some(f) => f,
        };
        match mask_act {
            Some(Action::Num { op, val }) => {
                let m = match eval_rec(val, rel, &offv, dflt, data) {
                    None => {
                        return None;
                    },
                    Some(m) => m,
                };
                fetched = match value_arith(*op, &fetched, &m) {
                    None => {
                        return None;
                    },
                    Some(f) => f,
                };
            },
            _ => {},
        }
        let w = fetched.size();
        if w > data.len() - off {
            return None;
        }
        match reln {
            None => Some(
                MatchRecord {
                    matched_start: off as u64,
                    matched_end: (off + w) as u64,
                    fetched_val: fetched,
                    desc: copy_bytes(line.desc.as_slice()),
                    typ_code: line.typ_code,
                },
            ),
            Some(Action::Num { op, val }) => {
                let rv = match eval_rec(val, rel, &offv, dflt, data) {
                    None => {
                        return None;
                    },
                    Some(v) => v,
                };
                match compare_int(*op, &fetched, &rv) {
                    Some(true) => Some(
                        MatchRecord {
                            matched_start: off as u64,
                            matched_end: (off + w) as u64,
                            fetched_val: fetched,
                            desc: copy_bytes(line.desc.as_slice()),
                            typ_code: line.typ_code,
                        },
                    ),
                    _ => None,
                }
            },
            Some(Action::Str { .. }) => None,
        }
}

/// The string half of line matching: dispatches per string type.
fn match_line_str(
    line: &MagicLine,
    data: &[u8],
    mask_act: &Option<Action>,
    reln: Option<&Action>,
    off: usize,
) -> (r: Option<MatchRecord>)
    requires
        off <= data@.len(),
    ensures
        ({
            let rel0 = ValueView::I64(0);
            let d0 = SignValType { unsigned: true, typ: ValType::Quad };
            match spec_match_str(*line, rel0, d0, data@, *mask_act, opt_act(reln), off as int) {
                None => r is None,
                Some((st, en, fv)) => r matches Some(rec) && rec.matched_start as int == st
                    && rec.matched_end as int == en && rec.fetched_val@ == fv && rec.desc@
                    == line.desc@ && rec.typ_code == line.typ_code,
            }
        }),
{
    let (flags, range): (u16, u64) = match mask_act {
        Some(Action::Str { flags, range }) => (flags.bits, *range),
        _ => (0, 0),
    };
    if line.typ.typ == ValType::String || line.typ.typ == ValType::Search {
        match_plain(line, data, flags, range, reln, off)
    } else if line.typ.typ == ValType::PString {
        match_pstring(line, data, flags, reln, off)
    } else if line.typ.typ == ValType::LEString16 || line.typ.typ == ValType::BEString16 {
        match_str16(line, data, reln, off)
    } else {
        // regex, der and the control types are outside the verified
        // engine: they never match here
        None
    }
}

/// Anchored and windowed byte-string matching (`string` and `search`).
fn match_plain(
    line: &MagicLine,
    data: &[u8],
    flags: u16,
    range: u64,
    reln: Option<&Action>,
    off: usize,
) -> (r: Option<MatchRecord>)
    requires
        off <= data@.len(),
    ensures
        match spec_match_plain(line.typ.typ, flags, range, opt_act(reln), data@, off as int) {
            None => r is None,
            Some((st, en, fv)) => r matches Some(rec) && rec.matched_start as int == st
                && rec.matched_end as int == en && rec.fetched_val@ == fv && rec.desc@
                == line.desc@ && rec.typ_code == line.typ_code,
        },
{
    match reln {
        None => {
            // wildcard: the string until NUL
            let e = scan_to_nul_eq(data, off);
            Some(
                MatchRecord {
                    matched_start: off as u64,
                    matched_end: e as u64,
                    fetched_val: Value::Bytes(copy_bytes(&data[off..e])),
                    desc: copy_bytes(line.desc.as_slice()),
                    typ_code: line.typ_code,
                },
            )
        },
        Some(Action::Num { op, val }) => {
            let lit: &Vec<u8> = match &**val {
                Expression::Val(Value::Bytes(b)) => b,
                _ => {
                    return None;
                },
            };
            if *op == Operator::EQ {
                if line.typ.typ == ValType::Search {
                    // scan a window of starting positions
                    let limit: usize = if range > 0 && range <= (data.len() - off) as u64 {
                        off + (range as usize)
                    } else {
                        data.len()
                    };
                    match search_window(lit.as_slice(), data, off, limit, flags) {
                        Some(span) => Some(
                            MatchRecord {
                                matched_start: span.0 as u64,
                                matched_end: span.1 as u64,
                                fetched_val: Value::Bytes(copy_bytes(&data[span.0..span.1])),
                                desc: copy_bytes(line.desc.as_slice()),
                                typ_code: line.typ_code,
                            },
                        ),
                        None => None,
                    }
                } else {
                    match str_eq_match(lit.as_slice(), data, off, flags) {
                        Some(e) => Some(
                            MatchRecord {
                                matched_start: off as u64,
                                matched_end: e as u64,
                                fetched_val: Value::Bytes(copy_bytes(&data[off..e])),
                                desc: copy_bytes(line.desc.as_slice()),
                                typ_code: line.typ_code,
                            },
                        ),
                        None => None,
                    }
                }
            } else if *op == Operator::GT || *op == Operator::LT {
                let e = scan_to_nul_eq(data, off);
                let fetched = &data[off..e];
                let hit = if *op == Operator::GT {
                    lex_lt(lit.as_slice(), fetched)
                } else {
                    lex_lt(fetched, lit.as_slice())
                };
                if hit {
                    Some(
                        MatchRecord {
                            matched_start: off as u64,
                            matched_end: e as u64,
                            fetched_val: Value::Bytes(copy_bytes(fetched)),
                            desc: copy_bytes(line.desc.as_slice()),
                            typ_code: line.typ_code,
                        },
                    )
                } else {
                    None
                }
            } else {
                None
            }
        },
        Some(Action::Str { .. }) => None,
    }
}

/// The first NUL at or after `off`, tied to its specification.
fn scan_to_nul_eq(data: &[u8], off: usize) -> (r: usize)
    requires
        off <= data@.len(),
    ensures
        r as int == spec_scan_nul(data@, off as int),
        off <= r <= data@.len(),
{
    let e = scan_to_nul(data, off);
    proof {
        lemma_scan_nul(data@, off as int);
        assert(spec_scan_nul(data@, off as int) == e as int) by {
            let f = spec_scan_nul(data@, off as int);
            if f < e {
                assert(data@[f] != 0);
            }
            if f > e {
                assert(data@[e as int] != 0);
            }
        }
    }
    e
}

/// Pascal-string matching: the length prefix bounds the content.
fn match_pstring(
    line: &MagicLine,
    data: &[u8],
    flags: u16,
    reln: Option<&Action>,
    off: usize,
) -> (r: Option<MatchRecord>)
    requires
        off <= data@.len(),
    ensures
        match spec_match_pstring(flags, opt_act(reln), data@, off as int) {
            None => r is None,
            Some((st, en, fv)) => r matches Some(rec) && rec.matched_start as int == st
                && rec.matched_end as int == en && rec.fetched_val@ == fv && rec.desc@
                == line.desc@ && rec.typ_code == line.typ_code,
        },
{
    let span = match pstring_span(data, off, flags) {
        None => {
            return None;
        },
        Some(span) => span,
    };
    let (b, e) = span;
    match reln {
        None => Some(
            MatchRecord {
                matched_start: off as u64,
                matched_end: e as u64,
                fetched_val: Value::Bytes(copy_bytes(&data[b..e])),
                desc: copy_bytes(line.desc.as_slice()),
                typ_code: line.typ_code,
            },
        ),
        Some(Action::Num { op, val }) => {
            let lit: &Vec<u8> = match &**val {
                Expression::Val(Value::Bytes(bb)) => bb,
                _ => {
                    return None;
                },
            };
            if *op == Operator::EQ {
                let truncated = &data[0..e];
                proof {
                    assert(truncated@ =~= data@.subrange(0, e as int));
                }
                match str_eq_match(lit.as_slice(), truncated, b, flags) {
                    Some(e2) => Some(
                        MatchRecord {
                            matched_start: off as u64,
                            matched_end: e2 as u64,
                            fetched_val: Value::Bytes(copy_bytes(&data[b..e])),
                            desc: copy_bytes(line.desc.as_slice()),
                            typ_code: line.typ_code,
                        },
                    ),
                    None => None,
                }
            } else {
                None
            }
        },
        Some(Action::Str { .. }) => None,
    }
}

/// 16-bit string matching: each literal byte against one code unit.
#[verifier::rlimit(100)]
fn match_str16(line: &MagicLine, data: &[u8], reln: Option<&Action>, off: usize) -> (r: Option<
    MatchRecord,
>)
    requires
        off <= data@.len(),
        line.typ.typ == ValType::LEString16 || line.typ.typ == ValType::BEString16,
    ensures
        ({
            let le = line.typ.typ == ValType::LEString16;
            match spec_match_str16(le, opt_act(reln), data@, off as int) {
                None => r is None,
                Some(t) => r matches Some(rec) && rec.matched_start as int == t.0
                    && rec.matched_end as int == t.1 && rec.fetched_val@ == t.2 && rec.desc@
                    == line.desc@ && rec.typ_code == line.typ_code,
            }
        }),
{
    let le = line.typ.typ == ValType::LEString16;
    let act: &Action = match reln {
        Some(a) => a,
        None => {
            return None;
        },
    };
    proof {
        assert(opt_act(reln) == Some(*act));
    }
    match act {
        Action::Num { op, val } => {
            let lit: &Vec<u8> = match &**val {
                Expression::Val(Value::Bytes(bb)) => bb,
                _ => {
                    return None;
                },
            };
            if *op != Operator::EQ {
                return None;
            }
            proof {
                let d = (data@.len() - off) as int;
                vstd::arithmetic::div_mod::lemma_fundamental_div_mod(d, 2);
                vstd::arithmetic::div_mod::lemma_mod_bound(d, 2);
            }
            if lit.len() > (data.len() - off) / 2 {
                proof {
                    assert(off + 2 * lit@.len() > data@.len());
                }
                return None;
            }
            proof {
                assert(off + 2 * lit@.len() <= data@.len());
            }
            if utf16_eq(lit, data, off, le) {
                proof {
                    assert(spec_match_str16(le, opt_act(reln), data@, off as int) is Some);
                }
                Some(
                    MatchRecord {
                        matched_start: off as u64,
                        matched_end: (off + 2 * lit.len()) as u64,
                        fetched_val: Value::Bytes(copy_bytes(lit.as_slice())),
                        desc: copy_bytes(line.desc.as_slice()),
                        typ_code: line.typ_code,
                    },
                )
            } else {
                proof {
                    assert(spec_match_str16(le, opt_act(reln), data@, off as int) is None);
                }
                None
            }
        },
        Action::Str { .. } => None,
    }
}

/// The content span of a Pascal string at `off`.
fn pstring_span(data: &[u8], off: usize, fl: u16) -> (r: Option<(usize, usize)>)
    requires
        off <= data@.len(),
    ensures
        match spec_pstring_span(data@, off as int, fl) {
            Some((b, e)) => r matches Some(span) && span.0 as int == b && span.1 as int == e,
            None => r is None,
        },
{
    let (wp, be): (usize, bool) = if fl & FLAG_PSTRING_2_BE != 0 {
        (2, true)
    } else if fl & FLAG_PSTRING_2_LE != 0 {
        (2, false)
    } else if fl & FLAG_PSTRING_4_BE != 0 {
        (4, true)
    } else if fl & FLAG_PSTRING_4_LE != 0 {
        (4, false)
    } else {
        (1, false)
    };
    if wp > data.len() - off {
        return None;
    }
    let pref = &data[off..off + wp];
    proof {
        assert(pref@ =~= data@.subrange(off as int, off + wp));
        assert(pref@.subrange(0, wp as int) =~= pref@);
        crate::expr_value::lemma_pow256_vals();
        if be {
            crate::expr_value::lemma_be_val_bound(pref@);
            crate::expr_value::lemma_pow256_le(wp as nat, 4);
        } else {
            crate::expr_value::lemma_le_val_bound(pref@);
            crate::expr_value::lemma_pow256_le(wp as nat, 4);
        }
    }
    let raw: u64 = if be {
        crate::expr_value::read_be(pref, wp)
    } else {
        crate::expr_value::read_le(pref, wp)
    };
    let l: u64 = if fl & FLAG_PSTRING_LENGTH_INCLUDES_ITSELF != 0 {
        if raw < wp as u64 {
            return None;
        }
        raw - wp as u64
    } else {
        raw
    };
    if l > (data.len() - off - wp) as u64 {
        return None;
    }
    Some((off + wp, off + wp + (l as usize)))
}

/// Matches the subtree rooted at `idx`: when the node's line matches, its
/// record is appended and the children are tried with the match end as
/// their relative offset; a failed child blocks only its own subtree.
pub fn match_node(
    nodes: &Vec<TreeNode<MagicLine>>,
    idx: usize,
    rel: &Value,
    dflt: SignValType,
    data: &[u8],
    records: &mut Vec<MatchRecord>,
) -> (matched: bool)
    requires
        tree_wf(nodes@),
        idx < nodes@.len(),
    ensures
        final(records)@.len() >= old(records)@.len(),
        final(records)@.subrange(0, old(records)@.len() as int) == old(records)@,
        matched == (spec_match_line(nodes@[idx as int].val, rel@, dflt, data@) is Some),
        !matched ==> final(records)@ == old(records)@,
        matched ==> final(records)@.len() > old(records)@.len() && ({
            let (st, en, fv) = spec_match_line(nodes@[idx as int].val, rel@, dflt, data@).unwrap();
            let rec = final(records)@[old(records)@.len() as int];
            rec.matched_start as int == st && rec.matched_end as int == en && rec.fetched_val@
                == fv && rec.desc@ == nodes@[idx as int].val.desc@ && rec.typ_code
                == nodes@[idx as int].val.typ_code
        }),
    decreases nodes@.len() - idx,
{
    let rec = match match_line(&nodes[idx].val, rel, dflt, data) {
        None => {
            return false;
        },
        Some(r) => r,
    };
    let end = rec.matched_end;
    records.push(rec);
    let ghost after_push = records@;
    proof {
        assert(records@.subrange(0, old(records)@.len() as int) =~= old(records)@);
    }
    let mut j: usize = 0;
    while j < nodes[idx].childs.len()
        invariant
            tree_wf(nodes@),
            idx < nodes@.len(),
            j <= nodes@[idx as int].childs@.len(),
            after_push.len() == old(records)@.len() + 1,
            records@.len() >= after_push.len(),
            records@.subrange(0, after_push.len() as int) == after_push,
            records@.subrange(0, old(records)@.len() as int) == old(records)@,
            spec_match_line(nodes@[idx as int].val, rel@, dflt, data@) is Some,
            ({
                let (st, en, fv) = spec_match_line(
                    nodes@[idx as int].val,
                    rel@,
                    dflt,
                    data@,
                ).unwrap();
                let rec = after_push[old(records)@.len() as int];
                rec.matched_start as int == st && rec.matched_end as int == en && rec.fetched_val@
                    == fv && rec.desc@ == nodes@[idx as int].val.desc@ && rec.typ_code
                    == nodes@[idx as int].val.typ_code
            }),
        decreases nodes@[idx as int].childs@.len() - j,
    {
        let c = nodes[idx].childs[j];
        proof {
            assert(idx < nodes@[idx as int].childs@[j as int] < nodes@.len());
        }
        let crel = Value::U64(end);
        let ghost snap = records@;
        let _ = match_node(nodes, c, &crel, dflt, data, records);
        proof {
            assert(records@.subrange(0, old(records)@.len() as int) =~= old(records)@) by {
                assert(records@.subrange(0, snap.len() as int) == snap);
                assert forall|m: int| 0 <= m < old(records)@.len() implies records@[m] == old(
                    records,
                )@[m] by {
                    assert(records@.subrange(0, snap.len() as int)[m] == records@[m]);
                    assert(snap.subrange(0, old(records)@.len() as int)[m] == snap[m]);
                }
            }
            assert(records@.subrange(0, after_push.len() as int) =~= after_push) by {
                assert forall|m: int| 0 <= m < after_push.len() implies records@[m]
                    == after_push[m] by {
                    assert(records@.subrange(0, snap.len() as int)[m] == records@[m]);
                    assert(snap.subrange(0, after_push.len() as int)[m] == snap[m]);
                }
            }
        }
        j = j + 1;
    }
    proof {
        assert(final(records)@[old(records)@.len() as int] == after_push[old(
            records,
        )@.len() as int]);
    }
    true
}

/// Matches one entry tree from its root against `data`, appending a
/// record for every line that matched.
pub fn match_entry(entry: &MagicEntry, data: &[u8], records: &mut Vec<MatchRecord>) -> (matched:
    bool)
    requires
        entry.well_formed(),
    ensures
        final(records)@.len() >= old(records)@.len(),
        final(records)@.subrange(0, old(records)@.len() as int) == old(records)@,
        matched == spec_entry_matches(*entry, data@),
        !matched ==> final(records)@ == old(records)@,
        matched ==> final(records)@.len() > old(records)@.len(),
{
    let ctx = MatchContext::new(0, 0);
    match_node(&entry.nodes, 0, &ctx.relative_offset, ctx.indirect_type, data, records)
}

/// Whether an entry's root line matches at a fresh context.
pub open spec fn spec_entry_matches(e: MagicEntry, data: Seq<u8>) -> bool {
    spec_match_line(
        e.nodes@[0].val,
        ValueView::I64(0),
        SignValType { unsigned: true, typ: ValType::Quad },
        data,
    ) is Some
}

/// Evaluates a rule database against byte buffers, keeping the records of
/// the lines that matched.
#[derive(Debug)]
pub struct MagicMatcher {
    pub magic: MagicFile,
    pub match_rec: Vec<MatchRecord>,
}

impl MagicMatcher {
    /// A matcher over a parsed rule database.
    pub fn new(magic: MagicFile) -> (r: Self)
        ensures
            r.magic == magic,
            r.match_rec@.len() == 0,
    {
        MagicMatcher { magic, match_rec: Vec::new() }
    }

    /// Runs every entry, in the database's strength order, against
    /// `data`; the records of the matched lines replace the previous
    /// run's.
    pub fn magic_match(&mut self, data: &[u8])
        requires
            forall|k: int|
                0 <= k < old(self).magic.entries@.len() ==> (#[trigger] old(
                    self,
                ).magic.entries@[k]).well_formed(),
        ensures
            final(self).magic == old(self).magic,
            (final(self).match_rec@.len() > 0) == (exists|k: int|
                0 <= k < old(self).magic.entries@.len() && spec_entry_matches(
                    #[trigger] old(self).magic.entries@[k],
                    data@,
                )),
    {
        self.match_rec = Vec::new();
        let n = self.magic.entries.len();
        let mut i: usize = 0;
        while i < n
            invariant
                i <= n,
                n == self.magic.entries@.len(),
                self.magic == old(self).magic,
                forall|k: int|
                    0 <= k < self.magic.entries@.len() ==> (#[trigger] self.magic.entries@[k]).well_formed(),
                (self.match_rec@.len() > 0) == (exists|k: int|
                    0 <= k < i && spec_entry_matches(
                        #[trigger] old(self).magic.entries@[k],
                        data@,
                    )),
            decreases n - i,
        {
            let _ = match_entry(&self.magic.entries[i], data, &mut self.match_rec);
            i = i + 1;
        }
    }
}

} // verus!
