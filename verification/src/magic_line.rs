//! A parsed rule line and the auxiliary metadata that can attach to it.

use vstd::prelude::*;

use crate::expr::{Action, Expression, Operator, UnOperator};
use crate::expr_value::{SignValType, ValType, Value};
use crate::str_utils::is_digit;

verus! {

/// One piece of auxiliary metadata: a MIME type, an Apple four-code, or a
/// set of file extensions.
#[derive(Debug, PartialEq)]
pub enum AuxType {
    Mime(Vec<u8>),
    Apple(Vec<u8>),
    Exts(Vec<Vec<u8>>),
}

/// The auxiliary metadata collected on one rule line.
#[derive(Debug, PartialEq)]
pub struct AuxTypes {
    pub mime: Option<Vec<u8>>,
    pub apple: Option<Vec<u8>>,
    pub exts: Vec<Vec<u8>>,
}

impl Default for AuxTypes {
    fn default() -> (r: Self)
        ensures
            r.mime is None,
            r.apple is None,
            r.exts@.len() == 0,
    {
        AuxTypes { mime: None, apple: None, exts: Vec::new() }
    }
}

/// A strength factor: an operator applied to the computed strength with the
/// given operand.
#[derive(Debug, PartialEq, Eq, Copy, Clone, Structural)]
pub struct AuxStrength {
    pub op: Operator,
    pub val: u32,
}

impl Default for AuxStrength {
    fn default() -> (r: Self)
        ensures
            r == (AuxStrength { op: Operator::Noop, val: 0u32 }),
    {
        AuxStrength { op: Operator::Noop, val: 0 }
    }
}

/// A parsed `!:` line: either metadata for the last rule line or a strength
/// factor for the whole entry.
#[derive(Debug, PartialEq)]
pub enum AuxLine {
    Type(AuxType),
    Strength(AuxStrength),
}

/// A parsed rule line.
#[derive(Debug)]
pub struct MagicLine {
    /// Continuation depth: the number of leading `>`.
    pub cont_lvl: u32,
    /// The full comparison expression: the offset wrapped in an indirect
    /// node carrying the comparison type and mask, wrapped in an absolute
    /// node carrying the relation.
    pub exp: Box<Expression>,
    /// The comparison type and signedness of this line.
    pub typ: SignValType,
    /// The description emitted on a match.
    pub desc: Vec<u8>,
    /// The user-supplied printf-style type code; 0 when absent.
    pub typ_code: u32,
    /// Metadata attached by later `!:` lines.
    pub aux: Option<AuxTypes>,
}

impl Default for MagicLine {
    fn default() -> (r: Self)
        ensures
            r.cont_lvl == 0,
            r.exp == Box::new(Expression::Val(Value::U64(0u64))),
            r.typ == (SignValType { unsigned: false, typ: ValType::Invalid }),
            r.desc@.len() == 0,
            r.typ_code == 0,
            r.aux is None,
    {
        MagicLine {
            cont_lvl: 0,
            exp: Box::new(Expression::Val(Value::U64(0))),
            typ: SignValType { unsigned: false, typ: ValType::Invalid },
            desc: Vec::new(),
            typ_code: 0,
            aux: None,
        }
    }
}

/// Whether a line opens a rule: its first non-whitespace character is a
/// digit, `(`, or `&`.
pub open spec fn spec_is_entry_line(s: Seq<u8>) -> bool
    decreases s.len(),
{
    if s.len() == 0 {
        false
    } else if spec_is_space(s[0]) {
        spec_is_entry_line(s.drop_first())
    } else {
        is_digit(s[0]) || s[0] == 0x28 || s[0] == 0x26
    }
}

/// The whitespace class used when testing for a rule start.
pub open spec fn spec_is_space(c: u8) -> bool {
    c == 0x20 || c == 0x09 || c == 0x0a || c == 0x0d || c == 0x0b || c == 0x0c
}

impl MagicLine {
    /// Whether a line opens a rule.
    pub fn is_entry_line(line: &[u8]) -> (r: bool)
        ensures
            r == spec_is_entry_line(line@),
    {
        let mut i: usize = 0;
        proof {
            assert(line@.skip(0) =~= line@);
        }
        while i < line.len() && (line[i] == 0x20 || line[i] == 0x09 || line[i] == 0x0a
            || line[i] == 0x0d || line[i] == 0x0b || line[i] == 0x0c)
            invariant
                i <= line@.len(),
                spec_is_entry_line(line@) == spec_is_entry_line(line@.skip(i as int)),
            decreases line@.len() - i,
        {
            proof {
                assert(line@.skip(i as int).drop_first() =~= line@.skip(i + 1));
                assert(line@.skip(i as int)[0] == line@[i as int]);
            }
            i = i + 1;
        }
        if i >= line.len() {
            proof {
                assert(line@.skip(i as int).len() == 0);
            }
            false
        } else {
            proof {
                assert(line@.skip(i as int)[0] == line@[i as int]);
            }
            let c = line[i];
            (0x30 <= c && c <= 0x39) || c == 0x28 || c == 0x26
        }
    }

    /// Attaches one piece of auxiliary metadata, creating the container on
    /// first use.  MIME and Apple values replace earlier ones; extensions
    /// replace the whole set.
    pub fn attach_aux(&mut self, aux_typ: AuxType)
        ensures
            final(self).cont_lvl == old(self).cont_lvl,
            final(self).exp == old(self).exp,
            final(self).typ == old(self).typ,
            final(self).desc == old(self).desc,
            final(self).typ_code == old(self).typ_code,
            final(self).aux is Some,
            ({
                let prev_mime = match old(self).aux {
                    Some(a) => a.mime,
                    None => None,
                };
                let prev_apple = match old(self).aux {
                    Some(a) => a.apple,
                    None => None,
                };
                let prev_exts = match old(self).aux {
                    Some(a) => a.exts@,
                    None => Seq::<Vec<u8>>::empty(),
                };
                let now = final(self).aux.unwrap();
                match aux_typ {
                    AuxType::Mime(m) => now.mime == Some(m) && now.apple == prev_apple
                        && now.exts@ == prev_exts,
                    AuxType::Apple(a) => now.mime == prev_mime && now.apple == Some(a)
                        && now.exts@ == prev_exts,
                    AuxType::Exts(e) => now.mime == prev_mime && now.apple == prev_apple
                        && now.exts == e,
                }
            }),
    {
        if self.aux.is_none() {
            self.aux = Some(AuxTypes::default());
            proof {
                assert(self.aux.unwrap().exts@ =~= Seq::<Vec<u8>>::empty());
            }
        }
        match &mut self.aux {
            Some(aux) => {
                match aux_typ {
                    AuxType::Mime(m) => aux.mime = Some(m),
                    AuxType::Apple(a) => aux.apple = Some(a),
                    AuxType::Exts(e) => aux.exts = e,
                }
            },
            None => {},
        }
    }

    /// The relation action of this line: the action of the outermost
    /// absolute node, when there is one.  A line whose relation is the
    /// wildcard has none.
    pub open spec fn spec_reln_action(&self) -> Option<&Action> {
        match *self.exp {
            Expression::UnOp(UnOperator::Absolute, _, Some(ref a)) => Some(a),
            _ => None,
        }
    }

    /// The comparison operator of the relation, when the relation is a
    /// numeric action.
    pub fn reln_op(&self) -> (r: Option<Operator>)
        ensures
            match self.spec_reln_action() {
                Some(a) => match a {
                    Action::Num { op, .. } => r == Some(*op),
                    _ => r is None,
                },
                None => r is None,
            },
    {
        match &*self.exp {
            Expression::UnOp(UnOperator::Absolute, _, Some(Action::Num { op, .. })) => Some(*op),
            _ => None,
        }
    }

    /// The literal the relation compares against, when it is one.
    pub fn reln_val(&self) -> (r: Option<&Value>)
        ensures
            match self.spec_reln_action() {
                Some(a) => match a {
                    Action::Num { op: _, val } => match **val {
                        Expression::Val(ref v) => r == Some(v),
                        _ => r is None,
                    },
                    _ => r is None,
                },
                None => r is None,
            },
    {
        match &*self.exp {
            Expression::UnOp(UnOperator::Absolute, _, Some(Action::Num { op: _, val })) => {
                match &**val {
                    Expression::Val(v) => Some(v),
                    _ => None,
                }
            },
            _ => None,
        }
    }
}

} // verus!
