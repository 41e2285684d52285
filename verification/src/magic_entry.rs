//! Entries: trees of rule lines grouped by continuation depth, ranked by
//! a strength heuristic.

use vstd::prelude::*;

use crate::expr::Operator;
use crate::expr_value::ValType;
use crate::magic_line::{spec_is_entry_line, AuxLine, AuxStrength, AuxType, MagicLine};
use crate::magic_line_parse::{line_exp_matches, spec_parse_line, LineShape};
use crate::parse_magic_aux_line::{
    apple_good, ext_good, mime_good, spec_aux_payload, spec_factor_op, spec_parse_strength,
    spec_split, views_of,
};
use crate::str_utils::goodchars_ok;
use crate::tree::{node_mut, TreeNode};

verus! {

/// The base unit of the strength heuristic.
pub const STRENGTH_UNIT: i64 = 10;

/// Well-formedness of an entry tree held in an arena: every parent edge
/// points backwards, each child hangs one continuation level below its
/// parent, child indices stay in range behind their node, and child and
/// parent edges agree.
pub open spec fn tree_wf(nodes: Seq<TreeNode<MagicLine>>) -> bool {
    &&& forall|i: int|
        0 <= i < nodes.len() ==> match #[trigger] nodes[i].parent {
            Some(p) => p < i && nodes[p as int].val.cont_lvl + 1 == nodes[i].val.cont_lvl,
            None => i == 0,
        }
    &&& forall|i: int, j: int|
        0 <= i < nodes.len() && 0 <= j < nodes[i].childs@.len() ==> i < #[trigger] nodes[i].childs@[j]
            < nodes.len()
    &&& forall|i: int, j: int|
        0 <= i < nodes.len() && 0 <= j < nodes[i].childs@.len() ==> (nodes[#[trigger] nodes[i].childs@[j] as int].parent
            matches Some(p2) && p2 == i)
}

/// The nearest node on the parent chain of `cur` whose continuation
/// level is `lvl`, `cur` itself included.
pub open spec fn spec_ancestor_at(nodes: Seq<TreeNode<MagicLine>>, cur: int, lvl: u32) -> Option<
    int,
>
    decreases cur
    when 0 <= cur < nodes.len()
{
    if nodes[cur].val.cont_lvl == lvl {
        Some(cur)
    } else {
        match nodes[cur].parent {
            Some(p) => if (p as int) < cur {
                spec_ancestor_at(nodes, p as int, lvl)
            } else {
                None
            },
            None => None,
        }
    }
}

/// A blank or comment line: ignored by the entry builder.
pub open spec fn spec_is_comment(s: Seq<u8>) -> bool {
    s.len() == 0 || s[0] == 0x23
}

/// A `!:` auxiliary line.
pub open spec fn spec_is_aux_prefix(s: Seq<u8>) -> bool {
    s.len() >= 2 && s[0] == 0x21 && s[1] == 0x3a
}

/// Whether a line, fed to an empty builder, creates a rule node: it is
/// neither blank, comment nor auxiliary, and it parses as a rule line.
pub open spec fn spec_line_adds(s: Seq<u8>) -> bool {
    !spec_is_comment(s) && !spec_is_aux_prefix(s) && spec_parse_line(s) is Some
}

/// A rule line realizes a line shape in a stored `MagicLine`.
pub open spec fn spec_line_realizes(ml: MagicLine, sh: LineShape) -> bool {
    &&& ml.cont_lvl == sh.cont
    &&& ml.typ == sh.typ
    &&& ml.typ_code == sh.typ_code
    &&& ml.desc@ == sh.desc
    &&& ml.aux is None
    &&& line_exp_matches(ml.exp, sh)
}

/// A rule entry: the arena of its line tree (the root at index 0) and the
/// precomputed strength.
#[derive(Debug)]
pub struct MagicEntry {
    pub nodes: Vec<TreeNode<MagicLine>>,
    pub strength: i64,
}

impl MagicEntry {
    /// The priority of this entry: smaller sorts first.
    pub fn strength(&self) -> (r: i64)
        ensures
            r == self.strength,
    {
        self.strength
    }

    pub open spec fn well_formed(&self) -> bool {
        tree_wf(self.nodes@) && self.nodes@.len() > 0
    }
}

/// Continuation grouping: in a well-formed entry every child edge hangs a
/// line exactly one continuation level below its parent line.
pub proof fn lemma_continuation_grouping(e: &MagicEntry)
    requires
        e.well_formed(),
    ensures
        forall|i: int, j: int|
            0 <= i < e.nodes@.len() && 0 <= j < e.nodes@[i].childs@.len()
                ==> e.nodes@[i].val.cont_lvl + 1 == e.nodes@[
                #[trigger] e.nodes@[i].childs@[j] as int
            ].val.cont_lvl,
{
    assert forall|i: int, j: int|
        0 <= i < e.nodes@.len() && 0 <= j < e.nodes@[i].childs@.len() implies e.nodes@[i].val.cont_lvl
        + 1 == e.nodes@[#[trigger] e.nodes@[i].childs@[j] as int].val.cont_lvl by {
        let c = e.nodes@[i].childs@[j] as int;
        assert(e.nodes@[c].parent matches Some(p2) && p2 == i);
    }
}

/// The comparison operator of a line's relation, when it has one.
pub open spec fn spec_reln_op(line: &MagicLine) -> Option<Operator> {
    match line.spec_reln_action() {
        Some(a) => match a {
            crate::expr::Action::Num { op, .. } => Some(*op),
            _ => None,
        },
        None => None,
    }
}

/// The length of the byte-string literal a line compares against, when it
/// compares against one.
pub open spec fn spec_reln_str_len(line: &MagicLine) -> Option<int> {
    match line.spec_reln_action() {
        Some(a) => match a {
            crate::expr::Action::Num { op: _, val } => match **val {
                crate::expr::Expression::Val(ref v) => match v {
                    crate::expr_value::Value::Bytes(b) => Some(b@.len() as int),
                    _ => None,
                },
                _ => None,
            },
            _ => None,
        },
        None => None,
    }
}

/// Lengths that feed the strength formula are capped so the arithmetic
/// stays within range.
pub open spec fn spec_len_cap(l: int) -> int {
    if l > 0x7fffffff {
        0x7fffffff
    } else {
        l
    }
}

/// The strength contribution of the comparison value, per the type class:
/// integer widths score by width, strings by literal length.  `None` when
/// the type class needs a literal length and the line has none.
pub open spec fn spec_delta_val(line: &MagicLine) -> Option<int> {
    let t = line.typ.typ;
    if t.spec_is_i8() {
        Some(10)
    } else if t.spec_is_i16() {
        Some(20)
    } else if t.spec_is_i32() {
        Some(40)
    } else if t.spec_is_i64() {
        Some(80)
    } else if t == ValType::PString || t == ValType::String {
        match spec_reln_str_len(line) {
            Some(l) => Some(10 * spec_len_cap(l)),
            None => None,
        }
    } else if t == ValType::LEString16 || t == ValType::BEString16 {
        match spec_reln_str_len(line) {
            Some(l) => Some(10 * spec_len_cap(l) / 2),
            None => None,
        }
    } else if t == ValType::Search {
        match spec_reln_str_len(line) {
            Some(l) => Some(
                if spec_len_cap(l) > 10 {
                    spec_len_cap(l)
                } else {
                    10
                },
            ),
            None => None,
        }
    } else if t == ValType::Der || t == ValType::Regex {
        Some(10)
    } else {
        Some(0)
    }
}

/// The strength contribution of the comparison operator: equality scores
/// up, ordering scores down, bit tests slightly down.  `None` for the
/// wildcard.
pub open spec fn spec_delta_op(line: &MagicLine) -> Option<int> {
    match spec_reln_op(line) {
        None => None,
        Some(op) => Some(
            if op == Operator::EQ {
                10
            } else if op == Operator::LT || op == Operator::GT {
                -20
            } else if op == Operator::And || op == Operator::Xor {
                -10
            } else {
                0
            },
        ),
    }
}

/// The accumulated strength before any factor: base 20 plus the value and
/// operator contributions.
pub open spec fn spec_base_strength(line: &MagicLine) -> int {
    20 + (match spec_delta_val(line) {
        Some(d) => d,
        None => 0,
    }) + (match spec_delta_op(line) {
        Some(d) => d,
        None => 0,
    })
}

pub open spec fn spec_clamp_i32(s: int) -> int {
    if s > 0x7fffffff {
        0x7fffffff
    } else if s < 0 {
        0
    } else {
        s
    }
}

/// Applying a strength factor: the accumulated strength (clamped to keep
/// the arithmetic in range) is reduced with the factor's operator and
/// operand.  Division by zero and unknown operators collapse the strength
/// to 1; truncating division.
pub open spec fn spec_apply_factor(s: int, f: Option<AuxStrength>) -> int {
    match f {
        None => s,
        Some(st) => {
            let sc = spec_clamp_i32(s);
            let v = spec_len_cap(st.val as int);
            if st.op == Operator::Add {
                sc + v
            } else if st.op == Operator::Minus {
                sc - v
            } else if st.op == Operator::Multiply {
                sc * v
            } else if st.op == Operator::Divide {
                if v == 0 {
                    1
                } else {
                    sc / v
                }
            } else {
                1
            }
        },
    }
}

/// The strength of an entry whose deciding line is `line` with the given
/// factor.
pub open spec fn spec_strength(line: &MagicLine, f: Option<AuxStrength>) -> int {
    spec_apply_factor(spec_base_strength(line), f)
}

/// Accumulates the lines of one entry: rule lines grow the tree, `!:`
/// lines attach metadata or set the strength factor.
#[derive(Debug)]
pub struct MagicEntryBuilder {
    /// The arena of the entry tree; the root, when any, is at index 0.
    pub nodes: Vec<TreeNode<MagicLine>>,
    /// The index of the most recently added line.
    pub last_node: Option<usize>,
    /// The strength factor, when a `!:strength` line set one.
    pub factor: Option<AuxStrength>,
}

impl MagicEntryBuilder {
    pub open spec fn inv(&self) -> bool {
        &&& tree_wf(self.nodes@)
        &&& match self.last_node {
            Some(l) => self.nodes@.len() > 0 && l + 1 == self.nodes@.len(),
            None => self.nodes@.len() == 0,
        }
    }

    /// An empty builder.
    pub fn new() -> (r: MagicEntryBuilder)
        ensures
            r.inv(),
            r.nodes@.len() == 0,
            r.last_node is None,
            r.factor is None,
    {
        MagicEntryBuilder { nodes: Vec::new(), last_node: None, factor: None }
    }

    /// Whether a line would start the next entry: the builder already
    /// holds a rule line and the line opens a rule.
    pub fn is_new_entry(&self, line: &[u8]) -> (r: bool)
        ensures
            r == (self.nodes@.len() > 0 && spec_is_entry_line(line@)),
    {
        self.nodes.len() > 0 && MagicLine::is_entry_line(line)
    }

    /// Records the strength factor of this entry; the last one wins.
    pub fn attach_strength_to_this_entry(&mut self, factor: AuxStrength)
        requires
            old(self).inv(),
        ensures
            final(self).inv(),
            final(self).nodes == old(self).nodes,
            final(self).last_node == old(self).last_node,
            final(self).factor == Some(factor),
    {
        self.factor = Some(factor);
    }

    /// Attaches metadata to the most recently added rule line; dropped
    /// when no rule line exists yet.
    pub fn attach_aux_type_to_last_line(&mut self, typ: AuxType)
        requires
            old(self).inv(),
        ensures
            final(self).inv(),
            final(self).last_node == old(self).last_node,
            final(self).factor == old(self).factor,
            final(self).nodes@.len() == old(self).nodes@.len(),
            old(self).last_node is None ==> *final(self) == *old(self),
            old(self).last_node matches Some(l) ==> ({
                let oldn = old(self).nodes@[l as int];
                let newn = final(self).nodes@[l as int];
                &&& forall|k: int|
                    0 <= k < old(self).nodes@.len() && k != l ==> final(self).nodes@[k] == old(
                        self,
                    ).nodes@[k]
                &&& newn.parent == oldn.parent
                &&& newn.childs == oldn.childs
                &&& newn.val.cont_lvl == oldn.val.cont_lvl
                &&& newn.val.exp == oldn.val.exp
                &&& newn.val.typ == oldn.val.typ
                &&& newn.val.desc == oldn.val.desc
                &&& newn.val.typ_code == oldn.val.typ_code
                &&& newn.val.aux is Some
                &&& ({
                    let prev_mime = match oldn.val.aux {
                        Some(a) => a.mime,
                        None => None,
                    };
                    let prev_apple = match oldn.val.aux {
                        Some(a) => a.apple,
                        None => None,
                    };
                    let prev_exts = match oldn.val.aux {
                        Some(a) => a.exts@,
                        None => Seq::<Vec<u8>>::empty(),
                    };
                    let now = newn.val.aux.unwrap();
                    match typ {
                        AuxType::Mime(m) => now.mime == Some(m) && now.apple == prev_apple
                            && now.exts@ == prev_exts,
                        AuxType::Apple(a) => now.mime == prev_mime && now.apple == Some(a)
                            && now.exts@ == prev_exts,
                        AuxType::Exts(e) => now.mime == prev_mime && now.apple == prev_apple
                            && now.exts == e,
                    }
                })
            }),
    {
        match self.last_node {
            None => {},
            Some(l) => {
                let ghost before = self.nodes@;
                let node = node_mut(&mut self.nodes, l);
                node.val.attach_aux(typ);
                proof {
                    assert forall|i: int|
                        0 <= i < self.nodes@.len() implies match #[trigger] self.nodes@[i].parent {
                        Some(p) => p < i && self.nodes@[p as int].val.cont_lvl + 1
                            == self.nodes@[i].val.cont_lvl,
                        None => i == 0,
                    } by {
                        assert(self.nodes@[i].parent == before[i].parent);
                        assert(self.nodes@[i].val.cont_lvl == before[i].val.cont_lvl);
                    }
                    assert forall|i: int, j: int|
                        0 <= i < self.nodes@.len() && 0 <= j < self.nodes@[i].childs@.len() implies i
                        < #[trigger] self.nodes@[i].childs@[j] < self.nodes@.len() by {
                        assert(self.nodes@[i].childs == before[i].childs);
                    }
                    assert forall|i: int, j: int|
                        0 <= i < self.nodes@.len() && 0 <= j
                            < self.nodes@[i].childs@.len() implies (self.nodes@[
                        #[trigger] self.nodes@[i].childs@[j] as int
                    ].parent matches Some(p2) && p2 == i) by {
                        assert(self.nodes@[i].childs == before[i].childs);
                        assert(self.nodes@[self.nodes@[i].childs@[j] as int].parent == before[self.nodes@[i].childs@[j] as int].parent);
                    }
                }
            },
        }
    }

    /// Adds a rule line to the tree: the first line becomes the root;
    /// a later line hangs under the nearest ancestor of the last line
    /// whose continuation level is one less than its own.  A line with no
    /// such ancestor is malformed and dropped.
    pub fn add_line_into_tree(&mut self, line: MagicLine)
        requires
            old(self).inv(),
        ensures
            final(self).inv(),
            final(self).factor == old(self).factor,
            old(self).nodes@.len() == 0 ==> final(self).nodes@.len() == 1 && final(self).nodes@[0].val
                == line && final(self).nodes@[0].parent is None && final(self).last_node == Some(
                0usize,
            ),
            old(self).nodes@.len() > 0 && line.cont_lvl == 0 ==> *final(self) == *old(self),
            old(self).nodes@.len() > 0 && line.cont_lvl > 0 ==> ({
                let n = old(self).nodes@.len() as int;
                match spec_ancestor_at(old(self).nodes@, n - 1, (line.cont_lvl - 1) as u32) {
                    None => *final(self) == *old(self),
                    Some(p) => {
                        &&& final(self).nodes@.len() == n + 1
                        &&& final(self).nodes@.last().val == line
                        &&& final(self).nodes@.last().parent == Some(p as usize)
                        &&& final(self).nodes@.last().childs@.len() == 0
                        &&& final(self).nodes@[p].childs@ == old(self).nodes@[p].childs@.push(
                            n as usize,
                        )
                        &&& final(self).nodes@[p].val == old(self).nodes@[p].val
                        &&& final(self).nodes@[p].parent == old(self).nodes@[p].parent
                        &&& forall|k: int|
                            0 <= k < n && k != p ==> final(self).nodes@[k] == old(self).nodes@[k]
                        &&& final(self).last_node == Some(n as usize)
                    },
                }
            }),
    {
        if self.nodes.len() == 0 {
            self.nodes.push(TreeNode { val: line, childs: Vec::new(), parent: None });
            self.last_node = Some(0);
            return ;
        }
        if line.cont_lvl == 0 {
            // a depth-0 line inside an entry is malformed here
            return ;
        }
        let target = line.cont_lvl - 1;
        let mut cur = match self.last_node {
            Some(l) => l,
            None => {
                return ;
            },
        };
        while self.nodes[cur].val.cont_lvl != target
            invariant
                self.inv(),
                cur < self.nodes@.len(),
                self.nodes == old(self).nodes,
                self.last_node == old(self).last_node,
                self.factor == old(self).factor,
                old(self).nodes@.len() > 0,
                line.cont_lvl > 0,
                target == line.cont_lvl - 1,
                spec_ancestor_at(old(self).nodes@, old(self).nodes@.len() - 1, target)
                    == spec_ancestor_at(old(self).nodes@, cur as int, target),
            decreases cur,
        {
            match self.nodes[cur].parent {
                Some(p) => {
                    cur = p;
                },
                None => {
                    // no ancestor at the required level: drop the line
                    proof {
                        assert(spec_ancestor_at(old(self).nodes@, cur as int, target) is None);
                    }
                    return ;
                },
            }
        }
        proof {
            assert(spec_ancestor_at(old(self).nodes@, cur as int, target) == Some(cur as int));
        }
        let idx = self.nodes.len();
        let ghost before = self.nodes@;
        {
            let parent_node = node_mut(&mut self.nodes, cur);
            parent_node.childs.push(idx);
        }
        let ghost mid = self.nodes@;
        self.nodes.push(TreeNode { val: line, childs: Vec::new(), parent: Some(cur) });
        self.last_node = Some(idx);
        proof {
            let now = self.nodes@;
            assert(now.len() == before.len() + 1);
            assert forall|i: int|
                0 <= i < now.len() implies match #[trigger] now[i].parent {
                Some(p) => p < i && now[p as int].val.cont_lvl + 1 == now[i].val.cont_lvl,
                None => i == 0,
            } by {
                if i < before.len() {
                    assert(now[i].parent == before[i].parent);
                    assert(now[i].val == before[i].val);
                    match before[i].parent {
                        Some(p) => {
                            assert(now[p as int].val == before[p as int].val);
                        },
                        None => {},
                    }
                } else {
                    assert(now[i].parent == Some(cur));
                    assert(now[cur as int].val == before[cur as int].val);
                }
            }
            assert forall|i: int, j: int|
                0 <= i < now.len() && 0 <= j < now[i].childs@.len() implies i < #[trigger] now[i].childs@[j]
                < now.len() by {
                if i == cur as int && j == now[i].childs@.len() - 1 {
                    assert(now[i].childs@[j] == idx);
                } else if i < before.len() {
                    assert(now[i].childs@[j] == before[i].childs@[j]);
                } else {
                    assert(now[i].childs@.len() == 0);
                }
            }
            assert forall|i: int, j: int|
                0 <= i < now.len() && 0 <= j < now[i].childs@.len() implies (now[
                #[trigger] now[i].childs@[j] as int
            ].parent matches Some(p2) && p2 == i) by {
                if i == cur as int && j == now[i].childs@.len() - 1 {
                    assert(now[i].childs@[j] == idx);
                    assert(now[idx as int].parent == Some(cur));
                } else if i < before.len() {
                    assert(now[i].childs@[j] == before[i].childs@[j]);
                    let c = before[i].childs@[j] as int;
                    assert(c < before.len());
                    assert(now[c].parent == before[c].parent);
                } else {
                    assert(now[i].childs@.len() == 0);
                }
            }
        }
    }

    /// Feeds one line to the builder: blank and comment lines are skipped,
    /// `!:` lines attach metadata to the last rule line or set the
    /// strength factor, anything else is parsed as a rule line and hung
    /// into the tree; malformed lines are dropped.
    pub fn parse_line(&mut self, line: &[u8])
        requires
            old(self).inv(),
        ensures
            final(self).inv(),
            final(self).nodes@.len() >= old(self).nodes@.len(),
            final(self).nodes@.len() == 0 <==> old(self).nodes@.len() == 0 && !spec_line_adds(
                line@,
            ),
            spec_is_comment(line@) ==> *final(self) == *old(self),
            !spec_is_comment(line@) && spec_is_aux_prefix(line@) ==> ({
                let body = line@.subrange(2, line@.len() as int);
                &&& final(self).nodes@.len() == old(self).nodes@.len()
                &&& final(self).last_node == old(self).last_node
                &&& match spec_aux_payload(body) {
                    None => *final(self) == *old(self),
                    Some((kind, j, e)) => ({
                        let p = body.subrange(j, e);
                        if kind == 3 {
                            match spec_parse_strength(p) {
                                Some(f) => final(self).nodes == old(self).nodes
                                    && final(self).factor == Some(
                                    AuxStrength { op: spec_factor_op(f.op), val: f.val },
                                ),
                                None => *final(self) == *old(self),
                            }
                        } else {
                            &&& final(self).factor == old(self).factor
                            &&& (old(self).last_node is None ==> *final(self) == *old(self))
                            &&& (old(self).last_node matches Some(l) ==> ({
                                let au = final(self).nodes@[l as int].val.aux;
                                &&& (kind == 0 && goodchars_ok(p, mime_good()) ==> (au matches
                                    Some(a) && (a.mime matches Some(m) && m@ == p)))
                                &&& (kind == 2 && goodchars_ok(p, apple_good()) ==> (au matches
                                    Some(a) && (a.apple matches Some(ap) && ap@ == p)))
                                &&& (kind == 1 && goodchars_ok(p, ext_good()) ==> (au matches Some(
                                    a,
                                ) && views_of(a.exts@) == spec_split(p, 0x2f)))
                                &&& ((kind == 0 && !goodchars_ok(p, mime_good())) || (kind == 2
                                    && !goodchars_ok(p, apple_good())) || (kind == 1
                                    && !goodchars_ok(p, ext_good())) ==> *final(self)
                                    == *old(self))
                            }))
                        }
                    }),
                }
            }),
            !spec_is_comment(line@) && !spec_is_aux_prefix(line@) ==> match spec_parse_line(
                line@,
            ) {
                None => *final(self) == *old(self),
                Some(sh) => ({
                    &&& final(self).factor == old(self).factor
                    &&& (old(self).nodes@.len() == 0 ==> final(self).nodes@.len() == 1
                        && spec_line_realizes(final(self).nodes@[0].val, sh)
                        && final(self).nodes@[0].parent is None)
                    &&& (old(self).nodes@.len() > 0 && sh.cont == 0 ==> *final(self) == *old(self))
                    &&& (old(self).nodes@.len() > 0 && sh.cont > 0 ==> ({
                        let n = old(self).nodes@.len() as int;
                        match spec_ancestor_at(old(self).nodes@, n - 1, (sh.cont - 1) as u32) {
                            None => *final(self) == *old(self),
                            Some(p) => final(self).nodes@.len() == n + 1 && spec_line_realizes(
                                final(self).nodes@.last().val,
                                sh,
                            ) && final(self).nodes@.last().parent == Some(p as usize)
                                && final(self).nodes@[p].childs@ == old(self).nodes@[p].childs@.push(
                                n as usize,
                            ) && (forall|k: int|
                                0 <= k < n && k != p ==> final(self).nodes@[k]
                                    == old(self).nodes@[k]),
                        }
                    }))
                }),
            },
    {
        if line.len() == 0 || line[0] == 0x23 {  // empty or comment
            return ;
        }
        if line.len() >= 2 && line[0] == 0x21 && line[1] == 0x3a {  // !:
            match AuxLine::parse_line(&line[2..line.len()]) {
                Ok(AuxLine::Type(typ)) => self.attach_aux_type_to_last_line(typ),
                Ok(AuxLine::Strength(factor)) => self.attach_strength_to_this_entry(factor),
                Err(()) => {},
            }
            return ;
        }
        match MagicLine::parse_line(line) {
            Some(ml) => self.add_line_into_tree(ml),
            None => {},
        }
    }

    /// Consumes lines from `start` until the next entry begins or the
    /// lines run out; the result is the position of the first unconsumed
    /// line.
    pub fn parse_until_new_entry(&mut self, lines: &Vec<Vec<u8>>, start: usize) -> (r: usize)
        requires
            old(self).inv(),
            start <= lines@.len(),
        ensures
            final(self).inv(),
            start <= r <= lines@.len(),
            old(self).nodes@.len() == 0 && start < lines@.len() ==> r > start,
            r < lines@.len() ==> final(self).nodes@.len() > 0 && spec_is_entry_line(
                lines@[r as int]@,
            ),
            (final(self).nodes@.len() == 0) == (old(self).nodes@.len() == 0 && (forall|k: int|
                #![trigger lines@[k]]
                start <= k < r ==> !spec_line_adds(lines@[k]@))),
    {
        let mut idx = start;
        let ghost had = self.nodes@.len() > 0;
        while idx < lines.len()
            invariant
                self.inv(),
                start <= idx <= lines@.len(),
                had == (old(self).nodes@.len() > 0),
                had ==> self.nodes@.len() > 0,
                !had && idx == start ==> self.nodes@.len() == 0,
                (self.nodes@.len() == 0) == (old(self).nodes@.len() == 0 && (forall|k: int|
                    #![trigger lines@[k]]
                    start <= k < idx ==> !spec_line_adds(lines@[k]@))),
            decreases lines@.len() - idx,
        {
            if self.is_new_entry(lines[idx].as_slice()) {
                return idx;
            }
            self.parse_line(lines[idx].as_slice());
            idx = idx + 1;
        }
        idx
    }

    /// The finished entry, when the builder holds at least one rule line.
    pub fn build(self) -> (r: Option<MagicEntry>)
        requires
            self.inv(),
        ensures
            self.nodes@.len() == 0 <==> r is None,
            r matches Some(e) ==> {
                &&& e.well_formed()
                &&& e.nodes == self.nodes
                &&& e.strength as int == spec_strength(
                    &self.nodes@[self.nodes@.len() - 1].val,
                    self.factor,
                )
            },
    {
        if self.nodes.len() == 0 {
            None
        } else {
            let strength = self.compute_strength();
            Some(MagicEntry { nodes: self.nodes, strength })
        }
    }

    /// The strength of the entry being built: base 20, plus the value and
    /// operator contributions of the last line, with the factor applied.
    pub fn compute_strength(&self) -> (r: i64)
        requires
            self.inv(),
            self.nodes@.len() > 0,
        ensures
            r as int == spec_strength(&self.nodes@[self.nodes@.len() - 1].val, self.factor),
    {
        let mut strength: i64 = STRENGTH_UNIT * 2;
        match self.strength_delta_from_cmp_val() {
            Some(d) => {
                strength = strength + d;
            },
            None => {},
        }
        match self.strength_delta_from_cmp_op() {
            Some(d) => {
                strength = strength + d;
            },
            None => {},
        }
        match self.strength_by_factor(strength) {
            Some(s) => s,
            None => strength,
        }
    }

    /// The strength contribution of the comparison value of the last
    /// line.
    pub fn strength_delta_from_cmp_val(&self) -> (r: Option<i64>)
        requires
            self.inv(),
            self.nodes@.len() > 0,
        ensures
            ({
                let line = &self.nodes@[self.nodes@.len() - 1].val;
                match spec_delta_val(line) {
                    Some(d) => r matches Some(x) && x as int == d && 0 <= d <= 0x500000000,
                    None => r is None,
                }
            }),
    {
        let last = self.nodes.len() - 1;
        let line = &self.nodes[last].val;
        let t = line.typ.typ;
        if t.is_i8() {
            Some(STRENGTH_UNIT)
        } else if t.is_i16() {
            Some(STRENGTH_UNIT * 2)
        } else if t.is_i32() {
            Some(STRENGTH_UNIT * 4)
        } else if t.is_i64() {
            Some(STRENGTH_UNIT * 8)
        } else if t == ValType::PString || t == ValType::String {
            match Self::reln_len(line) {
                Some(l) => Some(10 * l),
                None => None,
            }
        } else if t == ValType::LEString16 || t == ValType::BEString16 {
            match Self::reln_len(line) {
                Some(l) => Some(((10 * (l as u64)) / 2) as i64),
                None => None,
            }
        } else if t == ValType::Search {
            match Self::reln_len(line) {
                Some(l) => Some(
                    if l > 10 {
                        l
                    } else {
                        10
                    },
                ),
                None => None,
            }
        } else if t == ValType::Der || t == ValType::Regex {
            Some(STRENGTH_UNIT)
        } else {
            Some(0)
        }
    }

    /// The capped literal length of a line's relation.
    fn reln_len(line: &MagicLine) -> (r: Option<i64>)
        ensures
            match spec_reln_str_len(line) {
                Some(l) => r matches Some(x) && x as int == spec_len_cap(l) && 0 <= x
                    <= 0x7fffffff,
                None => r is None,
            },
    {
        match line.reln_val() {
            None => None,
            Some(v) => match v.str_len() {
                None => None,
                Some(l) => {
                    if l > 0x7fffffff {
                        Some(0x7fffffff)
                    } else {
                        Some(l as i64)
                    }
                },
            },
        }
    }

    /// The strength contribution of the comparison operator of the last
    /// line.
    pub fn strength_delta_from_cmp_op(&self) -> (r: Option<i64>)
        requires
            self.inv(),
            self.nodes@.len() > 0,
        ensures
            ({
                let line = &self.nodes@[self.nodes@.len() - 1].val;
                match spec_delta_op(line) {
                    Some(d) => r matches Some(x) && x as int == d,
                    None => r is None,
                }
            }),
    {
        let last = self.nodes.len() - 1;
        let line = &self.nodes[last].val;
        match line.reln_op() {
            None => None,
            Some(op) => Some(
                if op == Operator::EQ {
                    STRENGTH_UNIT
                } else if op == Operator::LT || op == Operator::GT {
                    -STRENGTH_UNIT * 2
                } else if op == Operator::And || op == Operator::Xor {
                    -STRENGTH_UNIT
                } else {
                    0
                },
            ),
        }
    }

    /// Applies the strength factor to the accumulated strength; `None`
    /// when no factor was given.
    pub fn strength_by_factor(&self, strength: i64) -> (r: Option<i64>)
        requires
            0 <= strength <= 0x600000000,
        ensures
            self.factor is None <==> r is None,
            r matches Some(s) ==> s as int == spec_apply_factor(strength as int, self.factor),
    {
        let f = match self.factor {
            None => {
                return None;
            },
            Some(f) => f,
        };
        let sc: i64 = if strength > 0x7fffffff {
            0x7fffffff
        } else {
            strength
        };
        let v: i64 = if f.val > 0x7fffffff {
            0x7fffffff
        } else {
            f.val as i64
        };
        let s = if f.op == Operator::Add {
            sc + v
        } else if f.op == Operator::Minus {
            sc - v
        } else if f.op == Operator::Multiply {
            proof {
                assert(sc * v <= 0x7fffffff * 0x7fffffff) by (nonlinear_arith)
                    requires
                        0 <= sc <= 0x7fffffff,
                        0 <= v <= 0x7fffffff,
                ;
                assert(sc * v >= 0) by (nonlinear_arith)
                    requires
                        0 <= sc,
                        0 <= v,
                ;
            }
            sc * v
        } else if f.op == Operator::Divide {
            if v == 0 {
                1
            } else {
                ((sc as u64) / (v as u64)) as i64
            }
        } else {
            1
        };
        Some(s)
    }
}

} // verus!
