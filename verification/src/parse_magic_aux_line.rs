//! Parsing of `!:` auxiliary lines: MIME types, Apple four-codes, file
//! extensions, and strength factors.

use vstd::prelude::*;

use crate::expr::Operator;
use crate::magic_line::{AuxLine, AuxStrength, AuxType, AuxTypes};
use crate::magic_line::spec_is_space;
use crate::magic_line_parse::{clampi, spec_scan_d, spec_skip_b};
use crate::str_utils::{
    dec_val, ensure_goodchars, goodchars_ok, is_blank, is_digit, read_dec, scan_digits,
    skip_blanks,
};

verus! {

/// The characters a MIME value may hold besides letters and digits.
pub open spec fn mime_good() -> Seq<u8> {
    seq![0x2bu8, 0x2du8, 0x2au8, 0x2fu8, 0x2eu8, 0x24u8, 0x3fu8, 0x3au8, 0x7bu8, 0x7du8]
}

/// The characters an Apple four-code may hold besides letters and digits.
pub open spec fn apple_good() -> Seq<u8> {
    seq![0x2bu8, 0x2du8, 0x2eu8, 0x2fu8, 0x21u8, 0x3fu8]
}

/// The characters an extension list may hold besides letters and digits.
pub open spec fn ext_good() -> Seq<u8> {
    seq![0x2bu8, 0x2du8, 0x2cu8, 0x2fu8, 0x21u8, 0x40u8, 0x3fu8, 0x5fu8, 0x24u8]
}

fn mime_good_bytes() -> (r: Vec<u8>)
    ensures
        r@ == mime_good(),
{
    let mut v: Vec<u8> = Vec::new();
    v.push(0x2b);
    v.push(0x2d);
    v.push(0x2a);
    v.push(0x2f);
    v.push(0x2e);
    v.push(0x24);
    v.push(0x3f);
    v.push(0x3a);
    v.push(0x7b);
    v.push(0x7d);
    proof {
        assert(v@ =~= mime_good());
    }
    v
}

fn apple_good_bytes() -> (r: Vec<u8>)
    ensures
        r@ == apple_good(),
{
    let mut v: Vec<u8> = Vec::new();
    v.push(0x2b);
    v.push(0x2d);
    v.push(0x2e);
    v.push(0x2f);
    v.push(0x21);
    v.push(0x3f);
    proof {
        assert(v@ =~= apple_good());
    }
    v
}

fn ext_good_bytes() -> (r: Vec<u8>)
    ensures
        r@ == ext_good(),
{
    let mut v: Vec<u8> = Vec::new();
    v.push(0x2b);
    v.push(0x2d);
    v.push(0x2c);
    v.push(0x2f);
    v.push(0x21);
    v.push(0x40);
    v.push(0x3f);
    v.push(0x5f);
    v.push(0x24);
    proof {
        assert(v@ =~= ext_good());
    }
    v
}

/// Splitting a byte string on a separator, keeping empty pieces.
pub open spec fn spec_split(s: Seq<u8>, sep: u8) -> Seq<Seq<u8>>
    decreases s.len(),
{
    let i = spec_find(s, sep);
    if 0 <= i < s.len() && s[i] == sep {
        seq![s.subrange(0, i)] + spec_split(s.subrange(i + 1, s.len() as int), sep)
    } else {
        seq![s]
    }
}

/// The first position of `sep` in `s`; `s.len()` when absent.
pub open spec fn spec_find(s: Seq<u8>, sep: u8) -> int
    decreases s.len(),
{
    if s.len() == 0 {
        0
    } else if s[0] == sep {
        0
    } else {
        1 + spec_find(s.drop_first(), sep)
    }
}

proof fn lemma_find_props(s: Seq<u8>, sep: u8)
    ensures
        0 <= spec_find(s, sep) <= s.len(),
        forall|k: int| 0 <= k < spec_find(s, sep) ==> s[k] != sep,
        spec_find(s, sep) < s.len() ==> s[spec_find(s, sep)] == sep,
    decreases s.len(),
{
    if s.len() > 0 && s[0] != sep {
        lemma_find_props(s.drop_first(), sep);
        let f = spec_find(s, sep);
        assert(f == 1 + spec_find(s.drop_first(), sep));
        assert forall|k: int| 0 <= k < f implies s[k] != sep by {
            if k > 0 {
                assert(s.drop_first()[k - 1] == s[k]);
                assert(s.drop_first()[k - 1] != sep);
            }
        }
        if f < s.len() {
            assert(s.drop_first()[f - 1] == s[f]);
        }
    }
}

/// Splitting yields at least one piece.
pub proof fn lemma_split_nonempty(s: Seq<u8>, sep: u8)
    ensures
        spec_split(s, sep).len() >= 1,
    decreases s.len(),
{
    let i = spec_find(s, sep);
    if 0 <= i < s.len() && s[i] == sep {
        lemma_split_nonempty(s.subrange(i + 1, s.len() as int), sep);
    }
}

/// The views of the byte vectors in a list.
pub open spec fn views_of(s: Seq<Vec<u8>>) -> Seq<Seq<u8>> {
    s.map_values(|v: Vec<u8>| v@)
}

/// Copies `s[i..j]` into a fresh vector.
fn copy_range(s: &[u8], i: usize, j: usize) -> (r: Vec<u8>)
    requires
        i <= j <= s@.len(),
    ensures
        r@ == s@.subrange(i as int, j as int),
{
    let mut v: Vec<u8> = Vec::new();
    let mut k = i;
    while k < j
        invariant
            i <= k <= j <= s@.len(),
            v@ == s@.subrange(i as int, k as int),
        decreases j - k,
    {
        v.push(s[k]);
        proof {
            assert(v@ =~= s@.subrange(i as int, k + 1));
        }
        k = k + 1;
    }
    proof {
        assert(v@ =~= s@.subrange(i as int, j as int));
    }
    v
}

/// Splits `s` on the separator, keeping empty pieces.
pub fn split_on(s: &[u8], sep: u8) -> (r: Vec<Vec<u8>>)
    ensures
        views_of(r@) == spec_split(s@, sep),
    decreases s@.len(),
{
    let mut i: usize = 0;
    while i < s.len() && s[i] != sep
        invariant
            i <= s@.len(),
            forall|k: int| 0 <= k < i ==> s@[k] != sep,
        decreases s@.len() - i,
    {
        i = i + 1;
    }
    proof {
        lemma_find_props(s@, sep);
        if i < s@.len() {
            assert(s@[i as int] == sep);
        }
        assert(spec_find(s@, sep) == i as int) by {
            let f = spec_find(s@, sep);
            if f < i {
                assert(s@[f] != sep);
                assert(f < s@.len());
            }
            if f > i {
                assert(i < s@.len());
            }
        }
    }
    if i >= s.len() {
        let whole = copy_range(s, 0, s.len());
        let mut r: Vec<Vec<u8>> = Vec::new();
        r.push(whole);
        proof {
            assert(whole@ =~= s@);
            assert(views_of(r@).len() == 1);
            assert(views_of(r@)[0] == whole@);
            assert(views_of(r@) =~= spec_split(s@, sep));
        }
        r
    } else {
        let head = copy_range(s, 0, i);
        let mut rest = split_on(&s[i + 1..s.len()], sep);
        rest.insert(0, head);
        proof {
            assert(views_of(rest@) =~= spec_split(s@, sep));
        }
        rest
    }
}

/// What a strength payload determines: an operator character, blanks,
/// and a decimal operand that fits `u32`.
pub open spec fn spec_parse_strength(s: Seq<u8>) -> Option<AuxFactor> {
    if s.len() == 0 {
        None
    } else {
        let op = FactorOp::spec_from_byte(s[0]);
        if op == FactorOp::Noop {
            None
        } else {
            let j = clampi(1, spec_skip_b(s, 1), s.len() as int);
            let k = clampi(j, spec_scan_d(s, j), s.len() as int);
            if k == j {
                None
            } else if dec_val(s.subrange(j, k)) > 0xffffffff {
                None
            } else {
                Some(AuxFactor { op, val: dec_val(s.subrange(j, k)) as u32 })
            }
        }
    }
}

/// The payload of an auxiliary line: the keyword's kind (0 MIME, 1
/// extensions, 2 Apple, 3 strength) and the payload span, blanks after
/// the keyword and trailing whitespace removed.  `None` when no keyword
/// leads or the payload is empty.
pub open spec fn spec_aux_payload(s: Seq<u8>) -> Option<(int, int, int)> {
    let kindlen: Option<(int, int)> = if s.len() >= 4 && s.subrange(0, 4) =~= mime_kw() {
        Some((0, 4))
    } else if s.len() >= 3 && s.subrange(0, 3) =~= ext_kw() {
        Some((1, 3))
    } else if s.len() >= 5 && s.subrange(0, 5) =~= apple_kw() {
        Some((2, 5))
    } else if s.len() >= 8 && s.subrange(0, 8) =~= strength_kw() {
        Some((3, 8))
    } else {
        None
    };
    match kindlen {
        None => None,
        Some((kind, kwlen)) => {
            let j = clampi(kwlen, spec_skip_b(s, kwlen), s.len() as int);
            let e = spec_rtrim(s, j, s.len() as int);
            if e == j {
                None
            } else {
                Some((kind, j, e))
            }
        },
    }
}

/// The end of the payload once trailing whitespace is removed.
pub open spec fn spec_rtrim(s: Seq<u8>, j: int, e: int) -> int
    decreases e - j
    when 0 <= j <= e <= s.len()
{
    if e > j && spec_is_space(s[e - 1]) {
        spec_rtrim(s, j, e - 1)
    } else {
        e
    }
}

pub proof fn lemma_rtrim(s: Seq<u8>, j: int, e: int)
    requires
        0 <= j <= e <= s.len(),
    ensures
        j <= spec_rtrim(s, j, e) <= e,
        forall|m: int| spec_rtrim(s, j, e) <= m < e ==> spec_is_space(s[m]),
        spec_rtrim(s, j, e) > j ==> !spec_is_space(s[spec_rtrim(s, j, e) - 1]),
    decreases e - j,
{
    if e > j && spec_is_space(s[e - 1]) {
        lemma_rtrim(s, j, e - 1);
    }
}

/// A strength-factor operator.
#[derive(Debug, PartialEq, Eq, Copy, Clone, Structural)]
pub enum FactorOp {
    Noop,
    Plus,
    Minus,
    Multiply,
    Divide,
}

impl Default for FactorOp {
    fn default() -> (r: Self)
        ensures
            r == FactorOp::Noop,
    {
        FactorOp::Noop
    }
}

impl FactorOp {
    pub open spec fn spec_from_byte(b: u8) -> FactorOp {
        if b == 0x2b {
            FactorOp::Plus
        } else if b == 0x2d {
            FactorOp::Minus
        } else if b == 0x2a {
            FactorOp::Multiply
        } else if b == 0x2f {
            FactorOp::Divide
        } else {
            FactorOp::Noop
        }
    }

    #[verifier::when_used_as_spec(spec_from_byte)]
    pub fn from_byte(b: u8) -> (r: FactorOp)
        ensures
            r == FactorOp::spec_from_byte(b),
    {
        match b {
            0x2b => FactorOp::Plus,      // +
            0x2d => FactorOp::Minus,     // -
            0x2a => FactorOp::Multiply,  // *
            0x2f => FactorOp::Divide,    // /
            _ => FactorOp::Noop,
        }
    }
}

/// A strength factor: operator and operand.
#[derive(Debug, PartialEq, Eq, Copy, Clone, Structural)]
pub struct AuxFactor {
    pub op: FactorOp,
    pub val: u32,
}

impl Default for AuxFactor {
    fn default() -> (r: Self)
        ensures
            r == (AuxFactor { op: FactorOp::Noop, val: 0u32 }),
    {
        AuxFactor { op: FactorOp::Noop, val: 0 }
    }
}

/// A parsed auxiliary payload: metadata or a strength factor.
#[derive(Debug, PartialEq)]
pub enum AuxInfo {
    Types(AuxTypes),
    Strength(AuxFactor),
}

impl AuxInfo {
    /// Parses a MIME payload.  A payload with a character outside the MIME
    /// class yields no MIME value.
    pub fn parse_line_mime(s: &[u8]) -> (r: AuxInfo)
        ensures
            match r {
                AuxInfo::Types(t) => t.apple is None && t.exts@.len() == 0 && (goodchars_ok(
                    s@,
                    mime_good(),
                ) ==> (t.mime matches Some(m) && m@ == s@)) && (!goodchars_ok(s@, mime_good())
                    ==> t.mime is None),
                _ => false,
            },
    {
        let good = mime_good_bytes();
        AuxInfo::Types(
            AuxTypes { mime: ensure_goodchars(s, good.as_slice()), apple: None, exts: Vec::new() },
        )
    }

    /// Parses an Apple four-code payload.  A payload with a character
    /// outside the Apple class yields no Apple value.
    pub fn parse_line_apple(s: &[u8]) -> (r: AuxInfo)
        ensures
            match r {
                AuxInfo::Types(t) => t.mime is None && t.exts@.len() == 0 && (goodchars_ok(
                    s@,
                    apple_good(),
                ) ==> (t.apple matches Some(a) && a@ == s@)) && (!goodchars_ok(s@, apple_good())
                    ==> t.apple is None),
                _ => false,
            },
    {
        let good = apple_good_bytes();
        AuxInfo::Types(
            AuxTypes { mime: None, apple: ensure_goodchars(s, good.as_slice()), exts: Vec::new() },
        )
    }

    /// Parses an extension-list payload: the slash-separated pieces of the
    /// payload.  A character outside the extension class is an error.
    pub fn parse_line_ext(s: &[u8]) -> (r: Result<AuxInfo, ()>)
        ensures
            r is Ok <==> goodchars_ok(s@, ext_good()),
            r matches Ok(a) ==> match a {
                AuxInfo::Types(t) => t.mime is None && t.apple is None && views_of(t.exts@)
                    == spec_split(s@, 0x2f),
                _ => false,
            },
    {
        let good = ext_good_bytes();
        match ensure_goodchars(s, good.as_slice()) {
            None => Err(()),
            Some(_) => {
                let exts = split_on(s, 0x2f);
                Ok(AuxInfo::Types(AuxTypes { mime: None, apple: None, exts }))
            },
        }
    }

    /// Parses a strength payload: an operator character, optional blanks,
    /// and a decimal operand.  The result is exactly
    /// `spec_parse_strength`'s.
    pub fn parse_line_strength(s: &[u8]) -> (r: Result<AuxInfo, ()>)
        ensures
            match spec_parse_strength(s@) {
                Some(f) => r == Ok::<AuxInfo, ()>(AuxInfo::Strength(f)),
                None => r is Err,
            },
    {
        if s.len() == 0 {
            return Err(());
        }
        let op = FactorOp::from_byte(s[0]);
        if op == FactorOp::Noop {
            return Err(());
        }
        let j = skip_blanks(s, 1);
        let k = scan_digits(s, j);
        proof {
            crate::magic_line_parse::lemma_skip_b(s@, 1);
            assert(spec_skip_b(s@, 1) == j as int) by {
                let f = spec_skip_b(s@, 1);
                if f < j {
                    assert(is_blank(s@[f]));
                }
                if f > j {
                    assert(is_blank(s@[j as int]));
                }
            }
            crate::magic_line_parse::lemma_scan_d(s@, j as int);
            assert(spec_scan_d(s@, j as int) == k as int) by {
                let f = spec_scan_d(s@, j as int);
                if f < k {
                    assert(is_digit(s@[f]));
                }
                if f > k {
                    assert(is_digit(s@[k as int]));
                }
            }
        }
        if k == j {
            return Err(());
        }
        match read_dec(s, j, k) {
            None => Err(()),
            Some(v) => {
                if v > 0xffffffff {
                    Err(())
                } else {
                    Ok(AuxInfo::Strength(AuxFactor { op, val: v as u32 }))
                }
            },
        }
    }

    /// Parses a whole auxiliary line: a keyword, blanks, and its payload
    /// with trailing whitespace removed.  The payload span is exactly
    /// `spec_aux_payload`'s and its reading is the keyword's payload
    /// parser applied to that span.
    pub fn parse_aux_line(s: &[u8]) -> (r: Result<AuxInfo, ()>)
        ensures
            match spec_aux_payload(s@) {
                None => r is Err,
                Some((kind, j, e)) => ({
                    let p = s@.subrange(j, e);
                    if kind == 0 {
                        r matches Ok(a) && (a matches AuxInfo::Types(t) && t.apple is None
                            && t.exts@.len() == 0 && (goodchars_ok(p, mime_good()) ==> (t.mime
                            matches Some(m) && m@ == p)) && (!goodchars_ok(p, mime_good())
                            ==> t.mime is None))
                    } else if kind == 1 {
                        (goodchars_ok(p, ext_good()) ==> (r matches Ok(a) && (a matches
                            AuxInfo::Types(t) && t.mime is None && t.apple is None && views_of(
                            t.exts@,
                        ) == spec_split(p, 0x2f)))) && (!goodchars_ok(p, ext_good()) ==> r is Err)
                    } else if kind == 2 {
                        r matches Ok(a) && (a matches AuxInfo::Types(t) && t.mime is None
                            && t.exts@.len() == 0 && (goodchars_ok(p, apple_good()) ==> (t.apple
                            matches Some(ap) && ap@ == p)) && (!goodchars_ok(p, apple_good())
                            ==> t.apple is None))
                    } else {
                        match spec_parse_strength(p) {
                            Some(f) => r == Ok::<AuxInfo, ()>(AuxInfo::Strength(f)),
                            None => r is Err,
                        }
                    }
                }),
            },
    {
        let kind: usize = if starts_with_kw(s, 0x6d) {  // mime
            0
        } else if starts_with_ext(s) {
            1
        } else if starts_with_kw(s, 0x61) {  // apple
            2
        } else if starts_with_kw(s, 0x73) {  // strength
            3
        } else {
            return Err(());
        };
        let kwlen: usize = if kind == 0 {
            4
        } else if kind == 1 {
            3
        } else if kind == 2 {
            5
        } else {
            8
        };
        let j = skip_blanks(s, kwlen);
        proof {
            crate::magic_line_parse::lemma_skip_b(s@, kwlen as int);
            assert(spec_skip_b(s@, kwlen as int) == j as int) by {
                let f = spec_skip_b(s@, kwlen as int);
                if f < j {
                    assert(is_blank(s@[f]));
                }
                if f > j {
                    assert(is_blank(s@[j as int]));
                }
            }
        }
        let mut end = s.len();
        while end > j && (s[end - 1] == 0x20 || s[end - 1] == 0x09 || s[end - 1] == 0x0d
            || s[end - 1] == 0x0a || s[end - 1] == 0x0b || s[end - 1] == 0x0c)
            invariant
                j <= end <= s@.len(),
                spec_rtrim(s@, j as int, s@.len() as int) == spec_rtrim(s@, j as int, end as int),
            decreases end,
        {
            end = end - 1;
        }
        proof {
            lemma_rtrim(s@, j as int, end as int);
            assert(spec_rtrim(s@, j as int, end as int) == end as int);
        }
        if end == j {
            return Err(());
        }
        let payload = copy_range(s, j, end);
        if kind == 0 {
            Ok(AuxInfo::parse_line_mime(payload.as_slice()))
        } else if kind == 1 {
            AuxInfo::parse_line_ext(payload.as_slice())
        } else if kind == 2 {
            Ok(AuxInfo::parse_line_apple(payload.as_slice()))
        } else {
            AuxInfo::parse_line_strength(payload.as_slice())
        }
    }
}

/// Every byte in `[a, b)` is a blank.
pub open spec fn blank_run(s: Seq<u8>, a: int, b: int) -> bool {
    forall|k: int| a <= k < b ==> is_blank(s[k])
}

/// Whether `s` starts with the keyword that begins with `first`: one of
/// `mime`, `apple`, or `strength`.
fn starts_with_kw(s: &[u8], first: u8) -> (r: bool)
    ensures
        first == 0x6d ==> (r <==> s@.len() >= 4 && s@.subrange(0, 4) =~= mime_kw()),
        first == 0x61 ==> (r <==> s@.len() >= 5 && s@.subrange(0, 5) =~= apple_kw()),
        first == 0x73 ==> (r <==> s@.len() >= 8 && s@.subrange(0, 8) =~= strength_kw()),
{
    if first == 0x6d {
        let r = s.len() >= 4 && s[0] == 0x6d && s[1] == 0x69 && s[2] == 0x6d && s[3] == 0x65;
        proof {
            if r {
                assert(s@.subrange(0, 4) =~= mime_kw());
            } else {
                assert(!(s@.len() >= 4 && s@.subrange(0, 4) =~= mime_kw()));
            }
        }
        r
    } else if first == 0x61 {
        let r = s.len() >= 5 && s[0] == 0x61 && s[1] == 0x70 && s[2] == 0x70 && s[3] == 0x6c
            && s[4] == 0x65;
        proof {
            if r {
                assert(s@.subrange(0, 5) =~= apple_kw());
            } else {
                assert(!(s@.len() >= 5 && s@.subrange(0, 5) =~= apple_kw()));
            }
        }
        r
    } else if first == 0x73 {
        let r = s.len() >= 8 && s[0] == 0x73 && s[1] == 0x74 && s[2] == 0x72 && s[3] == 0x65
            && s[4] == 0x6e && s[5] == 0x67 && s[6] == 0x74 && s[7] == 0x68;
        proof {
            if r {
                assert(s@.subrange(0, 8) =~= strength_kw());
            } else {
                assert(!(s@.len() >= 8 && s@.subrange(0, 8) =~= strength_kw()));
            }
        }
        r
    } else {
        false
    }
}

/// Whether `s` starts with `ext`.
fn starts_with_ext(s: &[u8]) -> (r: bool)
    ensures
        r <==> s@.len() >= 3 && s@.subrange(0, 3) =~= ext_kw(),
{
    let r = s.len() >= 3 && s[0] == 0x65 && s[1] == 0x78 && s[2] == 0x74;
    proof {
        if r {
            assert(s@.subrange(0, 3) =~= ext_kw());
        } else {
            assert(!(s@.len() >= 3 && s@.subrange(0, 3) =~= ext_kw()));
        }
    }
    r
}

pub open spec fn mime_kw() -> Seq<u8> {
    seq![0x6du8, 0x69u8, 0x6du8, 0x65u8]
}

pub open spec fn apple_kw() -> Seq<u8> {
    seq![0x61u8, 0x70u8, 0x70u8, 0x6cu8, 0x65u8]
}

pub open spec fn ext_kw() -> Seq<u8> {
    seq![0x65u8, 0x78u8, 0x74u8]
}

pub open spec fn strength_kw() -> Seq<u8> {
    seq![0x73u8, 0x74u8, 0x72u8, 0x65u8, 0x6eu8, 0x67u8, 0x74u8, 0x68u8]
}

/// The arithmetic operator a strength-factor operator denotes.
pub open spec fn spec_factor_op(f: FactorOp) -> Operator {
    match f {
        FactorOp::Plus => Operator::Add,
        FactorOp::Minus => Operator::Minus,
        FactorOp::Multiply => Operator::Multiply,
        FactorOp::Divide => Operator::Divide,
        FactorOp::Noop => Operator::Noop,
    }
}

impl AuxLine {
    /// Parses a `!:` line body into either metadata for the preceding rule
    /// line or a strength factor.  The result is determined by the
    /// keyword and its payload; a payload that breaks its character class
    /// is an error.
    pub fn parse_line(line: &[u8]) -> (r: Result<AuxLine, ()>)
        ensures
            match spec_aux_payload(line@) {
                None => r is Err,
                Some((kind, j, e)) => ({
                    let p = line@.subrange(j, e);
                    if kind == 0 {
                        (goodchars_ok(p, mime_good()) ==> (r matches Ok(a) && (a matches
                            AuxLine::Type(t) && (t matches AuxType::Mime(m) && m@ == p)))) && (
                        !goodchars_ok(p, mime_good()) ==> r is Err)
                    } else if kind == 1 {
                        (goodchars_ok(p, ext_good()) ==> (r matches Ok(a) && (a matches
                            AuxLine::Type(t) && (t matches AuxType::Exts(es) && views_of(es@)
                            == spec_split(p, 0x2f))))) && (!goodchars_ok(p, ext_good()) ==> r
                            is Err)
                    } else if kind == 2 {
                        (goodchars_ok(p, apple_good()) ==> (r matches Ok(a) && (a matches
                            AuxLine::Type(t) && (t matches AuxType::Apple(ap) && ap@ == p)))) && (
                        !goodchars_ok(p, apple_good()) ==> r is Err)
                    } else {
                        match spec_parse_strength(p) {
                            Some(f) => r == Ok::<AuxLine, ()>(
                                AuxLine::Strength(
                                    AuxStrength { op: spec_factor_op(f.op), val: f.val },
                                ),
                            ),
                            None => r is Err,
                        }
                    }
                }),
            },
    {
        match AuxInfo::parse_aux_line(line) {
            Err(()) => Err(()),
            Ok(AuxInfo::Types(t)) => {
                let AuxTypes { mime, apple, exts } = t;
                match mime {
                    Some(m) => Ok(AuxLine::Type(AuxType::Mime(m))),
                    None => match apple {
                        Some(a) => Ok(AuxLine::Type(AuxType::Apple(a))),
                        None => {
                            proof {
                                match spec_aux_payload(line@) {
                                    Some((kind, j, e)) => {
                                        lemma_split_nonempty(line@.subrange(j, e), 0x2f);
                                    },
                                    None => {},
                                }
                            }
                            if exts.len() > 0 {
                                Ok(AuxLine::Type(AuxType::Exts(exts)))
                            } else {
                                Err(())
                            }
                        },
                    },
                }
            },
            Ok(AuxInfo::Strength(f)) => {
                let op = match f.op {
                    FactorOp::Plus => Operator::Add,
                    FactorOp::Minus => Operator::Minus,
                    FactorOp::Multiply => Operator::Multiply,
                    FactorOp::Divide => Operator::Divide,
                    FactorOp::Noop => {
                        return Err(());
                    },
                };
                Ok(AuxLine::Strength(AuxStrength { op, val: f.val }))
            },
        }
    }
}

} // verus!
