//! Byte-string scanning helpers shared by the rule-language parsers.

use vstd::prelude::*;

verus! {

/// ASCII digit.
pub open spec fn is_digit(c: u8) -> bool {
    0x30 <= c <= 0x39
}

/// ASCII hex digit.
pub open spec fn is_hex_digit(c: u8) -> bool {
    is_digit(c) || (0x41 <= c <= 0x46) || (0x61 <= c <= 0x66)
}

/// ASCII letter or digit.
pub open spec fn is_alnum(c: u8) -> bool {
    is_digit(c) || (0x41 <= c <= 0x5a) || (0x61 <= c <= 0x7a)
}

/// Field separator inside a rule line: space, tab, or carriage return.
pub open spec fn is_blank(c: u8) -> bool {
    c == 0x20 || c == 0x09 || c == 0x0d
}

/// The numeric value of a hex digit.
pub open spec fn hex_digit_val(c: u8) -> int {
    if is_digit(c) {
        c - 0x30
    } else if 0x41 <= c <= 0x46 {
        c - 0x41 + 10
    } else if 0x61 <= c <= 0x66 {
        c - 0x61 + 10
    } else {
        0
    }
}

/// The value of a decimal digit string.
pub open spec fn dec_val(s: Seq<u8>) -> int
    decreases s.len(),
{
    if s.len() == 0 {
        0
    } else {
        10 * dec_val(s.drop_last()) + (s.last() - 0x30)
    }
}

/// The value of a hexadecimal digit string.
pub open spec fn hex_val(s: Seq<u8>) -> int
    decreases s.len(),
{
    if s.len() == 0 {
        0
    } else {
        16 * hex_val(s.drop_last()) + hex_digit_val(s.last())
    }
}

/// The value of an octal digit string.
pub open spec fn oct_val(s: Seq<u8>) -> int
    decreases s.len(),
{
    if s.len() == 0 {
        0
    } else {
        8 * oct_val(s.drop_last()) + (s.last() - 0x30)
    }
}

/// Advances `i` past blanks; the result is the first non-blank position.
pub fn skip_blanks(s: &[u8], i: usize) -> (r: usize)
    requires
        i <= s@.len(),
    ensures
        i <= r <= s@.len(),
        forall|k: int| i <= k < r ==> is_blank(s@[k]),
        r < s@.len() ==> !is_blank(s@[r as int]),
{
    let mut j = i;
    while j < s.len() && (s[j] == 0x20 || s[j] == 0x09 || s[j] == 0x0d)
        invariant
            i <= j <= s@.len(),
            forall|k: int| i <= k < j ==> is_blank(s@[k]),
        decreases s@.len() - j,
    {
        j = j + 1;
    }
    j
}

/// The end of the run of decimal digits starting at `i`.
pub fn scan_digits(s: &[u8], i: usize) -> (r: usize)
    requires
        i <= s@.len(),
    ensures
        i <= r <= s@.len(),
        forall|k: int| i <= k < r ==> is_digit(s@[k]),
        r < s@.len() ==> !is_digit(s@[r as int]),
{
    let mut j = i;
    while j < s.len() && 0x30 <= s[j] && s[j] <= 0x39
        invariant
            i <= j <= s@.len(),
            forall|k: int| i <= k < j ==> is_digit(s@[k]),
        decreases s@.len() - j,
    {
        j = j + 1;
    }
    j
}

/// The end of the run of hex digits starting at `i`.
pub fn scan_hex_digits(s: &[u8], i: usize) -> (r: usize)
    requires
        i <= s@.len(),
    ensures
        i <= r <= s@.len(),
        forall|k: int| i <= k < r ==> is_hex_digit(s@[k]),
        r < s@.len() ==> !is_hex_digit(s@[r as int]),
{
    let mut j = i;
    while j < s.len() && ((0x30 <= s[j] && s[j] <= 0x39) || (0x41 <= s[j] && s[j] <= 0x46)
        || (0x61 <= s[j] && s[j] <= 0x66))
        invariant
            i <= j <= s@.len(),
            forall|k: int| i <= k < j ==> is_hex_digit(s@[k]),
        decreases s@.len() - j,
    {
        j = j + 1;
    }
    j
}

/// Reads the decimal number in `s[i..j]`; `None` when it exceeds `u64`.
pub fn read_dec(s: &[u8], i: usize, j: usize) -> (r: Option<u64>)
    requires
        i <= j <= s@.len(),
        forall|k: int| i <= k < j ==> is_digit(s@[k]),
    ensures
        r is None <==> dec_val(s@.subrange(i as int, j as int)) > u64::MAX,
        r matches Some(v) ==> v as int == dec_val(s@.subrange(i as int, j as int)),
{
    let mut acc: Option<u64> = Some(0);
    let mut k = i;
    proof {
        assert(s@.subrange(i as int, i as int) =~= Seq::<u8>::empty());
    }
    while k < j
        invariant
            i <= k <= j <= s@.len(),
            forall|m: int| i <= m < j ==> is_digit(s@[m]),
            acc is None <==> dec_val(s@.subrange(i as int, k as int)) > u64::MAX,
            acc matches Some(v) ==> v as int == dec_val(s@.subrange(i as int, k as int)),
        decreases j - k,
    {
        proof {
            assert(s@.subrange(i as int, k + 1).drop_last() =~= s@.subrange(i as int, k as int));
            assert(s@.subrange(i as int, k + 1).last() == s@[k as int]);
        }
        let d = (s[k] - 0x30) as u64;
        acc = match acc {
            None => None,
            Some(v) => match v.checked_mul(10) {
                None => None,
                Some(m) => m.checked_add(d),
            },
        };
        k = k + 1;
    }
    acc
}

/// Reads the hexadecimal number in `s[i..j]`; `None` when it exceeds `u64`.
pub fn read_hex(s: &[u8], i: usize, j: usize) -> (r: Option<u64>)
    requires
        i <= j <= s@.len(),
        forall|k: int| i <= k < j ==> is_hex_digit(s@[k]),
    ensures
        r is None <==> hex_val(s@.subrange(i as int, j as int)) > u64::MAX,
        r matches Some(v) ==> v as int == hex_val(s@.subrange(i as int, j as int)),
{
    let mut acc: Option<u64> = Some(0);
    let mut k = i;
    proof {
        assert(s@.subrange(i as int, i as int) =~= Seq::<u8>::empty());
    }
    while k < j
        invariant
            i <= k <= j <= s@.len(),
            forall|m: int| i <= m < j ==> is_hex_digit(s@[m]),
            acc is None <==> hex_val(s@.subrange(i as int, k as int)) > u64::MAX,
            acc matches Some(v) ==> v as int == hex_val(s@.subrange(i as int, k as int)),
        decreases j - k,
    {
        proof {
            assert(s@.subrange(i as int, k + 1).drop_last() =~= s@.subrange(i as int, k as int));
            assert(s@.subrange(i as int, k + 1).last() == s@[k as int]);
        }
        let c = s[k];
        let d: u64 = if 0x30 <= c && c <= 0x39 {
            (c - 0x30) as u64
        } else if 0x41 <= c && c <= 0x46 {
            (c - 0x41 + 10) as u64
        } else {
            (c - 0x61 + 10) as u64
        };
        acc = match acc {
            None => None,
            Some(v) => match v.checked_mul(16) {
                None => None,
                Some(m) => m.checked_add(d),
            },
        };
        k = k + 1;
    }
    acc
}

/// Whether `g` holds the byte `c`.
pub fn contains_byte(g: &[u8], c: u8) -> (r: bool)
    ensures
        r == g@.contains(c),
{
    let mut i: usize = 0;
    while i < g.len()
        invariant
            i <= g@.len(),
            forall|k: int| 0 <= k < i ==> g@[k] != c,
        decreases g@.len() - i,
    {
        if g[i] == c {
            proof {
                assert(g@[i as int] == c);
            }
            return true;
        }
        i = i + 1;
    }
    proof {
        assert(forall|k: int| 0 <= k < g@.len() ==> g@[k] != c);
    }
    false
}

/// Whether every byte of `s` is alphanumeric or one of `good`.
pub open spec fn goodchars_ok(s: Seq<u8>, good: Seq<u8>) -> bool {
    forall|i: int| 0 <= i < s.len() ==> is_alnum(s[i]) || good.contains(s[i])
}

/// Returns a copy of `s` when each of its bytes is alphanumeric or listed
/// in `goodchars`; `None` otherwise.
pub fn ensure_goodchars(s: &[u8], goodchars: &[u8]) -> (r: Option<Vec<u8>>)
    ensures
        r is Some <==> goodchars_ok(s@, goodchars@),
        r matches Some(v) ==> v@ == s@,
{
    let mut i: usize = 0;
    while i < s.len()
        invariant
            i <= s@.len(),
            forall|k: int| 0 <= k < i ==> is_alnum(s@[k]) || goodchars@.contains(s@[k]),
        decreases s@.len() - i,
    {
        let c = s[i];
        let ok = (0x30 <= c && c <= 0x39) || (0x41 <= c && c <= 0x5a) || (0x61 <= c && c <= 0x7a)
            || contains_byte(goodchars, c);
        if !ok {
            proof {
                assert(!(is_alnum(s@[i as int]) || goodchars@.contains(s@[i as int])));
            }
            return None;
        }
        i = i + 1;
    }
    let mut v: Vec<u8> = Vec::new();
    let mut k: usize = 0;
    while k < s.len()
        invariant
            k <= s@.len(),
            v@ == s@.subrange(0, k as int),
        decreases s@.len() - k,
    {
        v.push(s[k]);
        proof {
            assert(v@ =~= s@.subrange(0, k + 1));
        }
        k = k + 1;
    }
    proof {
        assert(v@ =~= s@);
    }
    Some(v)
}

} // verus!
