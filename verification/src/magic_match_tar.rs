//! Recognition of tar archives by their header record checksum.

use vstd::prelude::*;

use crate::raw_bytes::split_at_null;
use crate::str_utils::oct_val;

verus! {

/// The size of the classic tar header record.
pub const TAR_RECORD_SIZE: usize = 345;

/// The flavors a tar header can announce.
#[derive(Debug, PartialEq, Eq, Copy, Clone, Structural)]
pub enum TarType {
    GNUUnixStandardTar,
    UnixStandardTar,
    OldFashionTar,
}

/// A tar header record, held as its raw bytes.  The checksum field sits
/// at bytes 148 to 155, the magic field at bytes 257 to 264.
#[derive(Debug, PartialEq)]
pub struct TarRecord {
    pub bytes: Vec<u8>,
}

/// The position of the first NUL in the checksum field, `156` when none.
pub open spec fn spec_chksum_end(s: Seq<u8>, i: int) -> int
    decreases 156 - i
    when 148 <= i <= 156
{
    if i < 156 && s[i] != 0 {
        spec_chksum_end(s, i + 1)
    } else {
        i
    }
}

/// The checksum a header stores: the octal number in its checksum field
/// up to the first NUL; `None` when the digits are missing or not octal.
pub open spec fn spec_stored_checksum(s: Seq<u8>) -> Option<int> {
    let e = spec_chksum_end(s, 148);
    if 148 < e <= 156 && (forall|m: int| 148 <= m < e ==> 0x30 <= #[trigger] s[m] <= 0x37) {
        Some(oct_val(s.subrange(148, e)))
    } else {
        None
    }
}

/// The checksum of a header: the sum of its bytes with the checksum
/// field read as spaces.
pub open spec fn spec_computed_checksum(s: Seq<u8>) -> int {
    spec_byte_sum(s, 0, s.len() as int) - spec_byte_sum(s, 148, 156) + 8 * 0x20
}

pub open spec fn pow8(n: nat) -> int
    decreases n,
{
    if n == 0 {
        1
    } else {
        8 * pow8((n - 1) as nat)
    }
}

proof fn lemma_oct_val_bound(s: Seq<u8>)
    requires
        forall|m: int| 0 <= m < s.len() ==> 0x30 <= #[trigger] s[m] <= 0x37,
    ensures
        0 <= oct_val(s) < pow8(s.len()),
    decreases s.len(),
{
    if s.len() > 0 {
        assert(forall|m: int|
            0 <= m < s.drop_last().len() ==> 0x30 <= #[trigger] s.drop_last()[m] <= 0x37);
        lemma_oct_val_bound(s.drop_last());
    }
}

proof fn lemma_pow8_vals()
    ensures
        pow8(8) == 0x1000000,
        forall|n: nat| n <= 8 ==> #[trigger] pow8(n) <= 0x1000000,
{
    assert(pow8(0) == 1);
    assert(pow8(1) == 8);
    assert(pow8(2) == 64);
    assert(pow8(3) == 512);
    assert(pow8(4) == 4096);
    assert(pow8(5) == 32768);
    assert(pow8(6) == 262144);
    assert(pow8(7) == 2097152);
    assert(pow8(8) == 0x1000000);
    assert forall|n: nat| n <= 8 implies #[trigger] pow8(n) <= 0x1000000 by {
        if n == 0 {
        } else if n == 1 {
        } else if n == 2 {
        } else if n == 3 {
        } else if n == 4 {
        } else if n == 5 {
        } else if n == 6 {
        } else if n == 7 {
        } else {
        }
    }
}

pub open spec fn spec_byte_sum(s: Seq<u8>, a: int, b: int) -> int
    decreases b - a,
{
    if a >= b {
        0
    } else {
        s[a] + spec_byte_sum(s, a + 1, b)
    }
}

/// The magic bytes `ustar  ` of GNU tar.
pub open spec fn gnu_magic() -> Seq<u8> {
    seq![0x75u8, 0x73u8, 0x74u8, 0x61u8, 0x72u8, 0x20u8, 0x20u8]
}

/// The magic bytes `ustar` of POSIX tar.
pub open spec fn ustar_magic() -> Seq<u8> {
    seq![0x75u8, 0x73u8, 0x74u8, 0x61u8, 0x72u8]
}

/// The flavor the magic field announces: the field's NUL-terminated
/// prefix decides.
pub open spec fn spec_tar_typ(s: Seq<u8>) -> TarType {
    if s.subrange(257, 264) =~= gnu_magic() && s[264] == 0 {
        TarType::GNUUnixStandardTar
    } else if s.subrange(257, 262) =~= ustar_magic() && s[262] == 0 {
        TarType::UnixStandardTar
    } else {
        TarType::OldFashionTar
    }
}

impl TarRecord {
    pub open spec fn wf(&self) -> bool {
        self.bytes@.len() == TAR_RECORD_SIZE
    }

    /// The header at the start of `data`; fails when fewer than a full
    /// record's bytes are given.
    pub fn from_bytes(data: &[u8]) -> (r: Option<TarRecord>)
        ensures
            r is Some <==> data@.len() >= TAR_RECORD_SIZE,
            r matches Some(t) ==> t.wf() && t.bytes@ == data@.subrange(0, TAR_RECORD_SIZE as int),
    {
        if data.len() >= TAR_RECORD_SIZE {
            let mut v: Vec<u8> = Vec::new();
            let mut k: usize = 0;
            while k < TAR_RECORD_SIZE
                invariant
                    k <= TAR_RECORD_SIZE <= data@.len(),
                    v@ == data@.subrange(0, k as int),
                decreases TAR_RECORD_SIZE - k,
            {
                v.push(data[k]);
                proof {
                    assert(v@ =~= data@.subrange(0, k + 1));
                }
                k = k + 1;
            }
            Some(TarRecord { bytes: v })
        } else {
            None
        }
    }

    /// The checksum stored in the header: the octal number in the
    /// checksum field, cut at its first NUL.  Fails when a non-octal
    /// character stands before the NUL or no digit does.
    pub fn get_checksum(&self) -> (r: Option<i64>)
        requires
            self.wf(),
        ensures
            match spec_stored_checksum(self.bytes@) {
                Some(v) => r matches Some(x) && x as int == v,
                None => r is None,
            },
    {
        let field = &self.bytes.as_slice()[148..156];
        let (digits, e) = split_at_null(field);
        proof {
            assert(field@ =~= self.bytes@.subrange(148, 156));
            lemma_chksum_end(self.bytes@, 148);
            assert(spec_chksum_end(self.bytes@, 148) == 148 + e) by {
                let f = spec_chksum_end(self.bytes@, 148);
                if f < 148 + e {
                    assert(field@[f - 148] != 0);
                }
                if f > 148 + e {
                    assert(e < 8);
                    assert(self.bytes@[148 + e] == field@[e as int]);
                }
            }
        }
        if e == 0 {
            return None;
        }
        let mut k: usize = 0;
        let mut acc: i64 = 0;
        proof {
            assert(field@ =~= self.bytes@.subrange(148, 156));
            assert(digits@.subrange(0, 0) =~= Seq::<u8>::empty());
        }
        while k < e
            invariant
                self.wf(),
                k <= e <= 8,
                e <= digits@.len(),
                digits@ == self.bytes@.subrange(148, 156).subrange(0, e as int),
                spec_chksum_end(self.bytes@, 148) == 148 + e,
                forall|m: int| 0 <= m < k ==> 0x30 <= #[trigger] digits@[m] <= 0x37,
                acc == oct_val(digits@.subrange(0, k as int)),
                0 <= acc,
                (acc as int) < pow8(k as nat),
            decreases e - k,
        {
            let c = digits[k];
            if c < 0x30 || c > 0x37 {
                proof {
                    assert(self.bytes@[148 + k] == digits@[k as int]);
                    assert(spec_stored_checksum(self.bytes@) is None);
                }
                return None;
            }
            proof {
                lemma_pow8_vals();
                assert(digits@.subrange(0, k + 1).drop_last() =~= digits@.subrange(0, k as int));
                assert(digits@.subrange(0, k + 1).last() == digits@[k as int]);
                assert(pow8((k + 1) as nat) == 8 * pow8(k as nat));
            }
            acc = acc * 8 + ((c - 0x30) as i64);
            k = k + 1;
        }
        proof {
            assert(digits@.subrange(0, e as int) =~= digits@);
            assert(self.bytes@.subrange(148, e + 148) =~= digits@) by {
                assert(forall|m: int|
                    0 <= m < e ==> self.bytes@.subrange(148, e + 148)[m] == digits@[m]);
            }
            assert forall|m: int| 148 <= m < 148 + e implies 0x30 <= #[trigger] self.bytes@[m]
                <= 0x37 by {
                assert(digits@[m - 148] == self.bytes@.subrange(148, e + 148)[m - 148]);
            }
        }
        Some(acc)
    }

    /// The checksum this header should carry: all bytes summed, with the
    /// checksum field counted as spaces.
    pub fn compute_checksum(&self) -> (r: i64)
        requires
            self.wf(),
        ensures
            r == spec_computed_checksum(self.bytes@),
    {
        let mut total: i64 = 0;
        let mut k: usize = 0;
        while k < TAR_RECORD_SIZE
            invariant
                self.wf(),
                k <= TAR_RECORD_SIZE,
                total == spec_byte_sum(self.bytes@, 0, k as int) - spec_byte_sum(
                    self.bytes@,
                    148,
                    if k < 148 {
                        148
                    } else if k < 156 {
                        k as int
                    } else {
                        156
                    },
                ) + 0x20 * (if k < 148 {
                    0
                } else if k < 156 {
                    k - 148
                } else {
                    8
                }),
                0 <= total <= 255 * (k as int),
            decreases TAR_RECORD_SIZE - k,
        {
            proof {
                lemma_byte_sum_snoc(self.bytes@, 0, k as int);
                if 148 <= k < 156 {
                    lemma_byte_sum_snoc(self.bytes@, 148, k as int);
                }
            }
            let b = self.bytes[k];
            if 148 <= k && k < 156 {
                total = total + 0x20;
            } else {
                total = total + (b as i64);
            }
            k = k + 1;
        }
        total
    }

    /// Whether the stored checksum equals the computed one.
    pub fn is_checksum_valid(&self) -> (r: bool)
        requires
            self.wf(),
        ensures
            r == (spec_stored_checksum(self.bytes@) == Some(
                spec_computed_checksum(self.bytes@),
            )),
    {
        match self.get_checksum() {
            None => false,
            Some(stored) => stored == self.compute_checksum(),
        }
    }

    /// The tar flavor the magic field announces: `ustar  ` for GNU tar,
    /// `ustar` for POSIX tar, anything else for old-fashioned tar.
    pub fn typ(&self) -> (r: TarType)
        requires
            self.wf(),
        ensures
            r == spec_tar_typ(self.bytes@),
    {
        let field = &self.bytes.as_slice()[257..265];
        let (magic, e) = split_at_null(field);
        proof {
            assert(field@ =~= self.bytes@.subrange(257, 265));
            assert forall|m: int| 0 <= m < e implies self.bytes@[257 + m] == magic@[m] by {
                assert(magic@[m] == field@[m]);
            }
        }
        if e == 7 && magic[0] == 0x75 && magic[1] == 0x73 && magic[2] == 0x74 && magic[3] == 0x61
            && magic[4] == 0x72 && magic[5] == 0x20 && magic[6] == 0x20 {
            proof {
                assert(self.bytes@[264] == field@[7]);
                assert(self.bytes@.subrange(257, 264) =~= gnu_magic());
            }
            TarType::GNUUnixStandardTar
        } else if e == 5 && magic[0] == 0x75 && magic[1] == 0x73 && magic[2] == 0x74 && magic[3]
            == 0x61 && magic[4] == 0x72 {
            proof {
                assert(self.bytes@[262] == field@[5]);
                assert(self.bytes@.subrange(257, 262) =~= ustar_magic());
                assert(!(self.bytes@.subrange(257, 264) =~= gnu_magic() && self.bytes@[264] == 0))
                    by {
                    if self.bytes@.subrange(257, 264) =~= gnu_magic() {
                        assert(self.bytes@[262] == gnu_magic()[5]);
                    }
                }
            }
            TarType::UnixStandardTar
        } else {
            proof {
                if self.bytes@.subrange(257, 264) =~= gnu_magic() && self.bytes@[264] == 0 {
                    assert forall|m: int| 0 <= m < 7 implies field@[m] != 0 by {
                        assert(field@[m] == gnu_magic()[m]);
                    }
                    assert(field@[7] == self.bytes@[264]);
                    assert(e == 7) by {
                        if e < 7 {
                            assert(field@[e as int] != 0);
                        }
                        if e == 8 {
                            assert(field@[7] != 0);
                        }
                    }
                    assert(magic@[0] == field@[0] && magic@[1] == field@[1] && magic@[2]
                        == field@[2] && magic@[3] == field@[3] && magic@[4] == field@[4]
                        && magic@[5] == field@[5] && magic@[6] == field@[6]);
                    assert(false);
                }
                if self.bytes@.subrange(257, 262) =~= ustar_magic() && self.bytes@[262] == 0 {
                    assert forall|m: int| 0 <= m < 5 implies field@[m] != 0 by {
                        assert(field@[m] == ustar_magic()[m]);
                    }
                    assert(field@[5] == self.bytes@[262]);
                    assert(e == 5) by {
                        if e < 5 {
                            assert(field@[e as int] != 0);
                        }
                        if e > 5 {
                            assert(field@[5] != 0);
                        }
                    }
                    assert(magic@[0] == field@[0] && magic@[1] == field@[1] && magic@[2]
                        == field@[2] && magic@[3] == field@[3] && magic@[4] == field@[4]);
                    assert(false);
                }
            }
            TarType::OldFashionTar
        }
    }
}

proof fn lemma_chksum_end(s: Seq<u8>, i: int)
    requires
        148 <= i <= 156,
        s.len() >= 345,
    ensures
        i <= spec_chksum_end(s, i) <= 156,
        forall|m: int| i <= m < spec_chksum_end(s, i) ==> s[m] != 0,
        spec_chksum_end(s, i) < 156 ==> s[spec_chksum_end(s, i)] == 0,
    decreases 156 - i,
{
    if i < 156 && s[i] != 0 {
        lemma_chksum_end(s, i + 1);
    }
}

proof fn lemma_byte_sum_snoc(s: Seq<u8>, a: int, b: int)
    requires
        a <= b < s.len(),
    ensures
        spec_byte_sum(s, a, b + 1) == spec_byte_sum(s, a, b) + s[b],
    decreases b - a,
{
    if a == b {
        assert(spec_byte_sum(s, a, b + 1) == s[a] + spec_byte_sum(s, a + 1, b + 1));
        assert(spec_byte_sum(s, a + 1, b + 1) == 0);
        assert(spec_byte_sum(s, a, b) == 0);
    } else {
        lemma_byte_sum_snoc(s, a + 1, b);
        assert(spec_byte_sum(s, a, b + 1) == s[a] + spec_byte_sum(s, a + 1, b + 1));
        assert(spec_byte_sum(s, a, b) == s[a] + spec_byte_sum(s, a + 1, b));
    }
}

/// Recognizes tar archives by header checksum.
#[derive(Debug, PartialEq)]
pub struct MagicTarMatcher {
    pub typ: Option<TarType>,
}

impl Default for MagicTarMatcher {
    fn default() -> (r: Self)
        ensures
            r.typ is None,
    {
        MagicTarMatcher { typ: None }
    }
}

impl MagicTarMatcher {
    /// Classifies a buffer: a tar flavor when it starts with a header
    /// whose checksum is valid.
    pub fn magic_match(&mut self, data: &[u8]) {
        self.typ = match TarRecord::from_bytes(data) {
            None => None,
            Some(record) => {
                if record.is_checksum_valid() {
                    Some(record.typ())
                } else {
                    None
                }
            },
        };
    }
}

} // verus!
