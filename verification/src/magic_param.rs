//! Engine limit parameters, set from a `name=value;...` command line.

use vstd::prelude::*;

use crate::parse_magic_aux_line::split_on;
use crate::str_utils::{dec_val, is_digit, read_dec, scan_digits};

verus! {

/// The tunable limits of the engine.
#[derive(Debug, PartialEq, Eq, Copy, Clone, Structural)]
pub struct MagicParam {
    pub indir: i32,
    pub name: i32,
    pub elf_phnum: i32,
    pub elf_shnum: i32,
    pub elf_notes: i32,
    pub regex: i32,
    pub bytes: i32,
}

impl Default for MagicParam {
    fn default() -> (r: Self)
        ensures
            r == (MagicParam {
                indir: 0i32,
                name: 0i32,
                elf_phnum: 0i32,
                elf_shnum: 0i32,
                elf_notes: 0i32,
                regex: 0i32,
                bytes: 0i32,
            }),
    {
        MagicParam { indir: 0, name: 0, elf_phnum: 0, elf_shnum: 0, elf_notes: 0, regex: 0, bytes: 0 }
    }
}

/// The result of assigning `v` to the field `key` names; `None` for an
/// unknown field.
pub open spec fn spec_assign(p: MagicParam, key: Seq<u8>, v: i32) -> Option<MagicParam> {
    if key =~= key_indir() {
        Some(MagicParam { indir: v, ..p })
    } else if key =~= key_name() {
        Some(MagicParam { name: v, ..p })
    } else if key =~= key_elf_phnum() {
        Some(MagicParam { elf_phnum: v, ..p })
    } else if key =~= key_elf_shnum() {
        Some(MagicParam { elf_shnum: v, ..p })
    } else if key =~= key_elf_notes() {
        Some(MagicParam { elf_notes: v, ..p })
    } else if key =~= key_regex() {
        Some(MagicParam { regex: v, ..p })
    } else if key =~= key_bytes() {
        Some(MagicParam { bytes: v, ..p })
    } else {
        None
    }
}

pub open spec fn key_indir() -> Seq<u8> {
    seq![0x69u8, 0x6eu8, 0x64u8, 0x69u8, 0x72u8]
}

pub open spec fn key_name() -> Seq<u8> {
    seq![0x6eu8, 0x61u8, 0x6du8, 0x65u8]
}

pub open spec fn key_elf_phnum() -> Seq<u8> {
    seq![0x65u8, 0x6cu8, 0x66u8, 0x5fu8, 0x70u8, 0x68u8, 0x6eu8, 0x75u8, 0x6du8]
}

pub open spec fn key_elf_shnum() -> Seq<u8> {
    seq![0x65u8, 0x6cu8, 0x66u8, 0x5fu8, 0x73u8, 0x68u8, 0x6eu8, 0x75u8, 0x6du8]
}

pub open spec fn key_elf_notes() -> Seq<u8> {
    seq![0x65u8, 0x6cu8, 0x66u8, 0x5fu8, 0x6eu8, 0x6fu8, 0x74u8, 0x65u8, 0x73u8]
}

pub open spec fn key_regex() -> Seq<u8> {
    seq![0x72u8, 0x65u8, 0x67u8, 0x65u8, 0x78u8]
}

pub open spec fn key_bytes() -> Seq<u8> {
    seq![0x62u8, 0x79u8, 0x74u8, 0x65u8, 0x73u8]
}

fn bytes_eq(a: &[u8], b: &[u8]) -> (r: bool)
    ensures
        r == (a@ =~= b@),
{
    if a.len() != b.len() {
        proof {
            assert(!(a@ =~= b@));
        }
        return false;
    }
    let mut k: usize = 0;
    while k < a.len()
        invariant
            k <= a@.len(),
            a@.len() == b@.len(),
            forall|m: int| 0 <= m < k ==> a@[m] == b@[m],
        decreases a@.len() - k,
    {
        if a[k] != b[k] {
            proof {
                assert(a@[k as int] != b@[k as int]);
            }
            return false;
        }
        k = k + 1;
    }
    proof {
        assert(a@ =~= b@);
    }
    true
}

fn assign(p: MagicParam, key: &[u8], v: i32) -> (r: Option<MagicParam>)
    ensures
        r == spec_assign(p, key@, v),
{
    let mut k_indir: Vec<u8> = Vec::new();
    k_indir.push(0x69);
    k_indir.push(0x6e);
    k_indir.push(0x64);
    k_indir.push(0x69);
    k_indir.push(0x72);
    proof {
        assert(k_indir@ =~= key_indir());
    }
    let mut k_name: Vec<u8> = Vec::new();
    k_name.push(0x6e);
    k_name.push(0x61);
    k_name.push(0x6d);
    k_name.push(0x65);
    proof {
        assert(k_name@ =~= key_name());
    }
    let mut k_phnum: Vec<u8> = Vec::new();
    k_phnum.push(0x65);
    k_phnum.push(0x6c);
    k_phnum.push(0x66);
    k_phnum.push(0x5f);
    k_phnum.push(0x70);
    k_phnum.push(0x68);
    k_phnum.push(0x6e);
    k_phnum.push(0x75);
    k_phnum.push(0x6d);
    proof {
        assert(k_phnum@ =~= key_elf_phnum());
    }
    let mut k_shnum: Vec<u8> = Vec::new();
    k_shnum.push(0x65);
    k_shnum.push(0x6c);
    k_shnum.push(0x66);
    k_shnum.push(0x5f);
    k_shnum.push(0x73);
    k_shnum.push(0x68);
    k_shnum.push(0x6e);
    k_shnum.push(0x75);
    k_shnum.push(0x6d);
    proof {
        assert(k_shnum@ =~= key_elf_shnum());
    }
    let mut k_notes: Vec<u8> = Vec::new();
    k_notes.push(0x65);
    k_notes.push(0x6c);
    k_notes.push(0x66);
    k_notes.push(0x5f);
    k_notes.push(0x6e);
    k_notes.push(0x6f);
    k_notes.push(0x74);
    k_notes.push(0x65);
    k_notes.push(0x73);
    proof {
        assert(k_notes@ =~= key_elf_notes());
    }
    let mut k_regex: Vec<u8> = Vec::new();
    k_regex.push(0x72);
    k_regex.push(0x65);
    k_regex.push(0x67);
    k_regex.push(0x65);
    k_regex.push(0x78);
    proof {
        assert(k_regex@ =~= key_regex());
    }
    let mut k_bytes: Vec<u8> = Vec::new();
    k_bytes.push(0x62);
    k_bytes.push(0x79);
    k_bytes.push(0x74);
    k_bytes.push(0x65);
    k_bytes.push(0x73);
    proof {
        assert(k_bytes@ =~= key_bytes());
    }
    if bytes_eq(key, k_indir.as_slice()) {
        Some(MagicParam { indir: v, ..p })
    } else if bytes_eq(key, k_name.as_slice()) {
        Some(MagicParam { name: v, ..p })
    } else if bytes_eq(key, k_phnum.as_slice()) {
        Some(MagicParam { elf_phnum: v, ..p })
    } else if bytes_eq(key, k_shnum.as_slice()) {
        Some(MagicParam { elf_shnum: v, ..p })
    } else if bytes_eq(key, k_notes.as_slice()) {
        Some(MagicParam { elf_notes: v, ..p })
    } else if bytes_eq(key, k_regex.as_slice()) {
        Some(MagicParam { regex: v, ..p })
    } else if bytes_eq(key, k_bytes.as_slice()) {
        Some(MagicParam { bytes: v, ..p })
    } else {
        None
    }
}

/// Parses a decimal `i32` with an optional leading minus.
fn parse_i32(s: &[u8]) -> (r: Option<i32>)
    ensures
        r matches Some(v) ==> {
            let neg = s@.len() > 0 && s@[0] == 0x2d;
            let a = if neg {
                1int
            } else {
                0int
            };
            &&& a < s@.len()
            &&& forall|m: int| a <= m < s@.len() ==> is_digit(s@[m])
            &&& (v as int) == (if neg {
                -dec_val(s@.subrange(a, s@.len() as int))
            } else {
                dec_val(s@.subrange(a, s@.len() as int))
            })
        },
{
    if s.len() == 0 {
        return None;
    }
    let neg = s[0] == 0x2d;
    let a: usize = if neg {
        1
    } else {
        0
    };
    if a >= s.len() {
        return None;
    }
    let e = scan_digits(s, a);
    if e != s.len() {
        return None;
    }
    match read_dec(s, a, e) {
        None => None,
        Some(v) => {
            if neg {
                if v > 0x80000000 {
                    None
                } else if v == 0x80000000 {
                    Some(i32::MIN)
                } else {
                    Some(-(v as i32))
                }
            } else {
                if v > 0x7fffffff {
                    None
                } else {
                    Some(v as i32)
                }
            }
        },
    }
}

impl MagicParam {
    /// Parses a `name=value;...` line into the parameter set, starting
    /// from the defaults.  An assignment without exactly one `=`, an
    /// unknown field, or a bad number is an error.
    pub fn from_cmd_line(line: &[u8]) -> (r: Result<MagicParam, ()>)
    {
        let mut p = MagicParam::default();
        let pieces = split_on(line, 0x3b);  // ;
        let mut i: usize = 0;
        while i < pieces.len()
            decreases pieces@.len() - i,
        {
            let parts = split_on(pieces[i].as_slice(), 0x3d);  // =
            if parts.len() != 2 {
                return Err(());
            }
            let v = match parse_i32(parts[1].as_slice()) {
                None => {
                    return Err(());
                },
                Some(v) => v,
            };
            p = match assign(p, parts[0].as_slice(), v) {
                None => {
                    return Err(());
                },
                Some(q) => q,
            };
            i = i + 1;
        }
        Ok(p)
    }
}

} // verus!
