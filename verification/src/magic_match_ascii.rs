//! Classification of text encodings: plain ASCII, ISO-8859, extended
//! ASCII, UTF-7, and UTF-8, decided from the bytes alone.

use vstd::prelude::*;

verus! {

/// The recognized text encodings.
#[derive(Debug, PartialEq, Eq, Copy, Clone, Structural)]
pub enum AsciiType {
    Binary,
    Utf7,
    Utf8 { with_bom: bool },
    Utf16 { big_end: bool },
    Ascii,
    AsciiLatin1,
    AsciiExtended,
}

impl Default for AsciiType {
    fn default() -> (r: Self)
        ensures
            r == AsciiType::Binary,
    {
        AsciiType::Binary
    }
}

/// Character never seen in text.
pub const CLASS_F: u8 = 0;

/// Character of plain ASCII text.
pub const CLASS_T: u8 = 1;

/// Character of ISO-8859 text.
pub const CLASS_I: u8 = 2;

/// Character of non-ISO extended ASCII text.
pub const CLASS_X: u8 = 3;

/// The text class of a byte: the control characters BEL through CR and
/// ESC and all printable ASCII are plain text; NEL and the other high
/// controls are extended; bytes from 0xa0 up are ISO-8859.
pub open spec fn spec_char_class(c: u8) -> u8 {
    if 0x07 <= c <= 0x0d {
        CLASS_T
    } else if c == 0x1b {
        CLASS_T
    } else if 0x20 <= c <= 0x7e {
        CLASS_T
    } else if c == 0x85 {
        CLASS_T
    } else if 0x80 <= c <= 0x9f {
        CLASS_X
    } else if 0xa0 <= c {
        CLASS_I
    } else {
        CLASS_F
    }
}

/// The text class of a byte.
pub fn char_class(c: u8) -> (r: u8)
    ensures
        r == spec_char_class(c),
{
    if 0x07 <= c && c <= 0x0d {
        CLASS_T
    } else if c == 0x1b {
        CLASS_T
    } else if 0x20 <= c && c <= 0x7e {
        CLASS_T
    } else if c == 0x85 {
        CLASS_T
    } else if 0x80 <= c && c <= 0x9f {
        CLASS_X
    } else if 0xa0 <= c {
        CLASS_I
    } else {
        CLASS_F
    }
}

/// Whether UTF-8 accepts the bytes; the answer depends on the bytes
/// alone.
pub uninterp spec fn is_utf8(s: Seq<u8>) -> bool;

/// Relies on `std::str::from_utf8` to decide UTF-8 validity, a function
/// of the bytes alone.
#[verifier::external_body]
fn utf8_valid(s: &[u8]) -> (r: bool)
    ensures
        r == is_utf8(s@),
{
    std::str::from_utf8(s).is_ok()
}

/// Classifies byte buffers into text encodings.
#[derive(Debug, PartialEq)]
pub struct MagicAsciiMatcher {
    pub typ: AsciiType,
}

impl Default for MagicAsciiMatcher {
    fn default() -> (r: Self)
        ensures
            r.typ == AsciiType::Binary,
    {
        MagicAsciiMatcher { typ: AsciiType::Binary }
    }
}

impl MagicAsciiMatcher {
    /// Plain ASCII: every byte classifies as plain text.
    pub fn match_with_ascii(str: &[u8]) -> (r: Option<AsciiType>)
        ensures
            r is Some <==> (forall|m: int|
                0 <= m < str@.len() ==> spec_char_class(str@[m]) == CLASS_T),
            r matches Some(t) ==> t == AsciiType::Ascii,
    {
        let mut i: usize = 0;
        while i < str.len()
            invariant
                i <= str@.len(),
                forall|m: int| 0 <= m < i ==> spec_char_class(str@[m]) == CLASS_T,
            decreases str@.len() - i,
        {
            if char_class(str[i]) != CLASS_T {
                return None;
            }
            i = i + 1;
        }
        Some(AsciiType::Ascii)
    }

    /// ISO-8859 text: every byte classifies as plain or ISO text.
    pub fn match_with_latin1(str: &[u8]) -> (r: Option<AsciiType>)
        ensures
            r is Some <==> (forall|m: int|
                0 <= m < str@.len() ==> spec_char_class(str@[m]) == CLASS_T || spec_char_class(
                    str@[m],
                ) == CLASS_I),
            r matches Some(t) ==> t == AsciiType::AsciiLatin1,
    {
        let mut i: usize = 0;
        while i < str.len()
            invariant
                i <= str@.len(),
                forall|m: int|
                    0 <= m < i ==> spec_char_class(str@[m]) == CLASS_T || spec_char_class(str@[m])
                        == CLASS_I,
            decreases str@.len() - i,
        {
            let c = char_class(str[i]);
            if c != CLASS_T && c != CLASS_I {
                return None;
            }
            i = i + 1;
        }
        Some(AsciiType::AsciiLatin1)
    }

    /// Extended ASCII text: every byte classifies as text of some kind.
    pub fn match_with_extended(str: &[u8]) -> (r: Option<AsciiType>)
        ensures
            r is Some <==> (forall|m: int| 0 <= m < str@.len() ==> spec_char_class(str@[m]) != CLASS_F),
            r matches Some(t) ==> t == AsciiType::AsciiExtended,
    {
        let mut i: usize = 0;
        while i < str.len()
            invariant
                i <= str@.len(),
                forall|m: int| 0 <= m < i ==> spec_char_class(str@[m]) != CLASS_F,
            decreases str@.len() - i,
        {
            let c = char_class(str[i]);
            if c != CLASS_T && c != CLASS_I && c != CLASS_X {
                return None;
            }
            i = i + 1;
        }
        Some(AsciiType::AsciiExtended)
    }

    /// UTF-7: the signature `+/v` followed by `8`, `9`, `+`, or `/`.
    pub fn match_with_utf7(str: &[u8]) -> (r: Option<AsciiType>)
        ensures
            r is Some <==> (str@.len() > 4 && str@[0] == 0x2b && str@[1] == 0x2f && str@[2] == 0x76
                && (str@[3] == 0x38 || str@[3] == 0x39 || str@[3] == 0x2b || str@[3] == 0x2f)),
            r matches Some(t) ==> t == AsciiType::Utf7,
    {
        if str.len() > 4 && str[0] == 0x2b && str[1] == 0x2f && str[2] == 0x76 {
            match str[3] {
                0x38 | 0x39 | 0x2b | 0x2f => Some(AsciiType::Utf7),
                _ => None,
            }
        } else {
            None
        }
    }

    /// UTF-8, with or without a leading byte-order mark (EF BB BF).
    pub fn match_with_utf8(str: &[u8]) -> (r: Option<AsciiType>)
        ensures
            is_utf8(str@) ==> r == Some(AsciiType::Utf8 { with_bom: false }),
            !is_utf8(str@) ==> {
                let bom = str@.len() >= 3 && str@[0] == 0xef && str@[1] == 0xbb && str@[2] == 0xbf
                    && is_utf8(str@.skip(3));
                if bom {
                    r == Some(AsciiType::Utf8 { with_bom: true })
                } else {
                    r is None
                }
            },
    {
        if utf8_valid(str) {
            Some(AsciiType::Utf8 { with_bom: false })
        } else if str.len() >= 3 && str[0] == 0xef && str[1] == 0xbb && str[2] == 0xbf {
            proof {
                assert(str@.subrange(3, str@.len() as int) =~= str@.skip(3));
            }
            if utf8_valid(&str[3..str.len()]) {
                Some(AsciiType::Utf8 { with_bom: true })
            } else {
                None
            }
        } else {
            None
        }
    }

    /// Classifies a buffer, trying the narrowest class first.
    pub fn magic_match(&mut self, data: &[u8])
    {
        let t = match Self::match_with_ascii(data) {
            Some(t) => t,
            None => match Self::match_with_latin1(data) {
                Some(t) => t,
                None => match Self::match_with_extended(data) {
                    Some(t) => t,
                    None => match Self::match_with_utf7(data) {
                        Some(t) => t,
                        None => match Self::match_with_utf8(data) {
                            Some(t) => t,
                            None => AsciiType::Binary,
                        },
                    },
                },
            },
        };
        self.typ = t;
    }
}

} // verus!
