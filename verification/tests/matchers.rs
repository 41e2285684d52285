//! Tests of the independent classifiers and the parameter parser.

use filemagic::ext_buf::cast_at;
use filemagic::magic_match_ascii::{AsciiType, MagicAsciiMatcher};
use filemagic::magic_match_json::MagicJsonMatcher;
use filemagic::magic_match_tar::{MagicTarMatcher, TarRecord, TarType, TAR_RECORD_SIZE};
use filemagic::magic_param::MagicParam;
use filemagic::raw_bytes::split_at_null;

#[test]
fn magic_match_ascii_test() {
    println!("hello, world");
}

#[test]
fn ascii_classification() {
    let mut m = MagicAsciiMatcher::default();
    m.magic_match(b"hello, world");
    assert_eq!(m.typ, AsciiType::Ascii);
    m.magic_match(&[0x68, 0xe9, 0x6c]);  // h, e-acute (latin-1), l
    assert_eq!(m.typ, AsciiType::AsciiLatin1);
    m.magic_match(&[0x68, 0x91]);
    assert_eq!(m.typ, AsciiType::AsciiExtended);
    m.magic_match(&[0x2b, 0x2f, 0x76, 0x38, 0x00, 0x01]);
    assert_eq!(m.typ, AsciiType::Utf7);
    // a two-byte UTF-8 sequence is not ascii/latin1/extended-only text
    m.magic_match(&[0x00, 0xc3, 0xa9]);
    assert_eq!(m.typ, AsciiType::Utf8 { with_bom: false });
    m.magic_match(&[0x00, 0xff, 0xfe]);
    assert_eq!(m.typ, AsciiType::Binary);
}

#[test]
fn utf8_wrapper_depends_on_its_argument() {
    // a result that ignored its argument could not tell these apart
    assert_eq!(
        MagicAsciiMatcher::match_with_utf8(&[0x00, 0x61]),
        Some(AsciiType::Utf8 { with_bom: false })
    );
    assert_eq!(MagicAsciiMatcher::match_with_utf8(&[0x00, 0xff]), None);
    assert_eq!(
        MagicAsciiMatcher::match_with_utf8(&[0xef, 0xbb, 0xbf, 0x00, 0xff]),
        None
    );
    // a leading byte-order mark is itself well-formed UTF-8, so the
    // whole buffer already passes without special handling
    assert_eq!(
        MagicAsciiMatcher::match_with_utf8(&[0xef, 0xbb, 0xbf, 0x61]),
        Some(AsciiType::Utf8 { with_bom: false })
    );
}

#[test]
fn magic_match_json_test() {
    let bytes = "{ \"name\": 10, \"age\": 12 }".as_bytes();
    let mut matcher = MagicJsonMatcher::default();
    matcher.magic_match(bytes);
    assert!(matcher.valid_json);
}

#[test]
fn json_wrapper_depends_on_its_argument() {
    let mut matcher = MagicJsonMatcher::default();
    matcher.magic_match(b"{ \"k\": 1 }");
    assert!(matcher.valid_json);
    matcher.magic_match(b"not json at all");
    assert!(!matcher.valid_json);
    matcher.magic_match(b"[1, 2, 3]");
    assert!(!matcher.valid_json, "a top-level array is not an object");
}

fn sample_tar_header() -> Vec<u8> {
    let mut h = vec![0u8; TAR_RECORD_SIZE];
    // name "f", magic "ustar", checksum computed below
    h[0] = b'f';
    for (i, b) in b"ustar".iter().enumerate() {
        h[257 + i] = *b;
    }
    // checksum: sum of bytes with the checksum field as spaces
    let mut sum: u32 = 8 * 0x20;
    for (i, b) in h.iter().enumerate() {
        if !(148..156).contains(&i) {
            sum += *b as u32;
        }
    }
    let digits = format!("{:o}", sum);
    for (i, b) in digits.as_bytes().iter().enumerate() {
        h[148 + i] = *b;
    }
    // the NUL after the digits is already there
    h
}

#[test]
fn tar_checksum_round_trip() {
    let h = sample_tar_header();
    let record = TarRecord::from_bytes(&h).unwrap();
    assert_eq!(record.get_checksum(), Some(record.compute_checksum()));
    assert!(record.is_checksum_valid());
    assert_eq!(record.typ(), TarType::UnixStandardTar);
}

#[test]
fn tar_matcher_flags_valid_headers() {
    let h = sample_tar_header();
    let mut m = MagicTarMatcher::default();
    m.magic_match(&h);
    assert_eq!(m.typ, Some(TarType::UnixStandardTar));
    // corrupt a byte: the checksum no longer holds
    let mut bad = h.clone();
    bad[0] = b'x';
    m.magic_match(&bad);
    assert_eq!(m.typ, None);
    // too short for a header
    m.magic_match(&h[..100]);
    assert_eq!(m.typ, None);
}

#[test]
fn tar_gnu_magic() {
    let mut h = sample_tar_header();
    for i in 257..265 {
        h[i] = 0;
    }
    for (i, b) in b"ustar  ".iter().enumerate() {
        h[257 + i] = *b;
    }
    let record = TarRecord::from_bytes(&h).unwrap();
    assert_eq!(record.typ(), TarType::GNUUnixStandardTar);
}

#[test]
fn test_from_cmd_line() {
    let input = "name=10;regex=12";

    let get = MagicParam::from_cmd_line(input.as_bytes()).unwrap();
    let expect = MagicParam {
        name: 10,
        regex: 12,
        ..MagicParam::default()
    };
    assert_eq!(get, expect);
}

#[test]
fn from_cmd_line_rejects_bad_input() {
    assert!(MagicParam::from_cmd_line(b"name").is_err());
    assert!(MagicParam::from_cmd_line(b"nosuch=1").is_err());
    assert!(MagicParam::from_cmd_line(b"name=ten").is_err());
    assert!(MagicParam::from_cmd_line(b"indir=-3").is_ok());
}

#[test]
fn cast_at_windows() {
    let data = [1u8, 2, 3, 4, 5];
    assert_eq!(cast_at(&data, 1, 3).unwrap(), &[2, 3, 4]);
    assert!(cast_at(&data, 3, 3).is_none());
    assert_eq!(cast_at(&data, 5, 0).unwrap(), &[] as &[u8]);
}

#[test]
fn split_at_null_cuts_at_first_nul() {
    let bytes = [0x61u8, 0x62, 0x00, 0x63];
    let (head, pos) = split_at_null(&bytes);
    assert_eq!(head, &[0x61, 0x62]);
    assert_eq!(pos, 2);
    let no_nul = [0x61u8, 0x62];
    let (head2, pos2) = split_at_null(&no_nul);
    assert_eq!(head2, &[0x61, 0x62]);
    assert_eq!(pos2, 2);
}
