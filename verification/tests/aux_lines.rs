//! Tests of auxiliary-line parsing: MIME, Apple, extensions, strength.

use filemagic::expr::Operator;
use filemagic::magic_line::{AuxLine, AuxStrength, AuxType, AuxTypes};
use filemagic::parse_magic_aux_line::{AuxFactor, AuxInfo, FactorOp};
use filemagic::str_utils::ensure_goodchars;

#[test]
fn test_parse_line_ext() {
    let ext = "txt/doc/pyc";
    let aux = AuxInfo::parse_line_ext(ext.as_bytes()).unwrap();
    assert_eq!(
        AuxInfo::Types(AuxTypes {
            mime: None,
            apple: None,
            exts: vec![b"txt".to_vec(), b"doc".to_vec(), b"pyc".to_vec()],
        }),
        aux
    );
}

#[test]
fn test_parse_strength() {
    let testcases = vec![
        (
            "+ 123",
            AuxInfo::Strength(AuxFactor {
                op: FactorOp::Plus,
                val: 123,
            }),
        ),
        (
            "-567",
            AuxInfo::Strength(AuxFactor {
                op: FactorOp::Minus,
                val: 567,
            }),
        ),
    ];
    for (s, expect) in testcases {
        let aux = AuxInfo::parse_line_strength(s.as_bytes()).unwrap();
        assert_eq!(expect, aux);
    }
}

#[test]
fn test_parse_aux_line() {
    let aux = AuxInfo::parse_aux_line(b"mime  text/x-ruby").unwrap();
    match aux {
        AuxInfo::Types(t) => assert_eq!(t.mime, Some(b"text/x-ruby".to_vec())),
        other => panic!("unexpected {:?}", other),
    }
    let aux = AuxInfo::parse_aux_line(b"apple  ????TEXT").unwrap();
    match aux {
        AuxInfo::Types(t) => assert_eq!(t.apple, Some(b"????TEXT".to_vec())),
        other => panic!("unexpected {:?}", other),
    }
    let aux = AuxInfo::parse_aux_line(b"ext  txt/doc/pyc").unwrap();
    match aux {
        AuxInfo::Types(t) => {
            assert_eq!(t.exts, vec![b"txt".to_vec(), b"doc".to_vec(), b"pyc".to_vec()])
        }
        other => panic!("unexpected {:?}", other),
    }
}

#[test]
fn test_parse_extra() {
    let raw = "hello+-0";
    let goodchars = "+-";
    assert_eq!(
        ensure_goodchars(raw.as_bytes(), goodchars.as_bytes())
            .unwrap()
            .as_slice(),
        raw.as_bytes()
    )
}

#[test]
fn mime_rejects_semicolon() {
    // `!:mime text/x;` carries a character outside the MIME class
    let aux = AuxInfo::parse_line_mime(b"text/x;");
    match aux {
        AuxInfo::Types(t) => assert_eq!(t.mime, None),
        other => panic!("unexpected {:?}", other),
    }
    assert!(AuxLine::parse_line(b"mime text/x;").is_err());
}

#[test]
fn ext_parses_three_extensions() {
    // `!:ext txt/doc/py` names three extensions
    match AuxLine::parse_line(b"ext txt/doc/py").unwrap() {
        AuxLine::Type(AuxType::Exts(es)) => {
            assert_eq!(es, vec![b"txt".to_vec(), b"doc".to_vec(), b"py".to_vec()])
        }
        other => panic!("unexpected {:?}", other),
    }
}

#[test]
fn aux_line_strength_maps_operator() {
    match AuxLine::parse_line(b"strength *3").unwrap() {
        AuxLine::Strength(AuxStrength { op, val }) => {
            assert_eq!(op, Operator::Multiply);
            assert_eq!(val, 3);
        }
        other => panic!("unexpected {:?}", other),
    }
    assert!(AuxLine::parse_line(b"strength ?3").is_err());
    assert!(AuxLine::parse_line(b"nonsense x").is_err());
}

#[test]
fn aux_line_strength_allows_blank() {
    match AuxLine::parse_line(b"strength + 12").unwrap() {
        AuxLine::Strength(AuxStrength { op, val }) => {
            assert_eq!(op, Operator::Add);
            assert_eq!(val, 12);
        }
        other => panic!("unexpected {:?}", other),
    }
}
