//! Tests of the rule-line parser.

use filemagic::expr::{Action, Expression, UnOperator, FLAG_PSTRING_2_BE};
use filemagic::expr_value::{ValType, Value};
use filemagic::expr::Operator;
use filemagic::expr::{FLAG_COMPACT_WHITESPACE, FLAG_IGNORE_LOWERCASE};
use filemagic::magic_line::MagicLine;

#[test]
fn magic_line_parse_test() {
    let cases = vec![
        ">>>>>>>>>>>>>>&-1\tstring\t\t>\0\t\t1st record",
        ">>>&(&10.l-(2)) ubelong%0x123 <10 this is a good|123",
        ">>>&(&10.l-(2)) string/w/cW/20 asdf this is a good|123",
    ];
    for s in cases {
        println!("parsing {}...", s);
        let ml = MagicLine::parse_line2(s.as_bytes());
        println!("magic line: {:?}", ml)
    }
}

#[test]
fn test_is_entry_line() {
    let testcases = vec![
        (">>>>&9\tulelong\tx\tattributes 0x%x", false),
        ("9\tulelong\tx\tattributes 0x%x", true),
        ("&9\tulelong\tx\tattributes 0x%x", true),
        ("# extracted from header/code files by Graeme Wilford", false),
    ];

    for (s, expect) in testcases {
        println!("comparing {}...", s);
        assert_eq!(MagicLine::is_entry_line(s.as_bytes()), expect);
    }
}

#[test]
fn parse_line_basic_fields() {
    let ml = MagicLine::parse_line(b">>8\tbelong\t=5\tsome text|42").unwrap();
    assert_eq!(ml.cont_lvl, 2);
    assert_eq!(ml.typ.typ, ValType::BELong);
    assert!(!ml.typ.unsigned);
    assert_eq!(ml.desc, b" some text".to_vec());
    assert_eq!(ml.typ_code, 42);
    assert!(ml.aux.is_none());
}

#[test]
fn parse_line_unsigned_prefix_and_use_keyword() {
    let ml = MagicLine::parse_line(b"0\tubyte\t=1\tx").unwrap();
    assert_eq!(ml.typ.typ, ValType::Byte);
    assert!(ml.typ.unsigned);
    // `use` starts with `u` but is a type of its own
    let ml2 = MagicLine::parse_line(b"0\tuse\tx\tx").unwrap();
    assert_eq!(ml2.typ.typ, ValType::Use);
    assert!(!ml2.typ.unsigned);
}

#[test]
fn parse_line_backspace_desc() {
    let ml = MagicLine::parse_line(b"0\tbyte\tx\t\\bno space").unwrap();
    assert_eq!(ml.desc, b"no space".to_vec());
    let ml2 = MagicLine::parse_line(b"0\tbyte\tx\tspaced").unwrap();
    assert_eq!(ml2.desc, b" spaced".to_vec());
}

#[test]
fn parse_line_escapes_in_string_literal() {
    let ml = MagicLine::parse_line(b"0\tstring\t=\\x41\\102\\n\\q\tdesc").unwrap();
    // \x41 -> A, \102 -> B (octal), \n -> newline, \q -> q
    match &*ml.exp {
        Expression::UnOp(UnOperator::Absolute, _, Some(Action::Num { val, .. })) => {
            match &**val {
                Expression::Val(Value::Bytes(b)) => {
                    assert_eq!(b, &vec![0x41u8, 0x42, 0x0a, 0x71]);
                }
                other => panic!("unexpected literal {:?}", other),
            }
        }
        other => panic!("unexpected expression {:?}", other),
    }
}

#[test]
fn parse_line_wildcard_has_no_relation() {
    let ml = MagicLine::parse_line(b"0\tlelong\tx\tanything").unwrap();
    match &*ml.exp {
        Expression::UnOp(UnOperator::Indirect(t), _, _) => {
            assert_eq!(t.typ, ValType::LELong);
        }
        other => panic!("unexpected expression {:?}", other),
    }
    assert!(ml.reln_op().is_none());
}

#[test]
fn parse_line_bang_means_xor() {
    let ml = MagicLine::parse_line(b"0\tbyte\t!5\tquirk").unwrap();
    assert_eq!(ml.reln_op(), Some(Operator::Xor));
}

#[test]
fn parse_line_pstring_flags_clear_each_other() {
    // B then H: the later length-prefix flag wins
    let ml = MagicLine::parse_line(b"0\tpstring/BH\tx\tp").unwrap();
    match &*ml.exp {
        Expression::UnOp(UnOperator::Indirect(_), _, Some(Action::Str { flags, range })) => {
            assert_eq!(flags.bits, FLAG_PSTRING_2_BE);
            assert_eq!(*range, 0);
        }
        other => panic!("unexpected expression {:?}", other),
    }
}

#[test]
fn parse_line_string_mask_range_and_flags() {
    let ml = MagicLine::parse_line(b"0\tstring/w/cW/20\tasdf\tgood").unwrap();
    match &*ml.exp {
        Expression::UnOp(UnOperator::Absolute, inner, _) => match &**inner {
            Expression::UnOp(UnOperator::Indirect(_), _, Some(Action::Str { flags, range })) => {
                assert!(flags.bits & FLAG_IGNORE_LOWERCASE != 0);
                assert!(flags.bits & FLAG_COMPACT_WHITESPACE != 0);
                assert_eq!(*range, 20);
            }
            other => panic!("unexpected inner {:?}", other),
        },
        other => panic!("unexpected expression {:?}", other),
    }
}

#[test]
fn parse_line_rejects_malformed() {
    assert!(MagicLine::parse_line(b"0").is_none());
    assert!(MagicLine::parse_line(b"0 nosuchtype =5 d").is_none());
    assert!(MagicLine::parse_line(b"0 belong").is_none());
}

#[test]
fn parse_line_hex_and_negative_offsets() {
    let ml = MagicLine::parse_line(b"&-4\tleshort\t=0x1f\td").unwrap();
    assert_eq!(ml.cont_lvl, 0);
    // the offset is a relative node around the literal -4
    match &*ml.exp {
        Expression::UnOp(UnOperator::Absolute, inner, _) => match &**inner {
            Expression::UnOp(UnOperator::Indirect(_), ofs, _) => match &**ofs {
                Expression::UnOp(UnOperator::Relative, v, None) => match &**v {
                    Expression::Val(Value::I64(-4)) => {}
                    other => panic!("unexpected offset literal {:?}", other),
                },
                other => panic!("unexpected offset {:?}", other),
            },
            other => panic!("unexpected inner {:?}", other),
        },
        other => panic!("unexpected expression {:?}", other),
    }
}

#[test]
fn test_magic_parse_entry_line() {
    let m = MagicLine::parse_line(">>>>&9\tulelong\tx\tattributes 0x%x".as_bytes()).unwrap();
    assert_eq!(m.typ.typ, ValType::LELong);
    assert_eq!(m.typ.unsigned, true);
    assert_eq!(m.desc, b" attributes 0x%x".to_vec());

    let m = MagicLine::parse_line("0\tlestring16\tx\tattributes 0x%x|123".as_bytes()).unwrap();
    assert_eq!(m.typ.typ, ValType::LEString16);
    assert_eq!(m.typ.unsigned, false);
    assert_eq!(m.desc, b" attributes 0x%x".to_vec());
    assert_eq!(m.typ_code, 123);

    let m = MagicLine::parse_line(">8\tlestring16/c/W\tx\t\\b, attributes 0x%x".as_bytes())
        .unwrap();
    assert_eq!(m.typ.typ, ValType::LEString16);
    assert_eq!(m.typ.unsigned, false);
    match &*m.exp {
        Expression::UnOp(UnOperator::Indirect(_), _, Some(Action::Str { flags, range })) => {
            println!("flags: {}, range: {}", flags.bits(), range);
            assert!(flags.bits & FLAG_IGNORE_LOWERCASE != 0);
            assert!(flags.bits & FLAG_COMPACT_WHITESPACE != 0);
        }
        other => panic!("unexpected expression {:?}", other),
    }
    assert_eq!(m.desc, b", attributes 0x%x".to_vec());
}
