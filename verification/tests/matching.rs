//! End-to-end match scenarios: rules against byte buffers.

use filemagic::expr_value::Value;
use filemagic::magic_file::MagicFile;
use filemagic::magic_match_softmagic::MagicMatcher;

fn to_lines(xs: &[&str]) -> Vec<Vec<u8>> {
    xs.iter().map(|s| s.as_bytes().to_vec()).collect()
}

fn run(rules: &[&str], data: &[u8]) -> MagicMatcher {
    let magic = MagicFile::parse(&to_lines(rules));
    let mut matcher = MagicMatcher::new(magic);
    matcher.magic_match(data);
    matcher
}

const PDF_BYTES: &[u8] = &[0x25, 0x50, 0x44, 0x46, 0x2d, 0x31, 0x2e, 0x34]; // %PDF-1.4

#[test]
fn string_compare_is_anchored() {
    // the literal lacks the leading %: anchored compare finds nothing
    let m = run(&["0\tstring\t=PDF-\tPDF document"], PDF_BYTES);
    assert_eq!(m.match_rec.len(), 0);
}

#[test]
fn string_compare_matches_pdf() {
    let m = run(&["0\tstring\t=%PDF-\tPDF document"], PDF_BYTES);
    assert_eq!(m.match_rec.len(), 1);
    assert_eq!(m.match_rec[0].desc, b" PDF document".to_vec());
    assert_eq!(m.match_rec[0].matched_start, 0);
    assert_eq!(m.match_rec[0].matched_end, 5);
}

const JAVA_BYTES: &[u8] = &[0xca, 0xfe, 0xba, 0xbe, 0x00, 0x00, 0x00, 0x34];

#[test]
fn belong_matches_java_class() {
    let m = run(&["0\tbelong\t=0xCAFEBABE\tJava class"], JAVA_BYTES);
    assert_eq!(m.match_rec.len(), 1);
    assert_eq!(m.match_rec[0].matched_end, 4);
}

#[test]
fn child_line_matches_version() {
    let m = run(
        &[
            "0\tbelong\t=0xCAFEBABE\tJava class",
            ">6\tbeshort\tx\tversion \\b%d",
        ],
        JAVA_BYTES,
    );
    assert_eq!(m.match_rec.len(), 2);
    assert_eq!(m.match_rec[0].desc, b" Java class".to_vec());
    assert_eq!(m.match_rec[1].fetched_val, Value::I16(0x34));
    assert_eq!(m.match_rec[1].matched_start, 6);
    assert_eq!(m.match_rec[1].matched_end, 8);
}

#[test]
fn failed_root_blocks_children() {
    let m = run(
        &[
            "0\tbelong\t=0xDEADBEEF\tnot this",
            ">6\tbeshort\tx\tversion",
        ],
        JAVA_BYTES,
    );
    assert_eq!(m.match_rec.len(), 0);
}

#[test]
fn mask_reduces_fetched_value() {
    // fetched 0xEFCD12AB, masked with 0xFF00 gives 0x1200
    let data = &[0xabu8, 0x12, 0xcd, 0xef];
    let m = run(&["0\tulelong&0xFF00\t=0x1200\ttagged"], data);
    assert_eq!(m.match_rec.len(), 1);
    assert_eq!(m.match_rec[0].fetched_val, Value::U32(0x1200));
}

#[test]
fn indirect_offset_fetches_through() {
    let data = &[0x00u8, 0x00, 0x00, 0x04, 0x7f, 0x00, 0x00, 0x00];
    // read a big-endian long at 0 (= 4), fetch the byte there
    let m = run(&["(0.L)\tubyte\t=0x7F\tmarker"], data);
    assert_eq!(m.match_rec.len(), 1);
    assert_eq!(m.match_rec[0].matched_start, 4);
    // adding 4 seeks past the data: a non-match, not an error
    let m2 = run(&["(0.L+4)\tubyte\t=0x7F\tmarker"], data);
    assert_eq!(m2.match_rec.len(), 0);
}

#[test]
fn wildcard_fetches_value() {
    let data = &[0x2au8, 0x00];
    let m = run(&["0\tubyte\tx\tanswer %d"], data);
    assert_eq!(m.match_rec.len(), 1);
    assert_eq!(m.match_rec[0].fetched_val, Value::U8(0x2a));
}

#[test]
fn string_greater_than_empty() {
    // the `>\0` idiom: any non-empty string matches
    let data = b"hello\0rest";
    let m = run(&["0\tstring\t>\0\tnonempty"], data);
    assert_eq!(m.match_rec.len(), 1);
    assert_eq!(m.match_rec[0].fetched_val, Value::Bytes(b"hello".to_vec()));
}

#[test]
fn search_scans_a_window() {
    let data = b"....needle....";
    let m = run(&["0\tsearch/10\t=needle\tfound"], data);
    assert_eq!(m.match_rec.len(), 1);
    assert_eq!(m.match_rec[0].matched_start, 4);
}

#[test]
fn case_folding_flag_matches_either_case() {
    let data = b"HELLO";
    // lowercase literal with the lowercase-folding flag matches uppercase data
    let m = run(&["0\tstring/c\t=hello\tgreets"], data);
    assert_eq!(m.match_rec.len(), 1);
    // without the flag it does not
    let m2 = run(&["0\tstring\t=hello\tgreets"], data);
    assert_eq!(m2.match_rec.len(), 0);
}

#[test]
fn division_by_zero_is_non_match() {
    let data = &[0x08u8, 0, 0, 0];
    let m = run(&["0\tulelong/0\t=1\tweird"], data);
    assert_eq!(m.match_rec.len(), 0);
}

#[test]
fn relative_child_offset() {
    // the child offset &0 is relative to the end of the parent match
    let data = b"AB\x05";
    let m = run(&["0\tstring\t=AB\tpair", ">&0\tubyte\t=5\tthen five"], data);
    assert_eq!(m.match_rec.len(), 2);
    assert_eq!(m.match_rec[1].matched_start, 2);
}

#[test]
fn entries_all_tried() {
    let data = b"AB";
    let m = run(
        &["0\tstring\t=AB\tfirst", "0\tubyte\t=0x41\tsecond"],
        data,
    );
    assert_eq!(m.match_rec.len(), 2);
}

#[test]
fn bit_test_relations() {
    // `&` requires all literal bits set, `^` requires none
    let data = &[0x81u8];
    let m = run(&["0\tubyte\t&0x80\thigh bit"], data);
    assert_eq!(m.match_rec.len(), 1);
    let m2 = run(&["0\tubyte\t&0x80\thigh bit"], &[0x7fu8]);
    assert_eq!(m2.match_rec.len(), 0);
    let m3 = run(&["0\tubyte\t^0x40\tbit clear"], data);
    assert_eq!(m3.match_rec.len(), 1);
    let m4 = run(&["0\tubyte\t^0x40\tbit clear"], &[0x40u8]);
    assert_eq!(m4.match_rec.len(), 0);
}

#[test]
fn ordering_relations_respect_signedness() {
    // fetched signed byte 0xfe is -2: less than 1
    let data = &[0xfeu8];
    let m = run(&["0\tbyte\t<1\tnegative"], data);
    assert_eq!(m.match_rec.len(), 1);
    // fetched unsigned byte 0xfe is 254: not less than 1
    let m2 = run(&["0\tubyte\t<1\tsmall"], data);
    assert_eq!(m2.match_rec.len(), 0);
}

#[test]
fn modulo_mask_applies() {
    let data = &[0x0au8];
    let m = run(&["0\tubyte%3\t=1\tremainder"], data);
    assert_eq!(m.match_rec.len(), 1);
}

#[test]
fn pstring_matches_after_length_prefix() {
    // one-byte length prefix 2, then the content
    let data = b"\x02hi";
    let m = run(&["0\tpstring\t=hi\tp"], data);
    assert_eq!(m.match_rec.len(), 1);
    assert_eq!(m.match_rec[0].fetched_val, Value::Bytes(b"hi".to_vec()));
    let m2 = run(&["0\tpstring\t=ho\tp"], data);
    assert_eq!(m2.match_rec.len(), 0);
    // a prefix running past the buffer is a non-match
    let m3 = run(&["0\tpstring\t=hi\tp"], b"\x09hi");
    assert_eq!(m3.match_rec.len(), 0);
}

#[test]
fn string16_matches_code_units() {
    let data = b"h\x00i\x00";
    let m = run(&["0\tlestring16\t=hi\ts"], data);
    assert_eq!(m.match_rec.len(), 1);
    assert_eq!(m.match_rec[0].matched_end, 4);
    let m2 = run(&["0\tbestring16\t=hi\ts"], data);
    assert_eq!(m2.match_rec.len(), 0);
    let be = b"\x00h\x00i";
    let m3 = run(&["0\tbestring16\t=hi\ts"], be);
    assert_eq!(m3.match_rec.len(), 1);
}

#[test]
fn unsupported_string_kinds_do_not_match() {
    // the verified engine leaves regex comparisons unmatched
    let data = b"\x02hi";
    let m2 = run(&["0\tregex\t=h.\tr"], data);
    assert_eq!(m2.match_rec.len(), 0);
}

#[test]
fn compact_whitespace_flag() {
    let data = b"a  b";
    // W: one literal space eats the run of spaces
    let m = run(&["0\tstring/W\t=a\\x20b\tsquashed"], data);
    assert_eq!(m.match_rec.len(), 1);
    let m2 = run(&["0\tstring\t=a\\x20b\tplain"], data);
    assert_eq!(m2.match_rec.len(), 0);
}
