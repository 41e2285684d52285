//! Tests of entry building, grouping by continuation depth, strength
//! computation, and database ordering.

use filemagic::magic_entry::MagicEntryBuilder;
use filemagic::magic_file::MagicFile;

fn to_lines(xs: &[&str]) -> Vec<Vec<u8>> {
    xs.iter().map(|s| s.as_bytes().to_vec()).collect()
}

#[test]
fn magic_file_test_onefile() {
    let lines = to_lines(&[
        "# a small database",
        "0\tstring\t=%PDF-\tPDF document",
        ">5\tbyte\tx\tversion",
        "",
        "0\tbelong\t=0xCAFEBABE\tJava class",
    ]);
    let magic = MagicFile::parse(&lines);
    assert_eq!(magic.entries.len(), 2);
}

#[test]
fn parse_magic_entry_test_onefile() {
    let lines = to_lines(&[
        "# comment first",
        "0\tleshort\t=5\tshort doc",
        "!:mime\ttext/x-sample",
        ">2\tbyte\t=1\tchild",
    ]);
    let magic = MagicFile::parse(&lines);
    assert_eq!(magic.entries.len(), 1);
    assert_eq!(magic.entries[0].nodes.len(), 2);
    let aux = magic.entries[0].nodes[0].val.aux.as_ref().unwrap();
    assert_eq!(aux.mime, Some(b"text/x-sample".to_vec()));
}

#[test]
fn continuation_grouping_builds_tree() {
    // depths 0, 1, 2, 1: the second depth-1 line hangs under the root
    let lines = to_lines(&[
        "0\tbyte\tx\troot",
        ">1\tbyte\tx\tchild a",
        ">>2\tbyte\tx\tgrandchild",
        ">3\tbyte\tx\tchild b",
    ]);
    let magic = MagicFile::parse(&lines);
    assert_eq!(magic.entries.len(), 1);
    let nodes = &magic.entries[0].nodes;
    assert_eq!(nodes.len(), 4);
    assert_eq!(nodes[0].parent, None);
    assert_eq!(nodes[1].parent, Some(0));
    assert_eq!(nodes[2].parent, Some(1));
    assert_eq!(nodes[3].parent, Some(0));
    for (i, n) in nodes.iter().enumerate() {
        if let Some(p) = n.parent {
            assert_eq!(nodes[p].val.cont_lvl + 1, nodes[i].val.cont_lvl);
        }
    }
}

#[test]
fn depth_zero_opens_new_entry() {
    let lines = to_lines(&[
        "0\tbyte\tx\tfirst",
        ">1\tbyte\tx\tchild",
        "0\tbyte\tx\tsecond",
    ]);
    let magic = MagicFile::parse(&lines);
    assert_eq!(magic.entries.len(), 2);
}

#[test]
fn orphan_depth_is_dropped() {
    // a line at depth 2 with no depth-1 ancestor is malformed and skipped
    let lines = to_lines(&["0\tbyte\tx\troot", ">>9\tbyte\tx\torphan"]);
    let magic = MagicFile::parse(&lines);
    assert_eq!(magic.entries.len(), 1);
    assert_eq!(magic.entries[0].nodes.len(), 1);
}

#[test]
fn strength_of_pdf_string() {
    // base 20 + 10 * len("%PDF-") + 10 for equality = 80
    let lines = to_lines(&["0\tstring\t=%PDF-\tPDF document"]);
    let magic = MagicFile::parse(&lines);
    assert_eq!(magic.entries.len(), 1);
    assert_eq!(magic.entries[0].strength(), 80);
}

#[test]
fn strength_factor_applies() {
    let lines = to_lines(&["0\tbyte\t=5\ta", "!:strength\t*2"]);
    let magic = MagicFile::parse(&lines);
    // base 20 + 10 (byte) + 10 (equality) = 40, doubled
    assert_eq!(magic.entries[0].strength(), 80);
}

#[test]
fn strength_without_factor_keeps_accumulated() {
    let lines = to_lines(&["0\tbyte\t<5\ta"]);
    let magic = MagicFile::parse(&lines);
    // base 20 + 10 (byte) - 20 (ordering) = 10
    assert_eq!(magic.entries[0].strength(), 10);
}

#[test]
fn three_records() {
    // entries come out sorted by non-decreasing strength; ties keep order
    let lines = to_lines(&[
        "0\tstring\t=%PDF-\tstrong",   // 80
        "0\tbyte\t=1\tweak a",         // 40
        "0\tbyte\t=2\tweak b",         // 40, equal: stays after weak a
    ]);
    let magic = MagicFile::parse(&lines);
    assert_eq!(magic.entries.len(), 3);
    let strengths: Vec<i64> = magic.entries.iter().map(|e| e.strength()).collect();
    assert_eq!(strengths, vec![40, 40, 80]);
    assert_eq!(magic.entries[0].nodes[0].val.desc, b" weak a".to_vec());
    assert_eq!(magic.entries[1].nodes[0].val.desc, b" weak b".to_vec());
    assert_eq!(magic.entries[2].nodes[0].val.desc, b" strong".to_vec());
}

#[test]
fn builder_skips_bad_lines() {
    let mut b = MagicEntryBuilder::new();
    let lines = to_lines(&[
        "0\tbyte\tx\tgood",
        "not a rule at all",
        "!:mime\ttext/x;bad",
        ">1\tbyte\tx\tchild",
    ]);
    let next = b.parse_until_new_entry(&lines, 0);
    assert_eq!(next, 4);
    let entry = b.build().unwrap();
    assert_eq!(entry.nodes.len(), 2);
    assert!(entry.nodes[0].val.aux.is_none());
}
