//! A verified rule engine for file-type identification.
//!
//! The crate parses a textual "magic" rule language into typed expression
//! trees, groups rule lines into entry trees ranked by a strength heuristic,
//! and evaluates those trees against byte buffers.

pub mod expr;
pub mod expr_value;
pub mod magic_entry;
pub mod ext_buf;
pub mod magic_file;
pub mod magic_line;
pub mod magic_line_parse;
pub mod magic_match_ascii;
pub mod magic_match_json;
pub mod magic_match_softmagic;
pub mod magic_match_tar;
pub mod magic_param;
pub mod parse_magic_aux_line;
pub mod raw_bytes;
pub mod str_utils;
pub mod tree;
