use asmlings::exercise::Exercise;
use asmlings::assembler::parse_labels;
use asmlings::harness::get_test_suite;
use asmlings::numbers::parse_u64;
use asmlings::registers::name_to_reg;
use asmlings::state::{read_current_index, write_current_index};

#[test]
fn parse_u64_decimal() {
    assert_eq!(parse_u64("0"), Some(0));
    assert_eq!(parse_u64("255"), Some(255));
    assert_eq!(parse_u64("65535"), Some(65535));
}

#[test]
fn parse_u64_hex_lowercase_prefix() {
    assert_eq!(parse_u64("0xff"), Some(255));
    assert_eq!(parse_u64("0x0100"), Some(256));
    assert_eq!(parse_u64("0xffff"), Some(65535));
}

#[test]
fn parse_u64_hex_uppercase_prefix() {
    assert_eq!(parse_u64("0XFF"), Some(255));
    assert_eq!(parse_u64("0X1A2B"), Some(0x1A2B));
}

#[test]
fn parse_u64_trims_whitespace() {
    assert_eq!(parse_u64("  42  "), Some(42));
    assert_eq!(parse_u64(" 0xFF "), Some(255));
}

#[test]
fn parse_u64_invalid_returns_none() {
    assert_eq!(parse_u64(""), None);
    assert_eq!(parse_u64("abc"), None);
    assert_eq!(parse_u64("0xGG"), None);
    assert_eq!(parse_u64("12.5"), None);
    assert_eq!(parse_u64("-1"), None);
}

// The progress file: the library decides what text is written for an index
// and what index a file's text (or a missing file) stands for.

#[test]
fn state_roundtrip() {
    let file = write_current_index(7);
    assert_eq!(read_current_index(Some(&file)), 7);
}

#[test]
fn state_missing_file_returns_zero() {
    assert_eq!(read_current_index(None), 0);
}

#[test]
fn state_corrupted_file_returns_zero() {
    assert_eq!(read_current_index(Some("not-a-number")), 0);
}

#[test]
fn state_write_overwrites_previous() {
    let mut file = write_current_index(3);
    assert_eq!(read_current_index(Some(&file)), 3);
    file = write_current_index(9);
    assert_eq!(read_current_index(Some(&file)), 9);
}

#[test]
fn state_zero_roundtrip() {
    let file = write_current_index(0);
    assert_eq!(read_current_index(Some(&file)), 0);
}

#[test]
fn name_to_reg_known_registers() {
    for name in &[
        "AX", "BX", "CX", "DX", "AH", "AL", "BH", "BL", "CH", "CL", "DH", "DL", "SP", "BP", "SI",
        "DI",
    ] {
        assert!(name_to_reg(name).is_ok(), "Expected Ok for register {name}");
    }
}

#[test]
fn name_to_reg_unknown_register_errors() {
    assert!(name_to_reg("XX").is_err());
    assert!(name_to_reg("").is_err());
    assert!(name_to_reg("EAX").is_err()); // 32-bit, not supported
    assert!(name_to_reg("ax").is_err()); // lowercase not handled
}

#[test]
fn parse_labels_empty_file() {
    let labels = parse_labels("");
    assert!(labels.is_empty());
}

#[test]
fn parse_labels_typical_map() {
    let map_content = "\
- NASM Map file ---------------------------------------------------------------

Source file:  test.asm
Output file:  test.bin

-- Symbols --------------------------------------------------------------------

---- Section .text ------------------------------------------------------------

Real              Virtual           Name
             100               100  _start
             10A               10A  result
";
    let labels = parse_labels(map_content);
    assert_eq!(labels.get("_start"), Some(&0x100));
    assert_eq!(labels.get("result"), Some(&0x10A));
}

#[test]
fn parse_labels_skips_header_row() {
    let map_content = "\
Real              Virtual           Name
             200               200  myLabel
";
    let labels = parse_labels(map_content);
    assert_eq!(labels.get("myLabel"), Some(&0x200));
}

#[test]
fn parse_labels_ignores_malformed_lines() {
    let map_content = "\
just one token
ZZZZZZZZ ZZZZZZZZ badHex
             100               100  goodLabel
";
    let labels = parse_labels(map_content);
    assert_eq!(labels.get("goodLabel"), Some(&0x100));
    assert!(!labels.contains_key("badHex"));
}

#[test]
fn exercise_load_name_derived_from_filename() {
    let p = String::from("/tmp/exercises-dir/01_mov_basics.asm");
    let ex = Exercise::load(p);
    assert_eq!(ex.name, "01_mov_basics");
}

#[test]
fn parse_u64_overflow() {
    assert_eq!(parse_u64("18446744073709551616"), None);
    assert_eq!(parse_u64("0x10000000000000000"), None);
}

#[test]
fn parse_u64_invalid_prefixes() {
    assert_eq!(parse_u64("0x"), None);
    assert_eq!(parse_u64("0X"), None);
    assert_eq!(parse_u64("0xG"), None);
    assert_eq!(parse_u64("0x12G"), None);
}

#[test]
fn parse_labels_duplicate_labels() {
    let map_content = "\
Real              Virtual           Name
             100               100  myLabel
             200               200  myLabel
";
    let labels = parse_labels(map_content);
    assert_eq!(labels.get("myLabel"), Some(&0x200));
}

#[test]
fn parse_labels_extra_columns() {
    let map_content = "\
Real              Virtual           Name            Extra
             100               100  myLabel         something
";
    let labels = parse_labels(map_content);
    assert!(!labels.contains_key("myLabel"), "Rows with extra columns must be ignored");
}

#[test]
fn harness_get_test_suite_known_exercises() {
    let suite_01 = get_test_suite("01_bare_metal");
    assert!(suite_01.is_some());
    let s = suite_01.unwrap();
    assert_eq!(s.name, "01_bare_metal");
    assert!(s.target_label.is_none());
    assert_eq!(s.cases.len(), 1);

    let suite_32 = get_test_suite("32_abs_val");
    assert!(suite_32.is_some());
    let s = suite_32.unwrap();
    assert_eq!(s.name, "32_abs_val");
    assert_eq!(s.target_label, Some("abs_val"));
    assert_eq!(s.cases.len(), 4);
}

#[test]
fn harness_get_test_suite_unknown_exercise() {
    assert!(get_test_suite("unknown_exercise_name").is_none());
}
