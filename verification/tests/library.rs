use asmlings::assembler::{parse_labels, prepare_source, Labels};
use asmlings::commands::{
    advance, all_passed, debug_binary_name, get_current_exercise, init_mode_for, init_report,
    is_done, normalize_key, normalize_line, should_reset_progress, should_write_template,
    watch_start, watch_step, workflow_start, Advance, InitMode, InitReport, WatchAction,
    WatchEvent, WatchState, WorkflowStart,
};
use asmlings::exercise::{display_name_of, path_extension, path_file_stem, select_exercises, AssertionResult};
use asmlings::exercise_tests::{suite_for, ExerciseName, ExerciseTests};
use asmlings::harness::{
    case_requests, case_results, checks_valid, check_flag, extend_results, check_mem, check_reg, entry_point, exercise_suite,
    return_slot, Check, EntryPoint, ProgrammaticCase, ProgrammaticSuite, Reading, Request,
    RunError,
};
use asmlings::hints::get_hint;
use asmlings::numbers::{format_decimal, format_hex, parse_radix};
use asmlings::registers::{name_to_reg, Register};
use asmlings::text::{chars_of, is_whitespace, split_lines, split_words, string_of, trim_chars};
use asmlings::ui::{banner_layout, progress_bar_fits, progress_bar_layout, rule_width};
use std::path::Path;

fn s(v: &[char]) -> String {
    v.iter().collect()
}

#[test]
fn whitespace_matches_std_for_every_char() {
    for code in 0u32..=0x10FFFF {
        if let Some(c) = char::from_u32(code) {
            assert_eq!(is_whitespace(c), c.is_whitespace(), "{code:#x}");
        }
    }
}

const SAMPLES: &[&str] = &[
    "",
    " ",
    "a",
    "  a b  ",
    "\t x \u{a0}y\u{3000}",
    "line1\nline2\r\nline3",
    "trailing\n",
    "\n\n",
    "a\r",
    "a\r\n\r\n",
    "\r\n",
    "x\u{2028}y",
    "  many   spaced    words ",
];

#[test]
fn trim_lines_and_words_match_std() {
    for text in SAMPLES {
        let c = chars_of(text);
        assert_eq!(s(&trim_chars(&c)), text.trim());
        let lines: Vec<String> = split_lines(&c).iter().map(|l| s(l)).collect();
        let expected: Vec<String> = text.lines().map(|l| l.to_string()).collect();
        assert_eq!(lines, expected, "{text:?}");
        let words: Vec<String> = split_words(&c).iter().map(|w| s(w)).collect();
        let expected: Vec<String> = text.split_whitespace().map(|w| w.to_string()).collect();
        assert_eq!(words, expected, "{text:?}");
        assert_eq!(string_of(&c), *text);
    }
}

#[test]
fn radix_parsing_matches_std() {
    let inputs = [
        "", "+", "-", "0", "+7", "-7", "ff", "FF", "fG", "ffffffffffffffff", "10000000000000000",
        "18446744073709551615", "18446744073709551616", "00000000000000000000001", "1_000", " 1",
        "١٢", "z", "Z", "+0x1",
    ];
    for input in inputs {
        for radix in [2u32, 8, 10, 16, 36] {
            let c = chars_of(input);
            assert_eq!(parse_radix(&c, radix), u64::from_str_radix(input, radix).ok(), "{input:?} {radix}");
        }
    }
}

#[test]
fn formatting_matches_std() {
    for v in [0u64, 1, 9, 10, 15, 16, 255, 256, 0x1337, 0xFFFF, 0x10000, u64::MAX] {
        for width in [0usize, 2, 4, 8] {
            assert_eq!(format_hex(v, width), format!("0x{:0w$X}", v, w = width));
        }
        assert_eq!(format_decimal(v), v.to_string());
    }
}

#[test]
fn file_stem_and_extension_match_std_paths() {
    let paths = [
        "01_bare_metal.asm", "./exercises/02_halves.asm", "dir/", "dir/.", "..", "a/..", ".", "",
        "/", ".hidden", ".hidden.asm", "a.b.c", "a.", "exercises//x.asm/", "./", "name",
    ];
    for p in paths {
        let c = chars_of(p);
        let stem = path_file_stem(&c).map(|v| s(&v));
        let want = Path::new(p).file_stem().map(|x| x.to_string_lossy().to_string());
        assert_eq!(stem, want, "{p:?}");
        let ext = path_extension(&c).map(|v| s(&v));
        let want = Path::new(p).extension().map(|x| x.to_string_lossy().to_string());
        assert_eq!(ext, want, "{p:?}");
    }
}

#[test]
fn exercises_are_the_asm_files_in_name_order() {
    let files: Vec<String> = ["b.asm", ".asmlings_state", "a.asm", "notes.txt", "10_x.asm", "02_y.asm", "c.ASM"]
        .iter()
        .map(|x| x.to_string())
        .collect();
    let picked = select_exercises(&files);
    assert_eq!(picked, vec!["02_y.asm", "10_x.asm", "a.asm", "b.asm"]);
}

#[test]
fn display_name_replaces_underscores() {
    assert_eq!(display_name_of("01_bare_metal"), "01 bare metal");
}

#[test]
fn prepared_source_comments_out_placement() {
    let src = "BITS 16\n  SECTION .text\norg 0x100\nsegment code\nsectionless:\n    mov ax, 1";
    let out = prepare_source(src, "x.map");
    assert_eq!(
        out,
        "[map symbols x.map]\norg 0x0100\nBITS 16\n;   SECTION .text\n; org 0x100\n; segment code\nsectionless:\n    mov ax, 1\n"
    );
}

#[test]
fn labels_keep_the_last_address_and_list_by_address() {
    let map = "\
Real              Virtual           Name
             10A               10A  result
             100               100  %start
             105               105  bad-name
             104               104  result
             0FF               0FF  early
";
    let labels = parse_labels(map);
    assert_eq!(labels.get("start"), Some(&0x100));
    assert_eq!(labels.get("result"), Some(&0x104));
    assert!(!labels.contains_key("bad-name"));
    let listed = labels.by_address();
    assert_eq!(
        listed,
        vec![("early".to_string(), 0xFF), ("start".to_string(), 0x100), ("result".to_string(), 0x104)]
    );
    let mut l = Labels::new();
    assert!(l.is_empty());
    l.insert("x".to_string(), 3);
    assert!(!l.is_empty());
    assert_eq!(l.get("x"), Some(&3));
}

#[test]
fn register_checks() {
    let r = check_reg("AX", Some(0x1_1337), 0x1337);
    assert!(r.passed);
    assert_eq!(r.expected_str, "0x1337");
    assert_eq!(r.actual_str, "0x1337");
    let r = check_reg("BX", None, 1);
    assert!(!r.passed);
    assert_eq!(r.actual_str, "0x0000");
    assert_eq!(r.name_str, "BX");
}

#[test]
fn flag_checks() {
    let r = check_flag("carry", "CF", Some(1), true);
    assert!(r.passed);
    assert_eq!(r.expected_str, "1");
    let r = check_flag("overflow", "OF", Some(1 << 11), false);
    assert!(!r.passed);
    assert_eq!(r.actual_str, "1");
    assert_eq!(r.expected_str, "0");
    let r = check_flag("zero", "ZF", None, false);
    assert!(r.passed);
}

#[test]
fn memory_checks() {
    let labels = parse_labels("             10A               10A  result\n");
    let r = check_mem(&labels, "result", 0x000F, 2, Some(vec![0x0F, 0x00]));
    assert!(r.passed);
    assert_eq!(r.name_str, "[result]");
    assert_eq!(r.expected_str, "0x000F");
    let r = check_mem(&labels, "result", 0x0F, 1, Some(vec![0x10]));
    assert!(!r.passed);
    assert_eq!(r.expected_str, "0x0F");
    assert_eq!(r.actual_str, "0x10");
    let r = check_mem(&labels, "result", 0x1234, 2, None);
    assert_eq!(r.actual_str, "Read error");
    let r = check_mem(&labels, "missing", 0x1234, 2, None);
    assert!(!r.passed);
    assert_eq!(r.actual_str, "Label 'missing' not found");
    assert_eq!(r.expected_str, "0x1234");
}

#[test]
fn case_results_are_named_under_the_case() {
    let labels = parse_labels("             10A               10A  result\n");
    let case = ProgrammaticCase {
        name: "Case",
        setup: vec![(Register::AX, 5)],
        checks: vec![
            Check::Reg { name: "AX", reg: Register::AX, expected: 5 },
            Check::Mem { label: "result", expected: 7, size: 2 },
            Check::Mem { label: "nowhere", expected: 7, size: 1 },
            Check::Flag { name: "CF", flag: "CF", expected: true },
        ],
    };
    assert!(checks_valid(&case));
    let bad = ProgrammaticCase {
        name: "Bad",
        setup: vec![],
        checks: vec![Check::Flag { name: "QF", flag: "QF", expected: true }],
    };
    assert!(!checks_valid(&bad));
    let requests = case_requests(&case, &labels);
    assert_eq!(
        requests,
        vec![
            Request::Register(Register::AX),
            Request::Memory { address: 0x10A, size: 2 },
            Request::Nothing,
            Request::Flags
        ]
    );
    let readings = vec![Reading::Value(5), Reading::Bytes(vec![8, 0]), Reading::Failed, Reading::Value(0)];
    let results = case_results(&case, &labels, &readings);
    let names: Vec<&str> = results.iter().map(|r| r.name_str.as_str()).collect();
    assert_eq!(names, vec!["Case: AX", "Case: [result]", "Case: [nowhere]", "Case: CF"]);
    let passed: Vec<bool> = results.iter().map(|r| r.passed).collect();
    assert_eq!(passed, vec![true, false, false, false]);
    assert!(!all_passed(&results));

    let mut gathered = vec![AssertionResult {
        passed: true,
        name_str: "Earlier: AX".to_string(),
        expected_str: "0x0001".to_string(),
        actual_str: "0x0001".to_string(),
    }];
    extend_results(&mut gathered, &case, &labels, &readings);
    let names: Vec<&str> = gathered.iter().map(|r| r.name_str.as_str()).collect();
    assert_eq!(names, vec!["Earlier: AX", "Case: AX", "Case: [result]", "Case: [nowhere]", "Case: CF"]);

    let wide = ProgrammaticCase {
        name: "Wide",
        setup: vec![],
        checks: vec![Check::Mem { label: "result", expected: 0x12, size: 4 }],
    };
    assert!(checks_valid(&wide));
    let out = case_results(&wide, &labels, &vec![Reading::Bytes(vec![0x12, 0x34, 0x56, 0x78])]);
    assert!(out[0].passed);
    assert_eq!(out[0].expected_str, "0x12");
    let empty = ProgrammaticCase {
        name: "Empty",
        setup: vec![],
        checks: vec![Check::Mem { label: "result", expected: 0, size: 0 }],
    };
    assert!(!checks_valid(&empty));
}

#[test]
fn entry_points() {
    let labels = parse_labels("             120               120  abs_val\n");
    let whole = ProgrammaticSuite { name: "x", target_label: None, cases: vec![] };
    assert_eq!(
        entry_point(&whole, &labels, 6).ok(),
        Some(EntryPoint { start: 0x100, until: 0x106, push_return: false })
    );
    let sub = ProgrammaticSuite { name: "y", target_label: Some("abs_val"), cases: vec![] };
    assert_eq!(
        entry_point(&sub, &labels, 6).ok(),
        Some(EntryPoint { start: 0x120, until: 0, push_return: true })
    );
    let missing = ProgrammaticSuite { name: "z", target_label: Some("gone"), cases: vec![] };
    match entry_point(&missing, &labels, 6) {
        Err(e @ RunError::LabelNotFound { .. }) => assert_eq!(
            e.message(),
            "Label 'gone' not found in assembled output. Make sure the subroutine is defined in the exercise."
        ),
        _ => panic!("expected a missing label"),
    }
    assert_eq!(return_slot(0xFFF0), 0xFFEE);
}

#[test]
fn exercise_names_round_trip() {
    let all = [
        ExerciseName::Ex01, ExerciseName::Ex02, ExerciseName::Ex03, ExerciseName::Ex04,
        ExerciseName::Ex05, ExerciseName::Ex06, ExerciseName::Ex07, ExerciseName::Ex08,
        ExerciseName::Ex09, ExerciseName::Ex10, ExerciseName::Ex11, ExerciseName::Ex12,
        ExerciseName::Ex13, ExerciseName::Ex14, ExerciseName::Ex15, ExerciseName::Ex16,
        ExerciseName::Ex17, ExerciseName::Ex18, ExerciseName::Ex19, ExerciseName::Ex20,
        ExerciseName::Ex21, ExerciseName::Ex22, ExerciseName::Ex23, ExerciseName::Ex24,
        ExerciseName::Ex25, ExerciseName::Ex26, ExerciseName::Ex27, ExerciseName::Ex28,
        ExerciseName::Ex29, ExerciseName::Ex30, ExerciseName::Ex31, ExerciseName::Ex32,
    ];
    let tests = ExerciseTests::new();
    for e in all {
        assert_eq!(ExerciseName::from_name(e.as_str()).ok(), Some(e));
        assert_eq!(e.as_str().parse::<ExerciseName>().ok(), Some(e));
        let suite = suite_for(e);
        assert_eq!(suite.name, e.as_str());
        assert_eq!(tests.get(e).name, e.as_str());
        assert!(!suite.cases.is_empty());
        assert!(suite.cases.iter().all(|c| checks_valid(c)));
        assert!(get_hint(e.as_str()).is_some(), "{}", e.as_str());
    }
    assert!(ExerciseName::from_name("30_test_1").is_err());
    assert_eq!(ExerciseName::from_name("nope").err().unwrap().message(), "Unknown exercise: nope");
}

#[test]
fn suites_hold_the_expected_values() {
    let s = suite_for(ExerciseName::Ex20);
    assert_eq!(s.cases[0].name, "Check AX & Memory result");
    match &s.cases[0].checks[1] {
        Check::Mem { label, expected, size } => {
            assert_eq!((*label, *expected, *size), ("result", 0x000F, 2));
        },
        _ => panic!("expected a memory check"),
    }
    let abs = suite_for(ExerciseName::Ex30);
    assert_eq!(abs.cases[1].name, "Pos Input (7)");
    assert_eq!(abs.cases[0].setup, vec![(Register::AX, 0xFFF6)]);
}

#[test]
fn exercise_without_suite_is_an_error() {
    let ex = asmlings::exercise::Exercise::load("exercises/99_nothing.asm".to_string());
    match exercise_suite(&ex) {
        Err(e) => assert_eq!(e.message(), "No test suite found for exercise: 99_nothing"),
        Ok(_) => panic!("no suite expected"),
    }
    let ex = asmlings::exercise::Exercise::load("exercises/01_bare_metal.asm".to_string());
    assert_eq!(exercise_suite(&ex).ok().map(|s| s.name), Some("01_bare_metal"));
}

#[test]
fn hints() {
    assert!(get_hint("01_bare_metal").unwrap().contains("0x1337"));
    assert!(get_hint("35_splice_strings").unwrap().contains("strlen"));
    assert_eq!(get_hint("99_unknown"), None);
    assert!(get_hint(ExerciseName::Ex26.as_str()).unwrap().contains("test ax, 1"));
    assert!(get_hint(ExerciseName::Ex30.as_str()).unwrap().contains("neg ax"));
}

#[test]
fn register_names() {
    assert_eq!(name_to_reg("SI").ok(), Some(Register::SI));
    assert_eq!(Register::DL.name(), "DL");
    assert_eq!(name_to_reg("ax").err().unwrap().message(), "Unknown register: ax");
}

#[test]
fn workflow_progress() {
    assert_eq!(workflow_start(0, 0), WorkflowStart::NoExercises);
    assert_eq!(workflow_start(3, 3), WorkflowStart::AllComplete);
    assert_eq!(workflow_start(3, 1), WorkflowStart::Run { index: 1 });
    assert_eq!(advance(1, 3, true, true), Advance::NextUp { new_index: 2 });
    assert_eq!(advance(2, 3, true, true), Advance::Finished { new_index: 3 });
    assert_eq!(advance(1, 3, false, true), Advance::Retry);
    assert_eq!(advance(1, 3, true, false), Advance::NotDone);
    assert!(!is_done("mov ax, 1 ; I AM NOT DONE\n"));
    assert!(is_done("mov ax, 1\n"));
    let paths = vec!["ex/01_a.asm".to_string(), "ex/02_b.asm".to_string()];
    assert_eq!(get_current_exercise(&paths, 1).map(|e| e.name), Some("02_b".to_string()));
    assert!(get_current_exercise(&paths, 2).is_none());
    assert_eq!(debug_binary_name("01_a"), "01_a.bin");
    let results = vec![AssertionResult {
        passed: true,
        name_str: String::new(),
        expected_str: String::new(),
        actual_str: String::new(),
    }];
    assert!(all_passed(&results));
}

#[test]
fn init_decisions() {
    let update = init_mode_for(true, false);
    assert_eq!(update, InitMode::Update);
    assert!(!should_write_template(&update, true));
    assert!(should_write_template(&update, false));
    assert!(!should_reset_progress(&update, true));
    assert!(should_reset_progress(&update, false));
    let forced = init_mode_for(true, true);
    assert_eq!(forced, InitMode::Fresh { remove_existing: true });
    assert!(should_write_template(&forced, true));
    assert!(should_reset_progress(&forced, true));
    assert_eq!(init_mode_for(false, true), InitMode::Fresh { remove_existing: false });
    assert_eq!(init_report(&update, 0), InitReport::NothingNew);
    assert_eq!(init_report(&update, 2), InitReport::Added { count: 2 });
    assert_eq!(init_report(&forced, 5), InitReport::ForceInitialized { count: 5 });
}

#[test]
fn watch_mode_shows_the_hint_once_per_run() {
    let s = watch_start();
    let (s, a) = watch_step(s, &WatchEvent::Input("h".to_string()));
    assert_eq!(a, WatchAction::ShowHint);
    let (s, _) = watch_step(s, &WatchEvent::HintShown);
    assert_eq!(s, WatchState { hint_shown: true });
    let (s, a) = watch_step(s, &WatchEvent::Input("hint".to_string()));
    assert_eq!(a, WatchAction::Nothing);
    let (s, a) = watch_step(s, &WatchEvent::FileModified { elapsed_nanos: 100_000_000 });
    assert_eq!(a, WatchAction::Nothing);
    assert!(s.hint_shown);
    let (s, a) = watch_step(s, &WatchEvent::FileModified { elapsed_nanos: 200_000_001 });
    assert_eq!(a, WatchAction::RunWorkflow);
    assert!(!s.hint_shown);
    let (_, a) = watch_step(s, &WatchEvent::ChannelClosed);
    assert_eq!(a, WatchAction::Stop);
    assert_eq!(normalize_key(b'H'), "h");
    assert_eq!(normalize_line("  HiNT \n"), Some("hint".to_string()));
    assert_eq!(normalize_line("   "), None);
}

#[test]
fn layout() {
    let p = progress_bar_layout(3, 10, 80);
    assert_eq!(p.label, "  3 / 10  ");
    let bar_w = 80 - (2 + p.label.len());
    assert_eq!(p.filled, 3 * bar_w / 10);
    assert_eq!(p.empty, bar_w - p.filled);
    let p = progress_bar_layout(0, 0, 5);
    assert_eq!((p.filled, p.empty), (0, 0));
    let b = banner_layout(100, "0.1.0");
    assert_eq!(b.inner, 96);
    assert_eq!(b.pad, 96 - (b.left.len() + b.right.len()));
    assert_eq!(b.right, "  v0.1.0  ");
    assert_eq!(banner_layout(3, "1").inner, 0);
    assert_eq!(rule_width(80), 78);
    assert_eq!(rule_width(1), 0);
    assert!(progress_bar_fits(3, 10, 80));
    assert!(!progress_bar_fits(usize::MAX / 2, usize::MAX, usize::MAX));
}
