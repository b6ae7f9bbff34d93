//! The programmatic test harness: test suites as data (register setups and
//! checks), what to read from the emulated machine after a case has run, and
//! the assertion results made of what was read.
use vstd::prelude::*;
use crate::assembler::Labels;
use crate::constants::{LOAD_ADDR, SENTINEL_RETURN};
use crate::exercise::{AssertionResult, Exercise, ResultSpec};
use crate::numbers::{format_hex, hex_text};
use crate::registers::Register;
use crate::text::{chars_of, push_chars, str_eq_chars, string_of};

verus! {

/// One check of a test case.
#[derive(Debug)]
#[allow(inconsistent_fields)]
pub enum Check {
    /// The register `reg` holds `expected`; reported as `name`.
    Reg { name: &'static str, reg: Register, expected: u16 },
    /// The memory at `label` holds `expected`: the little-endian word there when
    /// `size` is two, else the first of the `size` bytes there.
    Mem { label: &'static str, expected: u16, size: usize },
    /// The status flag `flag` is `expected`; reported as `name`.
    Flag { name: &'static str, flag: &'static str, expected: bool },
}

/// A check, as values.
#[allow(inconsistent_fields)]
pub enum CheckSpec {
    Reg { name: Seq<char>, reg: Register, expected: u16 },
    Mem { label: Seq<char>, expected: u16, size: usize },
    Flag { name: Seq<char>, flag: Seq<char>, expected: bool },
}

impl View for Check {
    type V = CheckSpec;

    open spec fn view(&self) -> CheckSpec {
        match self {
            Check::Reg { name, reg, expected } => CheckSpec::Reg {
                name: name@,
                reg: *reg,
                expected: *expected,
            },
            Check::Mem { label, expected, size } => CheckSpec::Mem {
                label: label@,
                expected: *expected,
                size: *size,
            },
            Check::Flag { name, flag, expected } => CheckSpec::Flag {
                name: name@,
                flag: flag@,
                expected: *expected,
            },
        }
    }
}

/// One test case: registers set before the run, and the checks made after it.
#[derive(Debug)]
pub struct ProgrammaticCase {
    pub name: &'static str,
    pub setup: Vec<(Register, u16)>,
    pub checks: Vec<Check>,
}

/// A test case, as values.
pub struct CaseSpec {
    pub name: Seq<char>,
    pub setup: Seq<(Register, u16)>,
    pub checks: Seq<CheckSpec>,
}

impl View for ProgrammaticCase {
    type V = CaseSpec;

    open spec fn view(&self) -> CaseSpec {
        CaseSpec {
            name: self.name@,
            setup: self.setup@,
            checks: self.checks@.map_values(|c: Check| c@),
        }
    }
}

/// The test suite of an exercise: its cases, run either on the whole program or,
/// with a target label, on the subroutine at that label.
#[derive(Debug)]
pub struct ProgrammaticSuite {
    pub name: &'static str,
    pub target_label: Option<&'static str>,
    pub cases: Vec<ProgrammaticCase>,
}

/// A test suite, as values.
pub struct SuiteSpec {
    pub name: Seq<char>,
    pub target: Option<Seq<char>>,
    pub cases: Seq<CaseSpec>,
}

impl View for ProgrammaticSuite {
    type V = SuiteSpec;

    open spec fn view(&self) -> SuiteSpec {
        SuiteSpec {
            name: self.name@,
            target: match self.target_label {
                Some(t) => Some(t@),
                None => None,
            },
            cases: self.cases@.map_values(|c: ProgrammaticCase| c@),
        }
    }
}

/// The bit of the flags register that holds a status flag, by the flag's name.
pub open spec fn flag_bit(flag: Seq<char>) -> Option<u32> {
    if flag == "CF"@ {
        Some(0)
    } else if flag == "PF"@ {
        Some(2)
    } else if flag == "AF"@ {
        Some(4)
    } else if flag == "ZF"@ {
        Some(6)
    } else if flag == "SF"@ {
        Some(7)
    } else if flag == "OF"@ {
        Some(11)
    } else {
        None
    }
}

fn flag_bit_of(flag: &str) -> (r: Option<u32>)
    ensures
        r == flag_bit(flag@),
{
    let f = chars_of(flag);
    let s = f.as_slice();
    if str_eq_chars("CF", s) {
        Some(0)
    } else if str_eq_chars("PF", s) {
        Some(2)
    } else if str_eq_chars("AF", s) {
        Some(4)
    } else if str_eq_chars("ZF", s) {
        Some(6)
    } else if str_eq_chars("SF", s) {
        Some(7)
    } else if str_eq_chars("OF", s) {
        Some(11)
    } else {
        None
    }
}

/// The value a register check sees: the low 16 bits of what was read, or zero
/// when the read failed.
pub open spec fn reg_value(value: Option<u64>) -> u16 {
    match value {
        Some(v) => v as u16,
        None => 0,
    }
}

/// Whether bit `bit` is set in the low 32 bits of the flags read (clear when the
/// read failed).
pub open spec fn flag_set(eflags: Option<u64>, bit: u32) -> bool {
    let e: u64 = match eflags {
        Some(v) => v,
        None => 0,
    };
    ((e as u32) & (1u32 << bit)) != 0
}

/// The text for a flag value: `1` or `0`.
pub open spec fn bit_text(b: bool) -> Seq<char> {
    if b {
        "1"@
    } else {
        "0"@
    }
}

/// The value a memory check sees in the bytes read: a little-endian word when
/// two bytes are checked, else the first byte.
pub open spec fn mem_value(bytes: Seq<u8>, size: usize) -> u16 {
    if size == 2 {
        (bytes[0] + 256 * bytes[1]) as u16
    } else {
        bytes[0] as u16
    }
}

/// The text for a memory value: four hex digits for a word, else two.
pub open spec fn mem_text(v: u16, size: usize) -> Seq<char> {
    if size == 2 {
        hex_text(v as nat, 4)
    } else {
        hex_text(v as nat, 2)
    }
}

/// The outcome of a register check on the value read.
pub open spec fn reg_outcome(name: Seq<char>, value: Option<u64>, expected: u16) -> ResultSpec {
    ResultSpec {
        passed: reg_value(value) == expected,
        name: name,
        expected: hex_text(expected as nat, 4),
        actual: hex_text(reg_value(value) as nat, 4),
    }
}

/// The outcome of a flag check on the flags read.
pub open spec fn flag_outcome(name: Seq<char>, bit: u32, eflags: Option<u64>, expected: bool) -> ResultSpec {
    ResultSpec {
        passed: flag_set(eflags, bit) == expected,
        name: name,
        expected: bit_text(expected),
        actual: bit_text(flag_set(eflags, bit)),
    }
}

/// The outcome of a memory check: on the bytes read at the label when it is a
/// label and the read succeeded.
pub open spec fn mem_outcome(
    labels: Map<Seq<char>, u64>,
    label: Seq<char>,
    expected: u16,
    size: usize,
    read: Option<Seq<u8>>,
) -> ResultSpec {
    let name = "["@ + label + "]"@;
    if !labels.dom().contains(label) {
        ResultSpec {
            passed: false,
            name: name,
            expected: hex_text(expected as nat, 4),
            actual: "Label '"@ + label + "' not found"@,
        }
    } else {
        match read {
            None => ResultSpec {
                passed: false,
                name: name,
                expected: hex_text(expected as nat, 4),
                actual: "Read error"@,
            },
            Some(bytes) => ResultSpec {
                passed: mem_value(bytes, size) == expected,
                name: name,
                expected: mem_text(expected, size),
                actual: mem_text(mem_value(bytes, size), size),
            },
        }
    }
}

/// Checks that a register read after the run holds `expected`; `value` is what
/// was read, `None` when the read failed (which counts as zero).
pub fn check_reg(name: &str, value: Option<u64>, expected: u16) -> (r: AssertionResult)
    ensures
        r@ == reg_outcome(name@, value, expected),
{
    let val: u16 = match value {
        Some(v) => v as u16,
        None => 0,
    };
    AssertionResult {
        passed: val == expected,
        name_str: string_of(chars_of(name).as_slice()),
        expected_str: format_hex(expected as u64, 4),
        actual_str: format_hex(val as u64, 4),
    }
}

/// Checks that the status flag named `flag` (`CF`, `PF`, `AF`, `ZF`, `SF` or
/// `OF`) is `expected`; `eflags` is the flags register read after the run.
pub fn check_flag(name: &str, flag: &str, eflags: Option<u64>, expected: bool) -> (r: AssertionResult)
    requires
        flag_bit(flag@) is Some,
    ensures
        r@ == flag_outcome(name@, flag_bit(flag@).unwrap(), eflags, expected),
{
    let bit = match flag_bit_of(flag) {
        Some(b) => b,
        None => 0,
    };
    let e: u64 = match eflags {
        Some(v) => v,
        None => 0,
    };
    assert(bit <= 11);
    let val = ((e as u32) & (1u32 << bit)) != 0;
    let one = "1";
    let zero = "0";
    AssertionResult {
        passed: val == expected,
        name_str: string_of(chars_of(name).as_slice()),
        expected_str: if expected { String::from_str(one) } else { String::from_str(zero) },
        actual_str: if val { String::from_str(one) } else { String::from_str(zero) },
    }
}

/// Checks that the memory at a label holds `expected`, read as a little-endian
/// word when `size` is two and as a byte otherwise; `read` is what was read at
/// the label's address (`None` when the read failed).
pub fn check_mem(
    labels: &Labels,
    label_name: &str,
    expected: u16,
    size: usize,
    read: Option<Vec<u8>>,
) -> (r: AssertionResult)
    requires
        labels@.dom().contains(label_name@) ==> match read {
            Some(b) => b@.len() == size && size >= 1,
            None => true,
        },
    ensures
        r@ == mem_outcome(
            labels@,
            label_name@,
            expected,
            size,
            match read {
                Some(b) => Some(b@),
                None => None,
            },
        ),
{
    let mut name = String::from_str("[");
    name.append(label_name);
    name.append("]");
    if !labels.contains_key(label_name) {
        let mut actual = String::from_str("Label '");
        actual.append(label_name);
        actual.append("' not found");
        return AssertionResult {
            passed: false,
            name_str: name,
            expected_str: format_hex(expected as u64, 4),
            actual_str: actual,
        };
    }
    match read {
        None => AssertionResult {
            passed: false,
            name_str: name,
            expected_str: format_hex(expected as u64, 4),
            actual_str: String::from_str("Read error"),
        },
        Some(buf) => {
            let val: u16 = if size == 2 {
                (buf[0] as u16) + 256 * (buf[1] as u16)
            } else {
                buf[0] as u16
            };
            let width: usize = if size == 2 { 4 } else { 2 };
            AssertionResult {
                passed: val == expected,
                name_str: name,
                expected_str: format_hex(expected as u64, width),
                actual_str: format_hex(val as u64, width),
            }
        },
    }
}

/// What must be read from the machine for one check.
#[derive(Debug, PartialEq, Eq, Structural)]
pub enum Request {
    /// The value of a register.
    Register(Register),
    /// The flags register.
    Flags,
    /// `size` bytes of memory at `address`.
    Memory { address: u64, size: usize },
    /// Nothing: the check fails without a read.
    Nothing,
}

/// What a check needs read: its register, the flags, or the memory at its label
/// (nothing when the label is unknown).
pub open spec fn request_for(c: CheckSpec, labels: Map<Seq<char>, u64>) -> Request {
    match c {
        CheckSpec::Reg { reg, .. } => Request::Register(reg),
        CheckSpec::Flag { .. } => Request::Flags,
        CheckSpec::Mem { label, size, .. } => if labels.dom().contains(label) {
            Request::Memory { address: labels[label], size }
        } else {
            Request::Nothing
        },
    }
}

/// What was read for one check.
#[derive(Debug)]
pub enum Reading {
    /// A register's value.
    Value(u64),
    /// Memory contents.
    Bytes(Vec<u8>),
    /// The read failed, or nothing was read.
    Failed,
}

/// The value in a reading, if it holds one.
pub open spec fn reading_value(r: &Reading) -> Option<u64> {
    match r {
        Reading::Value(v) => Some(*v),
        _ => None,
    }
}

/// The bytes in a reading, if it holds them.
pub open spec fn reading_bytes(r: &Reading) -> Option<Seq<u8>> {
    match r {
        Reading::Bytes(b) => Some(b@),
        _ => None,
    }
}

/// Whether a check can be made: its flag is known, and memory is checked at
/// least one byte at a time.
pub open spec fn valid_check(c: CheckSpec) -> bool {
    match c {
        CheckSpec::Flag { flag, .. } => flag_bit(flag) is Some,
        CheckSpec::Mem { size, .. } => 1 <= size,
        CheckSpec::Reg { .. } => true,
    }
}

/// Whether a reading fits the check it is for: bytes read for memory are as
/// many as were asked for.
pub open spec fn reading_fits(c: CheckSpec, r: &Reading) -> bool {
    match c {
        CheckSpec::Mem { size, .. } => match reading_bytes(r) {
            Some(b) => b.len() == size,
            None => true,
        },
        _ => true,
    }
}

/// The outcome of a check on what was read for it.
pub open spec fn check_outcome(c: CheckSpec, labels: Map<Seq<char>, u64>, r: &Reading) -> ResultSpec {
    match c {
        CheckSpec::Reg { name, expected, .. } => reg_outcome(name, reading_value(r), expected),
        CheckSpec::Flag { name, flag, expected } => flag_outcome(
            name,
            flag_bit(flag).unwrap(),
            reading_value(r),
            expected,
        ),
        CheckSpec::Mem { label, expected, size } => mem_outcome(
            labels,
            label,
            expected,
            size,
            reading_bytes(r),
        ),
    }
}

/// Whether every check of a case can be made.
pub fn checks_valid(case: &ProgrammaticCase) -> (b: bool)
    ensures
        b == forall|k: int| 0 <= k < case.checks@.len() ==> valid_check(#[trigger] case.checks@[k]@),
{
    let mut k: usize = 0;
    while k < case.checks.len()
        invariant
            k <= case.checks@.len(),
            forall|j: int| 0 <= j < k ==> valid_check(#[trigger] case.checks@[j]@),
        decreases case.checks.len() - k,
    {
        let ok = match &case.checks[k] {
            Check::Reg { .. } => true,
            Check::Mem { size, .. } => 1 <= *size,
            Check::Flag { flag, .. } => flag_bit_of(flag).is_some(),
        };
        if !ok {
            assert(!valid_check(case.checks@[k as int]@));
            return false;
        }
        k = k + 1;
    }
    true
}

/// What to read from the machine for one check.
pub fn check_request(check: &Check, labels: &Labels) -> (r: Request)
    ensures
        r == request_for(check@, labels@),
{
    match check {
        Check::Reg { reg, .. } => Request::Register(*reg),
        Check::Flag { .. } => Request::Flags,
        Check::Mem { label, size, .. } => match labels.get(label) {
            Some(addr) => Request::Memory { address: *addr, size: *size },
            None => Request::Nothing,
        },
    }
}

/// The outcome of one check on what was read for it.
pub fn check_result(check: &Check, labels: &Labels, reading: &Reading) -> (r: AssertionResult)
    requires
        valid_check(check@),
        reading_fits(check@, reading),
    ensures
        r@ == check_outcome(check@, labels@, reading),
{
    let value: Option<u64> = match reading {
        Reading::Value(v) => Some(*v),
        _ => None,
    };
    match check {
        Check::Reg { name, expected, .. } => check_reg(name, value, *expected),
        Check::Flag { name, flag, expected } => check_flag(name, flag, value, *expected),
        Check::Mem { label, expected, size } => {
            let bytes: Option<Vec<u8>> = match reading {
                Reading::Bytes(b) => Some(b.clone()),
                _ => None,
            };
            check_mem(labels, label, *expected, *size, bytes)
        },
    }
}

/// What to read from the machine after a case has run: one request per check,
/// in order.
pub fn case_requests(case: &ProgrammaticCase, labels: &Labels) -> (r: Vec<Request>)
    ensures
        r@.len() == case.checks@.len(),
        forall|k: int| 0 <= k < r@.len() ==> r@[k] == request_for(#[trigger] case.checks@[k]@, labels@),
{
    let mut out: Vec<Request> = Vec::new();
    let mut k: usize = 0;
    while k < case.checks.len()
        invariant
            k <= case.checks@.len(),
            out@.len() == k,
            forall|j: int| 0 <= j < k ==> out@[j] == request_for(#[trigger] case.checks@[j]@, labels@),
        decreases case.checks.len() - k,
    {
        out.push(check_request(&case.checks[k], labels));
        k = k + 1;
    }
    out
}

/// An outcome reported under a case: its name prefixed with the case's name.
pub open spec fn under_case(case_name: Seq<char>, o: ResultSpec) -> ResultSpec {
    ResultSpec { name: case_name + ": "@ + o.name, ..o }
}

/// Whether every check of a case can be made, with a fitting reading for each.
pub open spec fn readings_fit(case: CaseSpec, readings: Seq<Reading>) -> bool {
    &&& readings.len() == case.checks.len()
    &&& forall|k: int| 0 <= k < readings.len() ==> valid_check(#[trigger] case.checks[k])
    &&& forall|k: int| 0 <= k < readings.len() ==> reading_fits(case.checks[k], &#[trigger] readings[k])
}

/// The results of a case: the outcome of each check on its reading, in order,
/// each named under the case.
pub fn case_results(case: &ProgrammaticCase, labels: &Labels, readings: &Vec<Reading>) -> (r: Vec<AssertionResult>)
    requires
        readings_fit(case@, readings@),
    ensures
        r@.len() == case.checks@.len(),
        forall|k: int|
            0 <= k < r@.len() ==> (#[trigger] r@[k])@ == under_case(
                case.name@,
                check_outcome(case.checks@[k]@, labels@, &readings@[k]),
            ),
{
    let mut out: Vec<AssertionResult> = Vec::new();
    let mut k: usize = 0;
    while k < case.checks.len()
        invariant
            k <= case.checks@.len(),
            readings_fit(case@, readings@),
            out@.len() == k,
            forall|j: int|
                0 <= j < k ==> (#[trigger] out@[j])@ == under_case(
                    case.name@,
                    check_outcome(case.checks@[j]@, labels@, &readings@[j]),
                ),
        decreases case.checks.len() - k,
    {
        assert(case@.checks[k as int] == case.checks@[k as int]@);
        let res = check_result(&case.checks[k], labels, &readings[k]);
        let mut name = String::from_str(case.name);
        name.append(": ");
        name.append(res.name_str.as_str());
        out.push(AssertionResult {
            passed: res.passed,
            name_str: name,
            expected_str: res.expected_str,
            actual_str: res.actual_str,
        });
        k = k + 1;
    }
    out
}

/// Adds the results of a case to those of the cases run before it: the results
/// gathered so far stay as they are, and the case's results follow them, in the
/// order of its checks, each named under the case.
pub fn extend_results(
    results: &mut Vec<AssertionResult>,
    case: &ProgrammaticCase,
    labels: &Labels,
    readings: &Vec<Reading>,
)
    requires
        readings_fit(case@, readings@),
    ensures
        final(results)@.len() == old(results)@.len() + case.checks@.len(),
        forall|k: int| 0 <= k < old(results)@.len() ==> #[trigger] final(results)@[k] == old(results)@[k],
        forall|k: int|
            0 <= k < case.checks@.len() ==> (#[trigger] final(results)@[old(results)@.len() + k])@
                == under_case(case.name@, check_outcome(case.checks@[k]@, labels@, &readings@[k])),
{
    let mut fresh = case_results(case, labels, readings);
    let ghost before = results@;
    let ghost added = fresh@;
    results.append(&mut fresh);
    assert(results@ == before + added);
}

/// Why running an exercise's tests stopped.
#[derive(Debug)]
pub enum RunError {
    /// No test suite exists for the exercise.
    NoSuite { exercise: String },
    /// The subroutine under test is not among the labels.
    LabelNotFound { label: String },
    /// The emulator could not run a case to its end.
    EmulationFailed { case: String, detail: String },
}

impl RunError {
    /// The error's text.
    pub fn message(&self) -> (s: String)
        ensures
            s@ == match self {
                RunError::NoSuite { exercise } => "No test suite found for exercise: "@ + exercise@,
                RunError::LabelNotFound { label } => "Label '"@ + label@
                    + "' not found in assembled output. Make sure the subroutine is defined in the exercise."@,
                RunError::EmulationFailed { case, detail } => "Emulation failed or timed out in test case '"@
                    + case@ + "': "@ + detail@,
            },
    {
        match self {
            RunError::NoSuite { exercise } => {
                let mut s = String::from_str("No test suite found for exercise: ");
                s.append(exercise.as_str());
                s
            },
            RunError::LabelNotFound { label } => {
                let mut s = String::from_str("Label '");
                s.append(label.as_str());
                s.append(
                    "' not found in assembled output. Make sure the subroutine is defined in the exercise.",
                );
                s
            },
            RunError::EmulationFailed { case, detail } => {
                let mut s = String::from_str("Emulation failed or timed out in test case '");
                s.append(case.as_str());
                s.append("': ");
                s.append(detail.as_str());
                s
            },
        }
    }
}

/// Where a case's run starts and where it stops, and whether a return address
/// must be pushed first (when a subroutine is called).
#[derive(Debug, PartialEq, Eq, Structural)]
pub struct EntryPoint {
    pub start: u64,
    pub until: u64,
    pub push_return: bool,
}

/// Where the cases of a suite run: from the subroutine at the target label until
/// it returns to the pushed return address, or else through the whole program
/// from its load address to its end.
pub fn entry_point(suite: &ProgrammaticSuite, labels: &Labels, code_len: usize) -> (r: Result<
    EntryPoint,
    RunError,
>)
    requires
        code_len + LOAD_ADDR <= u64::MAX,
    ensures
        match suite.target_label {
            Some(t) => match r {
                Ok(e) => labels@.dom().contains(t@) && e == (EntryPoint {
                    start: labels@[t@],
                    until: SENTINEL_RETURN,
                    push_return: true,
                }),
                Err(RunError::LabelNotFound { label }) => !labels@.dom().contains(t@) && label@ == t@,
                Err(_) => false,
            },
            None => r == Ok::<EntryPoint, RunError>(
                EntryPoint { start: LOAD_ADDR, until: (LOAD_ADDR + code_len) as u64, push_return: false },
            ),
        },
{
    match suite.target_label {
        Some(t) => match labels.get(t) {
            Some(addr) => Ok(EntryPoint { start: *addr, until: SENTINEL_RETURN, push_return: true }),
            None => Err(RunError::LabelNotFound { label: String::from_str(t) }),
        },
        None => Ok(EntryPoint { start: LOAD_ADDR, until: LOAD_ADDR + code_len as u64, push_return: false }),
    }
}

/// The stack pointer after the return address has been pushed: one word lower.
pub fn return_slot(sp: u64) -> (r: u64)
    requires
        sp >= 2,
    ensures
        r == sp - 2,
{
    sp - 2
}

/// The test suite of the exercise with the given name, if it has one.
pub fn get_test_suite(name: &str) -> (r: Option<ProgrammaticSuite>)
    ensures
        match crate::exercise_tests::exercise_named(name@) {
            Some(e) => r is Some && r.unwrap()@ == crate::exercise_tests::suite_spec(e),
            None => r is None,
        },
{
    match crate::exercise_tests::ExerciseName::from_name(name) {
        Ok(e) => crate::exercise_tests::get_test_suite(e),
        Err(_) => None,
    }
}

/// The test suite to run for an exercise, or the error that it has none.
pub fn exercise_suite(ex: &Exercise) -> (r: Result<ProgrammaticSuite, RunError>)
    ensures
        match crate::exercise_tests::exercise_named(ex.name@) {
            Some(e) => r is Ok && r.unwrap()@ == crate::exercise_tests::suite_spec(e),
            None => match r {
                Err(RunError::NoSuite { exercise }) => exercise@ == ex.name@,
                _ => false,
            },
        },
{
    match get_test_suite(ex.name.as_str()) {
        Some(s) => Ok(s),
        None => Err(RunError::NoSuite { exercise: ex.name.clone() }),
    }
}

/// A memory check at a known label reads a two-byte check as the little-endian
/// word of the bytes `[lo, hi]`: it passes exactly when `lo + 256 * hi` is the
/// value expected, and reports that word, and the expected value, in four hex
/// digits.
pub proof fn lemma_word_check_little_endian(
    labels: Map<Seq<char>, u64>,
    label: Seq<char>,
    expected: u16,
    lo: u8,
    hi: u8,
)
    requires
        labels.dom().contains(label),
    ensures
        mem_outcome(labels, label, expected, 2, Some(seq![lo, hi])).passed == (lo + 256 * hi == expected),
        mem_outcome(labels, label, expected, 2, Some(seq![lo, hi])).actual == hex_text(
            (lo + 256 * hi) as nat,
            4,
        ),
        mem_outcome(labels, label, expected, 2, Some(seq![lo, hi])).expected == hex_text(expected as nat, 4),
        mem_outcome(labels, label, expected, 2, Some(seq![lo, hi])).name == "["@ + label + "]"@,
{
    let bytes = seq![lo, hi];
    assert(bytes[0] == lo && bytes[1] == hi);
    assert(0 <= lo + 256 * hi <= 0xFFFF);
}

/// A memory check at a known label of any other size reads the first byte
/// alone: it passes exactly when that byte is the value expected, and reports
/// it in two hex digits.
pub proof fn lemma_byte_check_first_byte(
    labels: Map<Seq<char>, u64>,
    label: Seq<char>,
    expected: u16,
    size: usize,
    bytes: Seq<u8>,
)
    requires
        labels.dom().contains(label),
        size != 2,
        bytes.len() >= 1,
    ensures
        mem_outcome(labels, label, expected, size, Some(bytes)).passed == (bytes[0] == expected),
        mem_outcome(labels, label, expected, size, Some(bytes)).actual == hex_text(bytes[0] as nat, 2),
        mem_outcome(labels, label, expected, size, Some(bytes)).expected == hex_text(expected as nat, 2),
{
}

} // verus!
