//! Fixed values of the exercise machine and of the tool's files and output.
use vstd::prelude::*;

verus! {

/// Where the assembled code is loaded and started.
pub const LOAD_ADDR: u64 = 0x0100;

/// The first address of the emulated memory.
pub const MEM_BASE: u64 = 0x0000;

/// The size of the emulated memory: one 64 KiB segment.
pub const MEM_SIZE: u64 = 0x10000;

/// The stack pointer every test case starts with.
pub const STACK_TOP: u64 = 0xFFF0;

/// The return address pushed before calling a subroutine under test; the run
/// stops when the subroutine returns to it.
pub const SENTINEL_RETURN: u64 = 0x0000;

/// How many instructions a test case may execute before it counts as stuck.
pub const INSTRUCTION_LIMIT: usize = 10_000;

/// The name of the progress file inside the exercises folder.
pub const STATE_FILE: &'static str = ".asmlings_state";

/// Where the exercises are.
pub const EXERCISES_FOLDER: &'static str = "./exercises";

/// ANSI terminal codes.
pub const RESET: &'static str = "\x1b[0m";
pub const BOLD: &'static str = "\x1b[1m";
pub const DIM: &'static str = "\x1b[2m";
pub const GREEN: &'static str = "\x1b[32m";
pub const RED: &'static str = "\x1b[31m";
pub const BLUE: &'static str = "\x1b[34m";
pub const YELLOW: &'static str = "\x1b[33m";
pub const GREEN_BG: &'static str = "\x1b[42;30m";
pub const RED_BG: &'static str = "\x1b[41;30m";

} // verus!
