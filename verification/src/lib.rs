//! Asmlings: an exercise runner for 16-bit x86 assembly. This library holds the
//! text processing, the exercise catalogue, the test harness and the decisions
//! of the command-line tool; the program around it does the I/O.
pub mod text;
pub mod numbers;
pub mod state;
pub mod exercise;
pub mod assembler;
pub mod registers;
pub mod constants;
pub mod harness;
pub mod hints;
pub mod commands;
pub mod ui;
