//! The progress file: one decimal number, the index of the exercise the student
//! is working on. The program reads and writes the file; this module decides
//! what its text means and what text records a given index.
use vstd::prelude::*;
use crate::numbers::{digits_of, format_decimal, from_str_radix, lemma_decimal_roundtrip, parse_radix};
use crate::text::{chars_of, trim, trim_chars, trim_end, trim_start};

verus! {

/// The index recorded by the progress file's contents, `None` when the file
/// could not be read: its trimmed text read as a decimal `usize`, and `0` for a
/// missing or unreadable file or text that is no such number.
pub open spec fn spec_current_index(contents: Option<Seq<char>>) -> usize {
    match contents {
        Some(t) => match from_str_radix(trim(t), 10) {
            Some(v) => if v <= usize::MAX {
                v as usize
            } else {
                0
            },
            None => 0,
        },
        None => 0,
    }
}

/// The exercise index that the progress file's contents record (`None` when the
/// file could not be read).
pub fn read_current_index(contents: Option<&str>) -> (index: usize)
    ensures
        index == spec_current_index(
            match contents {
                Some(t) => Some(t@),
                None => None,
            },
        ),
{
    match contents {
        Some(t) => {
            let chars = chars_of(t);
            let trimmed = trim_chars(chars.as_slice());
            match parse_radix(trimmed.as_slice(), 10) {
                Some(v) => if v <= usize::MAX as u64 {
                    v as usize
                } else {
                    0
                },
                None => 0,
            }
        },
        None => 0,
    }
}

/// The text that records `index` in the progress file: its decimal digits.
pub fn write_current_index(index: usize) -> (text: String)
    ensures
        text@ == digits_of(index as nat, 10),
{
    format_decimal(index as u64)
}

/// Reading back what was written for an index gives that index.
pub proof fn lemma_index_roundtrip(index: usize)
    ensures
        spec_current_index(Some(digits_of(index as nat, 10))) == index,
{
    let d = digits_of(index as nat, 10);
    lemma_decimal_roundtrip(index as u64);
    crate::numbers::lemma_digits_roundtrip(index as nat, 10);
    assert(trim_start(d) == d) by {
        assert(crate::numbers::digit_value(d[0]) < 10);
    }
    assert(trim_end(d) == d) by {
        assert(crate::numbers::digit_value(d[d.len() - 1]) < 10);
    }
}

} // verus!
