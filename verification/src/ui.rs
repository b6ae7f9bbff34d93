//! The layout of the tool's terminal output: the banner's padding and the
//! progress bar's proportions. The program prints them.
use vstd::prelude::*;
use crate::numbers::{digit_count, digits_of, format_decimal};
use vstd::string::StringSliceAdditionalSpecFns;

verus! {

/// The banner's title part.
pub const BANNER_LEFT: &'static str = "  A S M L I N G S  ·  x86 · 16-bit assembly exercises  ";

/// `a - b`, or zero when `b` is larger, as `usize::saturating_sub` gives it.
pub open spec fn sat_sub(a: int, b: int) -> int {
    if a >= b {
        a - b
    } else {
        0
    }
}

/// What the banner is made of: its title and version parts, the width inside
/// its frame, and the spaces between the parts.
pub struct BannerLayout {
    pub left: String,
    pub right: String,
    pub inner: usize,
    pub pad: usize,
}

/// The banner for a terminal `w` columns wide and the tool's `version`: the
/// frame is four columns narrower than the terminal, and the title and the
/// version tag (`  v<version>  `) are separated by what room is left, counted in
/// bytes.
pub fn banner_layout(w: usize, version: &str) -> (b: BannerLayout)
    requires
        version.spec_bytes().len() + 5 + BANNER_LEFT.spec_bytes().len() <= usize::MAX,
    ensures
        b.left@ == BANNER_LEFT@,
        b.right@ == "  v"@ + version@ + "  "@,
        b.inner == sat_sub(w as int, 4),
        b.pad == sat_sub(
            b.inner as int,
            (BANNER_LEFT.spec_bytes().len() + 5 + version.spec_bytes().len()) as int,
        ),
{
    let inner = w.saturating_sub(4);
    let left = String::from_str(BANNER_LEFT);
    let mut right = String::from_str("  v");
    right.append(version);
    right.append("  ");
    let used = BANNER_LEFT.len() + 5 + version.len();
    let pad = inner.saturating_sub(used);
    BannerLayout { left, right, inner, pad }
}

/// The width of a separator line: two columns narrower than the terminal.
pub fn rule_width(w: usize) -> (r: usize)
    ensures
        r == sat_sub(w as int, 2),
{
    w.saturating_sub(2)
}

/// The text of the progress counter: `  <current> / <total>  `.
pub open spec fn progress_label(current: usize, total: usize) -> Seq<char> {
    "  "@ + digits_of(current as nat, 10) + " / "@ + digits_of(total as nat, 10) + "  "@
}

/// The width of the bar itself: the terminal's width less two columns and the
/// counter.
pub open spec fn bar_width(current: usize, total: usize, w: usize) -> int {
    sat_sub(w as int, (2 + 7 + digits_of(current as nat, 10).len() + digits_of(total as nat, 10).len()) as int)
}

/// Whether the progress bar for these numbers can be laid out: the product of
/// `current` and the bar's width fits in a `usize`.
pub fn progress_bar_fits(current: usize, total: usize, w: usize) -> (b: bool)
    ensures
        b == (current * bar_width(current, total, w) <= usize::MAX),
{
    let label_len = 7 + digit_count(current as u64, 10) + digit_count(total as u64, 10);
    let bar_w = w.saturating_sub(2 + label_len);
    current.checked_mul(bar_w).is_some()
}

/// The parts of the progress bar: its counter text, and how many cells are
/// filled and how many empty.
pub struct ProgressBar {
    pub label: String,
    pub filled: usize,
    pub empty: usize,
}

/// The progress bar for `current` of `total` exercises on a terminal `w` columns
/// wide: the bar's cells are filled in proportion `current / total`, rounded
/// down (none when there are no exercises).
pub fn progress_bar_layout(current: usize, total: usize, w: usize) -> (p: ProgressBar)
    requires
        current * bar_width(current, total, w) <= usize::MAX,
    ensures
        p.label@ == progress_label(current, total),
        p.filled == (if total == 0 {
            0
        } else {
            current * bar_width(current, total, w) / (total as int)
        }),
        p.empty == sat_sub(bar_width(current, total, w), p.filled as int),
{
    let mut label = String::from_str("  ");
    let cur = format_decimal(current as u64);
    label.append(cur.as_str());
    label.append(" / ");
    let tot = format_decimal(total as u64);
    label.append(tot.as_str());
    label.append("  ");
    proof {
        reveal_strlit("  ");
        reveal_strlit(" / ");
    }
    let label_len = 7 + digit_count(current as u64, 10) + digit_count(total as u64, 10);
    let bar_w = w.saturating_sub(2 + label_len);
    let filled = if total == 0 {
        0
    } else {
        current * bar_w / total
    };
    let empty = bar_w.saturating_sub(filled);
    ProgressBar { label, filled, empty }
}

} // verus!
