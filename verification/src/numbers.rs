//! Reading and writing unsigned integers as text: the radix parsing that
//! `u64::from_str_radix` and `str::parse` perform, the `0x`-prefixed numbers of
//! the exercise tooling, and decimal and zero-padded upper-case hexadecimal output.
use vstd::prelude::*;
use vstd::arithmetic::div_mod::lemma_fundamental_div_mod;
use crate::text::{chars_of, is_prefix, push_char, slice_to_vec, starts_with, trim, trim_chars, trim_end, trim_start};

verus! {

/// The value of a character read as a digit: `0`-`9`, then `a`-`z` or `A`-`Z`
/// for ten and above; 36 for any other character, which no radix accepts.
pub open spec fn digit_value(c: char) -> nat {
    if '0' <= c && c <= '9' {
        (c as int - '0' as int) as nat
    } else if 'a' <= c && c <= 'z' {
        (c as int - 'a' as int + 10) as nat
    } else if 'A' <= c && c <= 'Z' {
        (c as int - 'A' as int + 10) as nat
    } else {
        36
    }
}

/// Whether every character of `s` is a digit in `radix`.
pub open spec fn all_digits(s: Seq<char>, radix: nat) -> bool {
    forall|i: int| 0 <= i < s.len() ==> #[trigger] digit_value(s[i]) < radix
}

/// The number that the digits `s` denote in `radix`, most significant first.
pub open spec fn digits_value(s: Seq<char>, radix: nat) -> nat
    decreases s.len(),
{
    if s.len() == 0 {
        0
    } else {
        digits_value(s.drop_last(), radix) * radix + digit_value(s.last())
    }
}

/// What `u64::from_str_radix(s, radix)` returns, with `Err` as `None`: an
/// optional `+`, then at least one digit of `radix`, denoting at most `u64::MAX`.
pub open spec fn from_str_radix(s: Seq<char>, radix: nat) -> Option<u64> {
    let body = if s.len() > 0 && s[0] == '+' {
        s.drop_first()
    } else {
        s
    };
    if body.len() > 0 && all_digits(body, radix) && digits_value(body, radix) <= u64::MAX {
        Some(digits_value(body, radix) as u64)
    } else {
        None
    }
}

/// The value of one digit character.
fn digit_of(c: char) -> (d: u32)
    ensures
        d == digit_value(c),
{
    if '0' <= c && c <= '9' {
        (c as u32) - ('0' as u32)
    } else if 'a' <= c && c <= 'z' {
        (c as u32) - ('a' as u32) + 10
    } else if 'A' <= c && c <= 'Z' {
        (c as u32) - ('A' as u32) + 10
    } else {
        36
    }
}

proof fn lemma_digits_value_grows(s: Seq<char>, radix: nat, k: int, j: int)
    requires
        radix >= 1,
        0 <= k <= j <= s.len(),
    ensures
        digits_value(s.take(j), radix) >= digits_value(s.take(k), radix),
    decreases j - k,
{
    if j > k {
        lemma_digits_value_grows(s, radix, k, j - 1);
        assert(s.take(j).drop_last() =~= s.take(j - 1));
        let a = digits_value(s.take(j - 1), radix);
        assert(a * radix >= a) by (nonlinear_arith)
            requires
                radix >= 1,
                a >= 0,
        ;
    }
}

/// Reads `s` as a number in `radix`, as `u64::from_str_radix` does.
pub fn parse_radix(s: &[char], radix: u32) -> (r: Option<u64>)
    requires
        2 <= radix <= 36,
    ensures
        r == from_str_radix(s@, radix as nat),
{
    let n = s.len();
    let mut start: usize = 0;
    if n > 0 && s[0] == '+' {
        start = 1;
    }
    let ghost body = if s@.len() > 0 && s@[0] == '+' {
        s@.drop_first()
    } else {
        s@
    };
    assert(body =~= s@.subrange(start as int, n as int));
    if start == n {
        return None;
    }
    let mut acc: u64 = 0;
    let mut i: usize = start;
    assert(body.take(0) =~= seq![]);
    while i < n
        invariant
            start <= i <= n,
            n == s.len(),
            2 <= radix <= 36,
            body =~= s@.subrange(start as int, n as int),
            body == (if s@.len() > 0 && s@[0] == '+' {
                s@.drop_first()
            } else {
                s@
            }),
            all_digits(body.take(i - start), radix as nat),
            acc == digits_value(body.take(i - start), radix as nat),
        decreases n - i,
    {
        let d = digit_of(s[i]);
        assert(body[i - start] == s@[i as int]);
        if d >= radix {
            assert(digit_value(body[i - start]) >= radix as nat);
            assert(!all_digits(body, radix as nat));
            return None;
        }
        assert(body.take(i - start + 1).drop_last() =~= body.take(i - start));
        assert((acc as u128) * (radix as u128) <= 0xffff_ffff_ffff_ffffu128 * 36) by (
        nonlinear_arith)
            requires
                acc <= 0xffff_ffff_ffff_ffffu64,
                radix <= 36,
        ;
        let wide: u128 = (acc as u128) * (radix as u128) + (d as u128);
        assert(body.take(i - start + 1).last() == body[i - start]);
        assert(digits_value(body.take(i - start + 1), radix as nat) == wide);
        if wide > 0xffff_ffff_ffff_ffffu128 {
            proof {
                lemma_digits_value_grows(body, radix as nat, i - start + 1, body.len() as int);
                assert(body.take(body.len() as int) =~= body);
            }
            return None;
        }
        acc = wide as u64;
        assert(all_digits(body.take(i - start + 1), radix as nat)) by {
            assert forall|k: int| 0 <= k < body.take(i - start + 1).len() implies digit_value(
                #[trigger] body.take(i - start + 1)[k],
            ) < radix as nat by {
                if k < i - start {
                    assert(body.take(i - start + 1)[k] == body.take(i - start)[k]);
                }
            }
        }
        i = i + 1;
    }
    assert(body.take(n - start) =~= body);
    Some(acc)
}

/// What the exercise tooling reads from `s`: after trimming, a `0x` or `0X`
/// prefix selects hexadecimal, anything else is read as decimal.
pub open spec fn spec_parse_u64(s: Seq<char>) -> Option<u64> {
    let t = trim(s);
    if is_prefix(seq!['0', 'x'], t) || is_prefix(seq!['0', 'X'], t) {
        from_str_radix(t.skip(2), 16)
    } else {
        from_str_radix(t, 10)
    }
}

/// Reads a number written in decimal or, with a `0x` or `0X` prefix, in
/// hexadecimal, ignoring white space around it.
pub fn parse_u64(s: &str) -> (r: Option<u64>)
    ensures
        r == spec_parse_u64(s@),
{
    let chars = chars_of(s);
    let t = trim_chars(chars.as_slice());
    let lower_prefix = starts_with(t.as_slice(), &['0', 'x']);
    let upper_prefix = starts_with(t.as_slice(), &['0', 'X']);
    assert(seq!['0', 'x'] =~= [ '0', 'x' ]@);
    assert(seq!['0', 'X'] =~= [ '0', 'X' ]@);
    if lower_prefix || upper_prefix {
        let rest = slice_to_vec(t.as_slice(), 2, t.len());
        assert(rest@ =~= t@.skip(2));
        parse_radix(rest.as_slice(), 16)
    } else {
        parse_radix(t.as_slice(), 10)
    }
}

/// The character for a digit value: `0`-`9`, then upper-case letters.
pub open spec fn digit_char(d: nat) -> char {
    if d < 10 {
        (d + '0' as nat) as char
    } else {
        (d - 10 + 'A' as nat) as char
    }
}

/// Dividing by a radix of at least two makes a number no smaller than the radix smaller.
pub proof fn lemma_quotient_smaller(v: nat, radix: nat)
    requires
        radix >= 2,
        v >= radix,
    ensures
        v / radix < v,
{
    assert(v / radix < v) by (nonlinear_arith)
        requires
            radix >= 2,
            v >= radix,
    ;
}

/// The digits of `v` in `radix`, most significant first, with no leading zero
/// (zero itself is the single digit `0`).
pub open spec fn digits_of(v: nat, radix: nat) -> Seq<char>
    decreases v,
{
    if radix < 2 || v < radix {
        seq![digit_char(v)]
    } else {
        proof {
            lemma_quotient_smaller(v, radix);
        }
        digits_of(v / radix, radix).push(digit_char(v % radix))
    }
}

/// `s` left-padded with `0` to at least `width` characters.
pub open spec fn zero_padded(s: Seq<char>, width: nat) -> Seq<char> {
    if s.len() < width {
        Seq::new((width - s.len()) as nat, |i: int| '0') + s
    } else {
        s
    }
}

/// The text that `format!("0x{:0w$X}", v)` gives for `w == width`.
pub open spec fn hex_text(v: nat, width: nat) -> Seq<char> {
    seq!['0', 'x'] + zero_padded(digits_of(v, 16), width)
}

fn digit_char_of(d: u64) -> (c: char)
    requires
        d < 36,
    ensures
        c == digit_char(d as nat),
{
    if d < 10 {
        let b: u8 = (d as u8) + 48;
        b as char
    } else {
        let b: u8 = (d as u8) - 10 + 65;
        b as char
    }
}

/// Appends the digits of `v` in `radix`.
pub fn push_digits(s: &mut String, v: u64, radix: u64)
    requires
        2 <= radix <= 16,
    ensures
        final(s)@ == old(s)@ + digits_of(v as nat, radix as nat),
    decreases v,
{
    if v < radix {
        push_char(s, digit_char_of(v));
    } else {
        proof {
            lemma_quotient_smaller(v as nat, radix as nat);
        }
        push_digits(s, v / radix, radix);
        push_char(s, digit_char_of(v % radix));
    }
}

/// The number of digits of `v` in `radix`.
pub fn digit_count(v: u64, radix: u64) -> (n: usize)
    requires
        2 <= radix <= 16,
    ensures
        n == digits_of(v as nat, radix as nat).len(),
        n <= 64,
    decreases v,
{
    proof {
        reveal_with_fuel(pow2_nat, 65);
        assert(pow2_nat(64) == 0x1_0000_0000_0000_0000);
        lemma_digits_len(v as nat, radix as nat, 64);
    }
    if v < radix {
        1
    } else {
        digit_count(v / radix, radix) + 1
    }
}

proof fn lemma_digits_len(v: nat, radix: nat, k: nat)
    requires
        2 <= radix,
        1 <= k,
        v < pow2_nat(k),
    ensures
        digits_of(v, radix).len() <= k,
    decreases v,
{
    if v >= radix {
        assert(k >= 2) by {
            if k == 1 {
                assert(pow2_nat(1) == 2 * pow2_nat(0));
            }
        }
        let p = pow2_nat((k - 1) as nat);
        assert(pow2_nat(k) == 2 * p);
        assert(v / radix < p) by (nonlinear_arith)
            requires
                radix >= 2,
                v < 2 * p,
        ;
        assert(v / radix < v) by (nonlinear_arith)
            requires
                radix >= 2,
                v >= radix,
        ;
        lemma_digits_len(v / radix, radix, (k - 1) as nat);
    }
}

/// `2` to the power `e`.
pub open spec fn pow2_nat(e: nat) -> nat
    decreases e,
{
    if e == 0 {
        1
    } else {
        2 * pow2_nat((e - 1) as nat)
    }
}

/// Appends `count` zero characters.
pub fn push_zeros(s: &mut String, count: usize)
    ensures
        final(s)@ == old(s)@ + Seq::new(count as nat, |i: int| '0'),
{
    let mut k: usize = 0;
    while k < count
        invariant
            k <= count,
            s@ == old(s)@ + Seq::new(k as nat, |i: int| '0'),
        decreases count - k,
    {
        push_char(s, '0');
        assert(Seq::new((k + 1) as nat, |i: int| '0') =~= Seq::new(k as nat, |i: int| '0').push(
            '0',
        ));
        k = k + 1;
    }
}

/// `v` in upper-case hexadecimal with a `0x` prefix, zero-padded to `width`
/// digits, as `format!("0x{:0w$X}", v)` writes it.
pub fn format_hex(v: u64, width: usize) -> (s: String)
    ensures
        s@ == hex_text(v as nat, width as nat),
{
    let mut s = String::new();
    push_char(&mut s, '0');
    push_char(&mut s, 'x');
    let n = digit_count(v, 16);
    if n < width {
        push_zeros(&mut s, width - n);
    }
    push_digits(&mut s, v, 16);
    assert(s@ =~= hex_text(v as nat, width as nat));
    s
}

/// `v` in decimal, as `v.to_string()` writes it.
pub fn format_decimal(v: u64) -> (s: String)
    ensures
        s@ == digits_of(v as nat, 10),
{
    let mut s = String::new();
    push_digits(&mut s, v, 10);
    assert(s@ =~= digits_of(v as nat, 10));
    s
}

/// The digits of any number are digits of its radix, and denote the number.
pub proof fn lemma_digits_roundtrip(v: nat, radix: nat)
    requires
        2 <= radix <= 16,
    ensures
        digits_of(v, radix).len() > 0,
        all_digits(digits_of(v, radix), radix),
        digits_value(digits_of(v, radix), radix) == v,
        digits_of(v, radix)[0] != '+',
    decreases v,
{
    let d = digits_of(v, radix);
    if v < radix {
        assert(d.drop_last() =~= seq![]);
        assert(digit_value(digit_char(v)) == v);
        assert(digits_value(d.drop_last(), radix) == 0);
        assert(0 * radix == 0);
    } else {
        assert(v / radix < v) by (nonlinear_arith)
            requires
                radix >= 2,
                v >= radix,
        ;
        lemma_digits_roundtrip(v / radix, radix);
        let p = digits_of(v / radix, radix);
        assert(d.drop_last() =~= p);
        assert(v % radix < radix) by (nonlinear_arith)
            requires
                radix >= 2,
        ;
        assert(digit_value(digit_char(v % radix)) == v % radix);
        lemma_fundamental_div_mod(v as int, radix as int);
        assert((v / radix) * radix + v % radix == v) by (nonlinear_arith)
            requires
                v == radix * (v / radix) + v % radix,
        ;
        assert forall|i: int| 0 <= i < d.len() implies #[trigger] digit_value(d[i]) < radix by {
            if i < p.len() {
                assert(d[i] == p[i]);
            }
        }
        assert(d[0] == p[0]);
    }
}

/// Reading back the decimal digits of a number gives the number.
pub proof fn lemma_decimal_roundtrip(v: u64)
    ensures
        from_str_radix(digits_of(v as nat, 10), 10) == Some(v),
{
    lemma_digits_roundtrip(v as nat, 10);
}

/// Reading back the `0x` text of a number gives the number, whatever the padding.
pub proof fn lemma_hex_roundtrip(v: u64, width: nat)
    ensures
        spec_parse_u64(hex_text(v as nat, width)) == Some(v),
{
    let d = digits_of(v as nat, 16);
    lemma_digits_roundtrip(v as nat, 16);
    let t = hex_text(v as nat, width);
    let z = zero_padded(d, width);
    assert(trim_start(t) == t);
    assert(trim_end(t) == t) by {
        assert(t.last() == z.last());
        assert(z.last() == d.last());
        assert(digit_value(d.last()) < 16);
    }
    assert(t.take(2) =~= seq!['0', 'x']);
    assert(t.skip(2) =~= z);
    if d.len() < width {
        let pad = (width - d.len()) as nat;
        let zeros = Seq::new(pad, |i: int| '0');
        lemma_leading_zeros(zeros, d, 16);
        assert(z =~= zeros + d);
    }
    assert(all_digits(z, 16)) by {
        assert forall|i: int| 0 <= i < z.len() implies #[trigger] digit_value(z[i]) < 16 by {
            if d.len() < width && i < width - d.len() {
                assert(z[i] == '0');
            } else if d.len() < width {
                assert(z[i] == d[i - (width - d.len())]);
            }
        }
    }
    assert(z[0] != '+');
}

/// Leading zeros do not change the value of digits.
pub proof fn lemma_leading_zeros(zeros: Seq<char>, d: Seq<char>, radix: nat)
    requires
        forall|i: int| 0 <= i < zeros.len() ==> zeros[i] == '0',
    ensures
        digits_value(zeros + d, radix) == digits_value(d, radix),
    decreases d.len(),
{
    if d.len() == 0 {
        assert(zeros + d =~= zeros);
        lemma_zeros_value(zeros, radix);
    } else {
        lemma_leading_zeros(zeros, d.drop_last(), radix);
        assert((zeros + d).drop_last() =~= zeros + d.drop_last());
    }
}

proof fn lemma_zeros_value(zeros: Seq<char>, radix: nat)
    requires
        forall|i: int| 0 <= i < zeros.len() ==> zeros[i] == '0',
    ensures
        digits_value(zeros, radix) == 0,
    decreases zeros.len(),
{
    if zeros.len() > 0 {
        lemma_zeros_value(zeros.drop_last(), radix);
        assert(zeros.last() == '0');
        assert(0 * radix == 0);
    }
}

} // verus!
