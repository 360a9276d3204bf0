//! Decimal rendering and parsing of numbers as text.

use vstd::prelude::*;
use vstd::string::*;

verus! {

/// `String::push` of the standard library: the string afterwards is the
/// string before with `ch` added at its end.
pub assume_specification[ String::push ](s: &mut String, ch: char)
    ensures
        final(s)@ == old(s)@.push(ch),
;

/// Whether two pieces of text hold the same characters.
pub fn same_text(a: &str, b: &str) -> (same: bool)
    ensures
        same == (a@ == b@),
{
    let left: String = String::from_str(a);
    let right: String = String::from_str(b);
    left == right
}

/// The character that stands for the decimal digit `d`.
pub open spec fn digit_char(d: int) -> char {
    (48 + d) as char
}

/// Whether `c` is one of `'0'` to `'9'`.
pub open spec fn is_digit(c: char) -> bool {
    48 <= c as int <= 57
}

/// The number that the digit `c` stands for.
pub open spec fn digit_value(c: char) -> int {
    c as int - 48
}

/// Whether every character of `s` is a decimal digit.
pub open spec fn all_digits(s: Seq<char>) -> bool {
    forall|i: int| 0 <= i < s.len() ==> is_digit(#[trigger] s[i])
}

/// The shortest decimal rendering of `n`: no leading zero, except for zero itself.
pub open spec fn decimal(n: nat) -> Seq<char>
    decreases n,
{
    if n < 10 {
        seq![digit_char(n as int)]
    } else {
        decimal(n / 10).push(digit_char((n % 10) as int))
    }
}

/// The lowest `width` decimal digits of `n`, most significant first.
/// For `n < 10^width` this is `n` padded with zeros on the left to `width` characters.
pub open spec fn fixed_decimal(n: nat, width: nat) -> Seq<char>
    decreases width,
{
    if width == 0 {
        Seq::empty()
    } else {
        fixed_decimal(n / 10, (width - 1) as nat).push(digit_char((n % 10) as int))
    }
}

/// The number that a string of decimal digits stands for.
pub open spec fn digits_value(s: Seq<char>) -> nat
    decreases s.len(),
{
    if s.len() == 0 {
        0
    } else {
        (digits_value(s.drop_last()) * 10 + digit_value(s.last())) as nat
    }
}

/// Ten to the power `e`.
pub open spec fn pow10(e: nat) -> nat
    decreases e,
{
    if e == 0 {
        1
    } else {
        10 * pow10((e - 1) as nat)
    }
}

/// A fixed-width rendering has exactly `width` characters, all of them digits.
pub proof fn lemma_fixed_decimal_shape(n: nat, width: nat)
    ensures
        fixed_decimal(n, width).len() == width,
        all_digits(fixed_decimal(n, width)),
    decreases width,
{
    if width > 0 {
        lemma_fixed_decimal_shape(n / 10, (width - 1) as nat);
    }
}

/// Reading a fixed-width rendering back gives the number again, as long as
/// the number fits in the width.
pub proof fn lemma_fixed_decimal_value(n: nat, width: nat)
    requires
        n < pow10(width),
    ensures
        digits_value(fixed_decimal(n, width)) == n,
    decreases width,
{
    if width > 0 {
        let head = fixed_decimal(n / 10, (width - 1) as nat);
        let whole = fixed_decimal(n, width);
        assert(n / 10 < pow10((width - 1) as nat));
        lemma_fixed_decimal_value(n / 10, (width - 1) as nat);
        assert(whole.drop_last() =~= head);
        assert(digit_value(whole.last()) == n % 10);
    }
}

/// The character of one decimal digit.
pub fn digit_to_char(d: u8) -> (c: char)
    requires
        d < 10,
    ensures
        c == digit_char(d as int),
{
    (48u8 + d) as char
}

/// Appends the shortest decimal rendering of `n` to `out`.
pub fn push_decimal(out: &mut String, n: u64)
    ensures
        final(out)@ == old(out)@ + decimal(n as nat),
    decreases n,
{
    if n >= 10 {
        push_decimal(out, n / 10);
    }
    out.push(digit_to_char((n % 10) as u8));
    assert(out@ =~= old(out)@ + decimal(n as nat));
}

/// Appends the lowest `width` decimal digits of `n` to `out`, most
/// significant first.
pub fn push_fixed_decimal(out: &mut String, n: u64, width: usize)
    ensures
        final(out)@ == old(out)@ + fixed_decimal(n as nat, width as nat),
    decreases width,
{
    if width > 0 {
        push_fixed_decimal(out, n / 10, width - 1);
        out.push(digit_to_char((n % 10) as u8));
    }
    assert(out@ =~= old(out)@ + fixed_decimal(n as nat, width as nat));
}

/// Powers of ten grow with the exponent.
pub proof fn lemma_pow10_monotonic(a: nat, b: nat)
    requires
        a <= b,
    ensures
        1 <= pow10(a) <= pow10(b),
    decreases b,
{
    if a < b {
        lemma_pow10_monotonic(a, (b - 1) as nat);
    } else if b > 0 {
        lemma_pow10_monotonic((a - 1) as nat, (b - 1) as nat);
    }
}

/// The value of a decimal digit character, or `None` for any other character.
pub fn char_to_digit(c: char) -> (d: Option<u8>)
    ensures
        d is Some <==> is_digit(c),
        d is Some ==> d.unwrap() as int == digit_value(c),
{
    let code: u32 = c as u32;
    if 48 <= code && code <= 57 {
        Some((code - 48) as u8)
    } else {
        None
    }
}

/// Reads the first `width` characters of `s` as a decimal number.
///
/// Gives the number exactly when `s` has at least `width` characters and the
/// first `width` of them are all digits.
pub fn parse_fixed_decimal(s: &str, width: usize) -> (value: Option<u64>)
    requires
        width <= 19,
    ensures
        value is Some <==> width <= s@.len() && all_digits(s@.take(width as int)),
        value is Some ==> value.unwrap() as nat == digits_value(s@.take(width as int)),
{
    let len: usize = s.unicode_len();
    if len < width {
        return None;
    }
    let mut acc: u64 = 0;
    let mut i: usize = 0;
    while i < width
        invariant
            i <= width <= 19,
            width <= s@.len(),
            all_digits(s@.take(i as int)),
            acc as nat == digits_value(s@.take(i as int)),
            acc < pow10(i as nat),
        decreases width - i,
    {
        let c: char = s.get_char(i);
        let ghost before = s@.take(i as int);
        let ghost after = s@.take(i + 1);
        proof {
            assert(after.drop_last() =~= before);
            assert(after.last() == c);
        }
        match char_to_digit(c) {
            Some(d) => {
                proof {
                    lemma_pow10_monotonic((i + 1) as nat, 19);
                    reveal_with_fuel(pow10, 20);
                    assert(pow10(19) == 10_000_000_000_000_000_000nat);
                    assert(acc * 10 + d < pow10((i + 1) as nat));
                    assert forall|k: int| 0 <= k < after.len() implies is_digit(
                        #[trigger] after[k],
                    ) by {
                        if k < i {
                            assert(after[k] == before[k]);
                        }
                    }
                }
                acc = acc * 10 + d as u64;
                i = i + 1;
            },
            None => {
                proof {
                    let whole = s@.take(width as int);
                    assert(whole[i as int] == c);
                }
                return None;
            },
        }
    }
    Some(acc)
}

} // verus!
