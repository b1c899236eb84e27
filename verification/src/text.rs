//! Numbers as decimal text.

use vstd::prelude::*;

verus! {

/// The character of the decimal digit `d`.
pub open spec fn digit_char(d: int) -> char {
    if d == 0 {
        '0'
    } else if d == 1 {
        '1'
    } else if d == 2 {
        '2'
    } else if d == 3 {
        '3'
    } else if d == 4 {
        '4'
    } else if d == 5 {
        '5'
    } else if d == 6 {
        '6'
    } else if d == 7 {
        '7'
    } else if d == 8 {
        '8'
    } else {
        '9'
    }
}

/// The decimal digits of `n`, without leading zeros; of zero, the one digit `0`.
pub open spec fn decimal(n: nat) -> Seq<char>
    decreases n,
{
    if n < 10 {
        seq![digit_char(n as int)]
    } else {
        decimal(n / 10).push(digit_char((n % 10) as int))
    }
}

/// `count` zeros.
pub open spec fn zeros(count: nat) -> Seq<char> {
    Seq::new(count, |i: int| '0')
}

/// The decimal digits of `n`, with zeros in front where there are fewer than `width`.
pub open spec fn padded_decimal(n: nat, width: nat) -> Seq<char> {
    if decimal(n).len() >= width {
        decimal(n)
    } else {
        zeros((width - decimal(n).len()) as nat) + decimal(n)
    }
}

/// The decimal text of `n`, with a minus sign in front of a negative number.
pub open spec fn signed_decimal(n: int) -> Seq<char> {
    if n < 0 {
        seq!['-'] + decimal((-n) as nat)
    } else {
        decimal(n as nat)
    }
}

/// The decimal digits of `n` in groups of three, counted from the right,
/// with a comma between the groups.
pub open spec fn grouped(n: nat) -> Seq<char>
    decreases n,
{
    if n < 1000 {
        decimal(n)
    } else {
        grouped(n / 1000) + seq![','] + padded_decimal(n % 1000, 3)
    }
}

/// A number has at least one digit.
pub proof fn lemma_decimal_len(n: nat)
    ensures
        decimal(n).len() >= 1,
        n < 10 ==> decimal(n).len() == 1,
        10 <= n < 100 ==> decimal(n).len() == 2,
    decreases n,
{
    if n >= 10 {
        lemma_decimal_len(n / 10);
    }
}

/// Appends one character with `String::push`.
#[verifier::external_body]
pub(crate) fn push_char(out: &mut String, c: char)
    ensures
        final(out)@ == old(out)@.push(c),
{
    out.push(c)
}

fn digit(d: u64) -> (c: char)
    requires
        d < 10,
    ensures
        c == digit_char(d as int),
{
    if d == 0 {
        '0'
    } else if d == 1 {
        '1'
    } else if d == 2 {
        '2'
    } else if d == 3 {
        '3'
    } else if d == 4 {
        '4'
    } else if d == 5 {
        '5'
    } else if d == 6 {
        '6'
    } else if d == 7 {
        '7'
    } else if d == 8 {
        '8'
    } else {
        '9'
    }
}

/// Appends the decimal digits of `n`.
pub fn push_decimal(out: &mut String, n: u64)
    ensures
        final(out)@ == old(out)@ + decimal(n as nat),
    decreases n,
{
    if n >= 10 {
        push_decimal(out, n / 10);
    }
    push_char(out, digit(n % 10));
    assert(out@ =~= old(out)@ + decimal(n as nat));
}

/// How many decimal digits `n` has.
pub fn decimal_len(n: u64) -> (len: usize)
    ensures
        len == decimal(n as nat).len(),
        1 <= len <= 20,
    decreases n,
{
    if n >= 10 {
        let shorter = decimal_len(n / 10);
        assert(shorter <= 19) by {
            lemma_decimal_short(n as nat);
        }
        shorter + 1
    } else {
        1
    }
}

/// A number below 10^20 has at most twenty digits; every `u64` is such a number.
pub proof fn lemma_decimal_short(n: nat)
    requires
        10 <= n <= u64::MAX,
    ensures
        decimal(n / 10).len() <= 19,
{
    reveal_with_fuel(decimal, 21);
    let a: nat = n / 10;
    assert(a < 1844674407370955162);
    assert(decimal(a).len() <= 19);
}

/// Appends the decimal digits of `n`, with zeros in front up to `width` digits.
pub fn push_padded_decimal(out: &mut String, n: u64, width: usize)
    ensures
        final(out)@ == old(out)@ + padded_decimal(n as nat, width as nat),
{
    let len = decimal_len(n);
    let mut i: usize = len;
    while i < width
        invariant
            len == decimal(n as nat).len(),
            len <= i,
            i <= width || i == len,
            out@ =~= old(out)@ + zeros((i - len) as nat),
        decreases width - i,
    {
        push_char(out, '0');
        i += 1;
    }
    push_decimal(out, n);
    assert(out@ =~= old(out)@ + padded_decimal(n as nat, width as nat));
}

/// Appends the decimal text of `n`, with its sign where it is negative.
pub fn push_signed_decimal(out: &mut String, n: i64)
    ensures
        final(out)@ == old(out)@ + signed_decimal(n as int),
{
    if n < 0 {
        push_char(out, '-');
        let size: u64 = (-(n as i128)) as u64;
        push_decimal(out, size);
        assert(out@ =~= old(out)@ + signed_decimal(n as int));
    } else {
        push_decimal(out, n as u64);
    }
}

/// The value of the decimal digit `c`; -1 where `c` is no decimal digit.
pub open spec fn digit_of(c: char) -> int {
    if c == '0' {
        0
    } else if c == '1' {
        1
    } else if c == '2' {
        2
    } else if c == '3' {
        3
    } else if c == '4' {
        4
    } else if c == '5' {
        5
    } else if c == '6' {
        6
    } else if c == '7' {
        7
    } else if c == '8' {
        8
    } else if c == '9' {
        9
    } else {
        -1
    }
}

/// Whether `text` is made of decimal digits, and of at least one.
pub open spec fn is_digits(text: Seq<char>) -> bool {
    text.len() > 0 && forall|i: int| 0 <= i < text.len() ==> digit_of(#[trigger] text[i]) >= 0
}

/// The number that the decimal digits `text` write.
pub open spec fn digits_value(text: Seq<char>) -> int
    decreases text.len(),
{
    if text.len() == 0 {
        0
    } else {
        digits_value(text.drop_last()) * 10 + digit_of(text.last())
    }
}

/// `text` without the plus sign that may stand in front of a number.
pub open spec fn unsigned_digits(text: Seq<char>) -> Seq<char> {
    if text.len() > 0 && text[0] == '+' {
        text.subrange(1, text.len() as int)
    } else {
        text
    }
}

/// The number that `text` writes, if it writes one that a `u64` holds:
/// decimal digits, at least one, with at most a plus sign before them.
pub open spec fn u64_of_text(text: Seq<char>) -> Option<u64> {
    if is_digits(unsigned_digits(text)) && digits_value(unsigned_digits(text)) <= u64::MAX {
        Some(digits_value(unsigned_digits(text)) as u64)
    } else {
        None
    }
}

/// The decimal digits of a number write that number.
pub proof fn lemma_decimal_value(n: nat)
    ensures
        is_digits(decimal(n)),
        digits_value(decimal(n)) == n,
        decimal(n)[0] != '+',
    decreases n,
{
    if n < 10 {
        assert(decimal(n).drop_last() =~= Seq::<char>::empty());
        assert(digits_value(decimal(n).drop_last()) == 0);
    } else {
        lemma_decimal_value(n / 10);
        lemma_decimal_len(n / 10);
        assert(decimal(n).drop_last() =~= decimal(n / 10));
        assert(digit_of(digit_char((n % 10) as int)) == n % 10);
    }
}

/// Reading back the decimal digits of a `u64` gives the same number.
pub proof fn lemma_decimal_roundtrip(n: u64)
    ensures
        u64_of_text(decimal(n as nat)) == Some(n),
{
    lemma_decimal_value(n as nat);
    lemma_decimal_len(n as nat);
}

/// Calls `u64::from_str` through `str::parse`. It reads decimal digits, at
/// least one, with at most a plus sign before them, and fails on anything
/// else and on a number that a `u64` cannot hold.
#[verifier::external_body]
pub(crate) fn parse_u64(text: &str) -> (res: Result<u64, std::num::ParseIntError>)
    ensures
        match res {
            Ok(n) => u64_of_text(text@) == Some(n),
            Err(_) => u64_of_text(text@) is None,
        },
{
    text.parse::<u64>()
}

} // verus!
