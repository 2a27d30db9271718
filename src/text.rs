//! Decimal text of integers, as the bar prints them.
use vstd::prelude::*;

verus! {

/// Number of decimal digits of `n` (zero has one digit).
pub open spec fn num_digits(n: nat) -> nat
    decreases n,
{
    if n < 10 {
        1
    } else {
        1 + num_digits(n / 10)
    }
}

/// `10` raised to the power `k`.
pub open spec fn pow10(k: nat) -> nat
    decreases k,
{
    if k == 0 {
        1
    } else {
        10 * pow10((k - 1) as nat)
    }
}

/// The character of a decimal digit.
pub open spec fn digit_char(d: nat) -> char {
    if d == 0 {
        '0'
    } else if d == 1 {
        '1'
    } else if d == 2 {
        '2'
    } else if d == 3 {
        '3'
    } else if d == 4 {
        '4'
    } else if d == 5 {
        '5'
    } else if d == 6 {
        '6'
    } else if d == 7 {
        '7'
    } else if d == 8 {
        '8'
    } else {
        '9'
    }
}

/// The decimal text of `n`, most significant digit first, without leading zeros.
pub open spec fn decimal(n: nat) -> Seq<char>
    decreases n,
{
    if n < 10 {
        seq![digit_char(n)]
    } else {
        decimal(n / 10).push(digit_char(n % 10))
    }
}

/// `k` copies of the character `c`.
pub open spec fn repeat(c: char, k: nat) -> Seq<char> {
    Seq::new(k, |i: int| c)
}

/// The decimal text of `n`, with leading zeros up to `width` characters.
pub open spec fn zero_padded(n: nat, width: nat) -> Seq<char> {
    let zeros: nat = if width > num_digits(n) {
        (width - num_digits(n)) as nat
    } else {
        0
    };
    repeat('0', zeros) + decimal(n)
}

/// Two decimal digits of `n`, for `n < 100`.
pub open spec fn two_digits(n: nat) -> Seq<char> {
    seq![digit_char(n / 10), digit_char(n % 10)]
}

pub proof fn lemma_decimal_len(n: nat)
    ensures
        decimal(n).len() == num_digits(n),
    decreases n,
{
    if n >= 10 {
        lemma_decimal_len(n / 10);
    }
}

pub proof fn lemma_num_digits_monotone(a: nat, b: nat)
    requires
        a <= b,
    ensures
        num_digits(a) <= num_digits(b),
    decreases b,
{
    if a >= 10 {
        lemma_num_digits_monotone(a / 10, b / 10);
    }
}

/// `num_digits(n) - 1` is the floor of the decimal logarithm of a positive `n`.
pub proof fn lemma_num_digits_log10(n: nat)
    requires
        n >= 1,
    ensures
        num_digits(n) >= 1,
        pow10((num_digits(n) - 1) as nat) <= n < pow10(num_digits(n)),
    decreases n,
{
    if n >= 10 {
        lemma_num_digits_log10(n / 10);
        let k = (num_digits(n / 10) - 1) as nat;
        assert(pow10(k + 1) == 10 * pow10(k));
        assert(pow10(k + 2) == 10 * pow10(k + 1));
    } else {
        assert(pow10(0) == 1);
        assert(pow10(1) == 10);
    }
}

/// The decimal logarithm of a positive `n`, rounded down.
pub open spec fn floor_log10(n: nat) -> nat {
    (num_digits(n) - 1) as nat
}

/// A step counter padded to the width of the total has as many leading zeros
/// as the rounded-down decimal logarithms of the total and of the step differ,
/// and is exactly as wide as the total.
pub proof fn lemma_counter_padding(current: nat, total: nat)
    requires
        1 <= current <= total,
    ensures
        pow10(floor_log10(total)) <= total < pow10(floor_log10(total) + 1),
        pow10(floor_log10(current)) <= current < pow10(floor_log10(current) + 1),
        floor_log10(current) <= floor_log10(total),
        zero_padded(current, num_digits(total)) == repeat(
            '0',
            (floor_log10(total) - floor_log10(current)) as nat,
        ) + decimal(current),
        zero_padded(current, num_digits(total)).len() == num_digits(total),
{
    lemma_num_digits_log10(current);
    lemma_num_digits_log10(total);
    lemma_num_digits_monotone(current, total);
    lemma_decimal_len(current);
}

fn digit(d: u64) -> (c: char)
    requires
        d < 10,
    ensures
        c == digit_char(d as nat),
{
    if d == 0 {
        '0'
    } else if d == 1 {
        '1'
    } else if d == 2 {
        '2'
    } else if d == 3 {
        '3'
    } else if d == 4 {
        '4'
    } else if d == 5 {
        '5'
    } else if d == 6 {
        '6'
    } else if d == 7 {
        '7'
    } else if d == 8 {
        '8'
    } else {
        '9'
    }
}

/// Appends the decimal text of `n`.
pub fn push_decimal(out: &mut Vec<char>, n: u64)
    ensures
        final(out)@ == old(out)@ + decimal(n as nat),
    decreases n,
{
    if n >= 10 {
        push_decimal(out, n / 10);
    }
    let c = digit(n % 10);
    out.push(c);
    proof {
        if n < 10 {
            assert(n % 10 == n);
        }
    }
    assert(final(out)@ =~= old(out)@ + decimal(n as nat));
}

/// Appends `k` copies of `c`.
pub fn push_repeat(out: &mut Vec<char>, c: char, k: u64)
    ensures
        final(out)@ == old(out)@ + repeat(c, k as nat),
{
    let ghost start = out@;
    let mut i: u64 = 0;
    while i < k
        invariant
            i <= k,
            out@ =~= start + repeat(c, i as nat),
        decreases k - i,
    {
        out.push(c);
        i = i + 1;
    }
}

/// Appends the decimal text of `n` padded with leading zeros to `width` characters.
pub fn push_zero_padded(out: &mut Vec<char>, n: u64, width: u64)
    ensures
        final(out)@ == old(out)@ + zero_padded(n as nat, width as nat),
{
    let d = count_digits(n);
    if d < width {
        push_repeat(out, '0', width - d);
    } else {
        push_repeat(out, '0', 0);
    }
    push_decimal(out, n);
    assert(final(out)@ =~= old(out)@ + zero_padded(n as nat, width as nat));
}

/// The number of decimal digits of `n`.
pub fn count_digits(n: u64) -> (r: u64)
    ensures
        r == num_digits(n as nat),
        r <= n + 1,
    decreases n,
{
    if n < 10 {
        1
    } else {
        let r = count_digits(n / 10);
        1 + r
    }
}

/// Appends two decimal digits of `n`.
pub fn push_two_digits(out: &mut Vec<char>, n: u64)
    requires
        n < 100,
    ensures
        final(out)@ == old(out)@ + two_digits(n as nat),
{
    let hi = digit(n / 10);
    let lo = digit(n % 10);
    out.push(hi);
    out.push(lo);
    assert(final(out)@ =~= old(out)@ + two_digits(n as nat));
}

} // verus!

verus! {

/// Relies on `String::from_iter` over `char`s: the string holds the characters in order.
#[verifier::external_body]
pub(crate) fn chars_to_string(chars: Vec<char>) -> (r: String)
    ensures
        r@ == chars@,
{
    String::from_iter(chars)
}

} // verus!
