//! Character-level string building blocks shared by the report and the
//! descriptions: appending characters, decimal rendering, text substitutions.

use vstd::prelude::*;

verus! {

/// Appends one character (std's `String::push`).
#[verifier::external_body]
pub(crate) fn push_char(s: &mut String, c: char)
    ensures
        final(s)@ == old(s)@.push(c),
{
    s.push(c);
}

/// The characters of a string slice, in order.
pub(crate) fn chars_of(s: &str) -> (v: Vec<char>)
    ensures
        v@ == s@,
{
    let mut v: Vec<char> = Vec::new();
    for c in it: s.chars()
        invariant
            v@ == it.seq().take(it.index() as int),
    {
        v.push(c);
    }
    v
}

} // verus!

verus! {

/// The character of a decimal digit `d < 10`.
pub open spec fn digit_char(d: nat) -> char {
    (48 + d) as char
}

/// Decimal rendering of a natural number, most significant digit first,
/// without leading zeros (`0` is rendered as `"0"`).
pub open spec fn decimal(n: nat) -> Seq<char>
    decreases n,
{
    if n < 10 {
        seq![digit_char(n)]
    } else {
        decimal(n / 10).push(digit_char(n % 10))
    }
}

/// `k` copies of the character `'0'`.
pub open spec fn zeros(k: nat) -> Seq<char> {
    Seq::new(k, |i: int| '0')
}

/// Decimal rendering left-padded with zeros to at least four characters
/// (the `{:04}` format).
pub open spec fn decimal_pad4(n: nat) -> Seq<char> {
    let d = decimal(n);
    if d.len() < 4 {
        zeros((4 - d.len()) as nat) + d
    } else {
        d
    }
}

proof fn lemma_decimal_len_pos(n: nat)
    ensures
        decimal(n).len() >= 1,
    decreases n,
{
    if n >= 10 {
        lemma_decimal_len_pos(n / 10);
    }
}

/// Appends the decimal rendering of `n`.
pub(crate) fn push_decimal(s: &mut String, n: u64)
    ensures
        final(s)@ == old(s)@ + decimal(n as nat),
{
    // Digits, least significant first.
    let mut digits: Vec<char> = Vec::new();
    let mut m: u64 = n;
    loop
        invariant_except_break
            decimal(n as nat) == decimal(m as nat) + digits@.reverse(),
        ensures
            decimal(n as nat) == digits@.reverse(),
        decreases m,
    {
        let d: u64 = m % 10;
        let c: char = if d == 0 { '0' } else if d == 1 { '1' } else if d == 2 { '2' } else if d
            == 3 { '3' } else if d == 4 { '4' } else if d == 5 { '5' } else if d == 6 { '6' } else if d
            == 7 { '7' } else if d == 8 { '8' } else { '9' };
        assert(c == digit_char(d as nat));
        if m < 10 {
            digits.push(c);
            assert(decimal(m as nat) == seq![c]);
            assert(digits@.reverse() =~= seq![c] + digits@.drop_last().reverse());
            assert(decimal(n as nat) =~= digits@.reverse());
            break;
        }
        assert(decimal(m as nat) == decimal((m / 10) as nat).push(c));
        digits.push(c);
        assert(digits@.reverse() =~= seq![c] + digits@.drop_last().reverse());
        m = m / 10;
    }
    let len = digits.len();
    let mut i: usize = len;
    while i > 0
        invariant
            i <= len == digits@.len(),
            s@ == old(s)@ + digits@.reverse().take((len - i) as int),
        decreases i,
    {
        i = i - 1;
        push_char(s, digits[i]);
        assert(digits@.reverse().take((len - i) as int) =~= digits@.reverse().take(
            (len - i - 1) as int,
        ).push(digits@[i as int]));
    }
    assert(digits@.reverse().take(len as int) =~= digits@.reverse());
}

/// Appends the decimal rendering of `n`, left-padded with zeros to four
/// characters.
pub(crate) fn push_decimal_pad4(s: &mut String, n: u64)
    ensures
        final(s)@ == old(s)@ + decimal_pad4(n as nat),
{
    let mut t = String::new();
    push_decimal(&mut t, n);
    let digits = chars_of(t.as_str());
    let mut k: usize = digits.len();
    let ghost s0 = s@;
    while k < 4
        invariant
            digits.len() <= k <= 4 || k == digits.len(),
            digits@ == decimal(n as nat),
            s@ == s0 + zeros((k - digits.len()) as nat),
        decreases 4 - k,
    {
        push_char(s, '0');
        assert(zeros((k + 1 - digits.len()) as nat) =~= zeros((k - digits.len()) as nat).push('0'));
        k = k + 1;
    }
    let mut j: usize = 0;
    let ghost s1 = s@;
    while j < digits.len()
        invariant
            j <= digits.len(),
            s@ == s1 + digits@.take(j as int),
        decreases digits.len() - j,
    {
        push_char(s, digits[j]);
        assert(digits@.take(j + 1) =~= digits@.take(j as int).push(digits@[j as int]));
        j = j + 1;
    }
    assert(digits@.take(digits.len() as int) =~= digits@);
    if digits.len() < 4 {
        assert(s@ =~= s0 + decimal_pad4(n as nat));
    } else {
        assert(zeros(0) =~= Seq::<char>::empty());
        assert(s@ =~= s0 + decimal_pad4(n as nat));
    }
}

} // verus!

verus! {

/// The number that a string of decimal digits denotes.
pub open spec fn digits_value(s: Seq<char>) -> int
    decreases s.len(),
{
    if s.len() == 0 {
        0
    } else {
        digits_value(s.drop_last()) * 10 + (s.last() as int - 48)
    }
}

/// The decimal rendering of `n` denotes `n`.
pub proof fn lemma_decimal_value(n: nat)
    ensures
        digits_value(decimal(n)) == n,
    decreases n,
{
    assert(digit_char(n % 10) as int == 48 + n % 10);
    if n < 10 {
        assert(n % 10 == n);
        assert(decimal(n).drop_last() =~= Seq::<char>::empty());
        assert(decimal(n).last() == digit_char(n));
        assert(digits_value(Seq::<char>::empty()) == 0);
        assert(digits_value(decimal(n)) == digits_value(decimal(n).drop_last()) * 10 + (
        decimal(n).last() as int - 48));
    } else {
        lemma_decimal_value(n / 10);
        assert(decimal(n).drop_last() =~= decimal(n / 10));
        assert(decimal(n).last() == digit_char(n % 10));
        assert(digits_value(decimal(n)) == digits_value(decimal(n).drop_last()) * 10 + (
        decimal(n).last() as int - 48));
        assert((n / 10) * 10 + n % 10 == n) by (nonlinear_arith);
    }
}

/// Leading zeros do not change the number that digits denote.
pub proof fn lemma_leading_zeros_value(k: nat, s: Seq<char>)
    ensures
        digits_value(zeros(k) + s) == digits_value(s),
    decreases s.len(), k,
{
    if s.len() == 0 {
        assert(zeros(k) + s =~= zeros(k));
        if k > 0 {
            assert(zeros(k).drop_last() =~= zeros((k - 1) as nat));
            lemma_leading_zeros_value((k - 1) as nat, s);
            assert(zeros((k - 1) as nat) + s =~= zeros((k - 1) as nat));
        }
    } else {
        assert((zeros(k) + s).drop_last() =~= zeros(k) + s.drop_last());
        lemma_leading_zeros_value(k, s.drop_last());
    }
}

/// The zero-padded rendering of `n` denotes `n`.
pub proof fn lemma_decimal_pad4_value(n: nat)
    ensures
        digits_value(decimal_pad4(n)) == n,
{
    lemma_decimal_value(n);
    let d = decimal(n);
    if d.len() < 4 {
        lemma_leading_zeros_value((4 - d.len()) as nat, d);
    }
}

} // verus!
