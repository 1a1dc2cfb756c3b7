//! Decimal digits: rendering unsigned numbers as character sequences (plain
//! and zero-padded fixed width) and reading digit runs back, with the
//! inversion lemmas the manifest codec builds on.

use vstd::prelude::*;

verus! {

/// Character for one decimal digit.
pub open spec fn digit_of(n: int) -> char {
    if n == 0 {
        '0'
    } else if n == 1 {
        '1'
    } else if n == 2 {
        '2'
    } else if n == 3 {
        '3'
    } else if n == 4 {
        '4'
    } else if n == 5 {
        '5'
    } else if n == 6 {
        '6'
    } else if n == 7 {
        '7'
    } else if n == 8 {
        '8'
    } else {
        '9'
    }
}

/// Value of a decimal digit character, or ten for anything else.
pub open spec fn digit_val(c: char) -> int {
    if c == '0' {
        0
    } else if c == '1' {
        1
    } else if c == '2' {
        2
    } else if c == '3' {
        3
    } else if c == '4' {
        4
    } else if c == '5' {
        5
    } else if c == '6' {
        6
    } else if c == '7' {
        7
    } else if c == '8' {
        8
    } else if c == '9' {
        9
    } else {
        10
    }
}

pub open spec fn is_digit(c: char) -> bool {
    digit_val(c) < 10
}

pub open spec fn all_digits(s: Seq<char>) -> bool {
    forall|j: int| 0 <= j < s.len() ==> is_digit(#[trigger] s[j])
}

/// Ordinary decimal rendering, most significant digit first.
pub open spec fn dec(n: int) -> Seq<char>
    recommends
        n >= 0,
    decreases n,
{
    if n < 10 {
        seq![digit_of(n)]
    } else {
        dec(n / 10) + seq![digit_of(n % 10)]
    }
}

/// Zero-padded decimal rendering of exactly `k` digits.
pub open spec fn dec_pad(n: int, k: nat) -> Seq<char>
    decreases k,
{
    if k == 0 {
        Seq::empty()
    } else {
        dec_pad(n / 10, (k - 1) as nat) + seq![digit_of(n % 10)]
    }
}

/// Value of a run of digit characters (most significant first).
pub open spec fn digits_val(s: Seq<char>) -> int
    decreases s.len(),
{
    if s.len() == 0 {
        0
    } else {
        digits_val(s.drop_last()) * 10 + digit_val(s.last())
    }
}

/// Number of digit characters at the front of `s`.
pub open spec fn leading_digits(s: Seq<char>) -> int
    decreases s.len(),
{
    if s.len() == 0 || !is_digit(s[0]) {
        0
    } else {
        1 + leading_digits(s.skip(1))
    }
}

pub open spec fn pow10(k: nat) -> int
    decreases k,
{
    if k == 0 {
        1
    } else {
        10 * pow10((k - 1) as nat)
    }
}

/// Rendering `n` with `k` digits and reading the digits back gives `n`.
pub proof fn lemma_dec_pad_val(n: int, k: nat)
    requires
        0 <= n < pow10(k),
    ensures
        dec_pad(n, k).len() == k,
        all_digits(dec_pad(n, k)),
        digits_val(dec_pad(n, k)) == n,
    decreases k,
{
    if k == 0 {
        assert(n == 0);
    } else {
        assert(pow10(k) == 10 * pow10((k - 1) as nat));
        assert(n / 10 < pow10((k - 1) as nat)) by (nonlinear_arith)
            requires
                0 <= n,
                n < 10 * pow10((k - 1) as nat),
        ;
        lemma_dec_pad_val(n / 10, (k - 1) as nat);
        let s = dec_pad(n, k);
        let prefix = dec_pad(n / 10, (k - 1) as nat);
        assert(s.drop_last() =~= prefix);
        assert(s.last() == digit_of(n % 10));
        assert(0 <= n % 10 < 10);
        assert(digit_val(digit_of(n % 10)) == n % 10);
        assert(digits_val(s) == n / 10 * 10 + n % 10);
        assert(n / 10 * 10 + n % 10 == n) by (nonlinear_arith)
            requires
                n >= 0,
        ;
        assert forall|j: int| 0 <= j < s.len() implies is_digit(#[trigger] s[j]) by {
            if j < s.len() - 1 {
                assert(s[j] == prefix[j]);
            }
        }
    }
}

/// A digit run is characterized by its first non-digit position.
pub proof fn lemma_leading_digits_at(s: Seq<char>, i: int)
    requires
        0 <= i <= s.len(),
        forall|j: int| 0 <= j < i ==> is_digit(#[trigger] s[j]),
        i == s.len() || !is_digit(s[i]),
    ensures
        leading_digits(s) == i,
    decreases s.len(),
{
    if s.len() == 0 || !is_digit(s[0]) {
        assert(i == 0);
    } else {
        assert(forall|j: int| 0 <= j < i - 1 ==> s.skip(1)[j] == s[j + 1]);
        lemma_leading_digits_at(s.skip(1), i - 1);
    }
}

pub proof fn lemma_digits_val_nonneg(s: Seq<char>)
    ensures
        digits_val(s) >= 0,
    decreases s.len(),
{
    if s.len() > 0 {
        lemma_digits_val_nonneg(s.drop_last());
        assert(digits_val(s.drop_last()) * 10 >= 0) by (nonlinear_arith)
            requires
                digits_val(s.drop_last()) >= 0,
        ;
    }
}

/// Exec twin of `digit_of`.
pub fn digit_char(n: u32) -> (c: char)
    requires
        n < 10,
    ensures
        c == digit_of(n as int),
{
    match n {
        0 => '0',
        1 => '1',
        2 => '2',
        3 => '3',
        4 => '4',
        5 => '5',
        6 => '6',
        7 => '7',
        8 => '8',
        _ => '9',
    }
}

/// Exec twin of `digit_val`.
pub fn digit_value(c: char) -> (v: u32)
    ensures
        v as int == digit_val(c),
{
    match c {
        '0' => 0,
        '1' => 1,
        '2' => 2,
        '3' => 3,
        '4' => 4,
        '5' => 5,
        '6' => 6,
        '7' => 7,
        '8' => 8,
        '9' => 9,
        _ => 10,
    }
}

/// Appends the decimal rendering of `n` to `out`.
pub fn push_dec_u32(out: &mut Vec<char>, n: u32)
    ensures
        final(out)@ == old(out)@ + dec(n as int),
    decreases n,
{
    if n < 10 {
        out.push(digit_char(n));
        proof {
            assert(old(out)@ + dec(n as int) =~= old(out)@.push(digit_of(n as int)));
        }
    } else {
        push_dec_u32(out, n / 10);
        out.push(digit_char(n % 10));
        proof {
            assert(old(out)@ + dec(n as int) =~= (old(out)@ + dec(n as int / 10)).push(
                digit_of(n as int % 10),
            ));
        }
    }
}

/// Appends the `k`-digit zero-padded rendering of `n` to `out`.
pub fn push_dec_pad(out: &mut Vec<char>, n: u32, k: usize)
    ensures
        final(out)@ == old(out)@ + dec_pad(n as int, k as nat),
    decreases k,
{
    if k == 0 {
        proof {
            assert(old(out)@ + dec_pad(n as int, 0nat) =~= old(out)@);
        }
    } else {
        push_dec_pad(out, n / 10, k - 1);
        out.push(digit_char(n % 10));
        proof {
            assert(old(out)@ + dec_pad(n as int, k as nat) =~= (old(out)@ + dec_pad(
                n as int / 10,
                (k - 1) as nat,
            )).push(digit_of(n as int % 10)));
        }
    }
}

} // verus!
