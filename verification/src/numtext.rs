//! Decimal text for durations.
//!
//! Durations are carried as whole microseconds, so a timing-log line is the
//! duration in seconds printed with exactly six digits after the decimal
//! point.  This module defines the decimal representation of a number as a
//! character sequence, the executable formatter that produces it, and the
//! executable parser that reads it back.

use vstd::prelude::*;

verus! {

/// The character for one decimal digit value.
pub open spec fn digit_char(d: nat) -> char
    recommends
        d < 10,
{
    if d == 0 {
        '0'
    } else if d == 1 {
        '1'
    } else if d == 2 {
        '2'
    } else if d == 3 {
        '3'
    } else if d == 4 {
        '4'
    } else if d == 5 {
        '5'
    } else if d == 6 {
        '6'
    } else if d == 7 {
        '7'
    } else if d == 8 {
        '8'
    } else {
        '9'
    }
}

/// Whether a character is a decimal digit.
pub open spec fn is_digit(c: char) -> bool {
    c == '0' || c == '1' || c == '2' || c == '3' || c == '4' || c == '5' || c == '6' || c == '7'
        || c == '8' || c == '9'
}

/// The value of one decimal digit character.
pub open spec fn digit_val(c: char) -> nat
    recommends
        is_digit(c),
{
    if c == '0' {
        0
    } else if c == '1' {
        1
    } else if c == '2' {
        2
    } else if c == '3' {
        3
    } else if c == '4' {
        4
    } else if c == '5' {
        5
    } else if c == '6' {
        6
    } else if c == '7' {
        7
    } else if c == '8' {
        8
    } else {
        9
    }
}

/// The usual decimal representation of `n`: no leading zeros, `"0"` for zero.
pub open spec fn dec_rep(n: nat) -> Seq<char>
    decreases n,
{
    if n < 10 {
        seq![digit_char(n)]
    } else {
        dec_rep(n / 10) + seq![digit_char(n % 10)]
    }
}

/// The last `w` decimal digits of `n`, zero-padded to exactly width `w`.
pub open spec fn dec_pad(n: nat, w: nat) -> Seq<char>
    decreases w,
{
    if w == 0 {
        Seq::empty()
    } else {
        dec_pad(n / 10, (w - 1) as nat) + seq![digit_char(n % 10)]
    }
}

/// The number denoted by a sequence of digit characters, most significant
/// first (the empty sequence denotes zero).
pub open spec fn seq_to_num(s: Seq<char>) -> nat
    decreases s.len(),
{
    if s.len() == 0 {
        0
    } else {
        seq_to_num(s.drop_last()) * 10 + digit_val(s.last())
    }
}

/// Reading back the decimal representation recovers the number.
pub proof fn lemma_seq_to_num_dec_rep(n: nat)
    ensures
        seq_to_num(dec_rep(n)) == n,
    decreases n,
{
    if n < 10 {
        let s = dec_rep(n);
        assert(s == seq![digit_char(n)]);
        assert(s.drop_last() =~= Seq::<char>::empty());
        assert(s.last() == digit_char(n));
        assert(seq_to_num(s) == seq_to_num(s.drop_last()) * 10 + digit_val(s.last()));
        assert(seq_to_num(s.drop_last()) == 0);
        assert(digit_val(digit_char(n)) == n);
    } else {
        lemma_seq_to_num_dec_rep(n / 10);
        let s = dec_rep(n / 10) + seq![digit_char(n % 10)];
        assert(s.drop_last() =~= dec_rep(n / 10));
        assert(s.last() == digit_char(n % 10));
        assert(seq_to_num(s) == (n / 10) * 10 + n % 10);
        vstd::arithmetic::div_mod::lemma_fundamental_div_mod(n as int, 10);
    }
}

/// Reading back the `w`-wide padded representation recovers `n % 10^w`.
pub proof fn lemma_seq_to_num_dec_pad(n: nat, w: nat)
    ensures
        seq_to_num(dec_pad(n, w)) == n % pow10(w),
    decreases w,
{
    if w == 0 {
        vstd::arithmetic::div_mod::lemma_mod_multiples_basic(n as int, 1);
    } else {
        lemma_seq_to_num_dec_pad(n / 10, (w - 1) as nat);
        assert((dec_pad(n / 10, (w - 1) as nat) + seq![digit_char(n % 10)]).drop_last()
            =~= dec_pad(n / 10, (w - 1) as nat));
        assert(seq_to_num(dec_pad(n, w)) == (n / 10 % pow10((w - 1) as nat)) * 10 + n % 10);
        lemma_mod_split(n, (w - 1) as nat);
    }
}

/// Powers of ten.
pub open spec fn pow10(w: nat) -> nat
    decreases w,
{
    if w == 0 {
        1
    } else {
        10 * pow10((w - 1) as nat)
    }
}

/// `n % 10^(w+1)` splits into the higher digits and the last digit.
proof fn lemma_mod_split(n: nat, w: nat)
    ensures
        (n / 10 % pow10(w)) * 10 + n % 10 == n % (10 * pow10(w)),
{
    let p = pow10(w);
    lemma_pow10_pos(w);
    vstd::arithmetic::div_mod::lemma_mod_breakdown(n as int, 10, p as int);
}

/// Every power of ten is positive.
pub proof fn lemma_pow10_pos(w: nat)
    ensures
        pow10(w) >= 1,
    decreases w,
{
    if w > 0 {
        lemma_pow10_pos((w - 1) as nat);
    }
}

/// The digit character for `d`, as executable code.
pub fn digit_to_char(d: u64) -> (c: char)
    requires
        d < 10,
    ensures
        c == digit_char(d as nat),
{
    match d {
        0 => '0',
        1 => '1',
        2 => '2',
        3 => '3',
        4 => '4',
        5 => '5',
        6 => '6',
        7 => '7',
        8 => '8',
        _ => '9',
    }
}

/// The value of a digit character, or `None` if `c` is not a digit.
pub fn char_to_digit(c: char) -> (r: Option<u64>)
    ensures
        match r {
            Some(d) => is_digit(c) && d < 10 && d as nat == digit_val(c),
            None => !is_digit(c),
        },
{
    match c {
        '0' => Some(0),
        '1' => Some(1),
        '2' => Some(2),
        '3' => Some(3),
        '4' => Some(4),
        '5' => Some(5),
        '6' => Some(6),
        '7' => Some(7),
        '8' => Some(8),
        '9' => Some(9),
        _ => None,
    }
}

/// The decimal representation is never empty and holds only digits.
pub proof fn lemma_dec_rep_digits(n: nat)
    ensures
        dec_rep(n).len() >= 1,
        forall|i: int| 0 <= i < dec_rep(n).len() ==> is_digit(#[trigger] dec_rep(n)[i]),
    decreases n,
{
    if n >= 10 {
        lemma_dec_rep_digits(n / 10);
    }
}

/// The padded representation has exactly width `w` and holds only digits.
pub proof fn lemma_dec_pad_digits(n: nat, w: nat)
    ensures
        dec_pad(n, w).len() == w,
        forall|i: int| 0 <= i < w ==> is_digit(#[trigger] dec_pad(n, w)[i]),
    decreases w,
{
    if w > 0 {
        lemma_dec_pad_digits(n / 10, (w - 1) as nat);
    }
}

/// A prefix of a digit string never denotes more than the whole string.
pub proof fn lemma_seq_to_num_take_le(s: Seq<char>, i: int)
    requires
        0 <= i <= s.len(),
    ensures
        seq_to_num(s.take(i)) <= seq_to_num(s),
    decreases s.len(),
{
    if i == s.len() {
        assert(s.take(i) =~= s);
    } else {
        assert(s.drop_last().take(i) =~= s.take(i));
        lemma_seq_to_num_take_le(s.drop_last(), i);
    }
}

/// Six factors of ten, written out.
pub proof fn lemma_pow10_six()
    ensures
        pow10(6) == 1000000,
{
    reveal_with_fuel(pow10, 7);
}

/// Reads the digits of `s` at positions `from..to` as a number.  Returns
/// `None` exactly when some position there is not a digit or the denoted
/// number does not fit in a `u64`.
pub fn parse_digits(s: &str, from: usize, to: usize) -> (r: Option<u64>)
    requires
        from <= to <= s@.len(),
    ensures
        match r {
            Some(v) => (forall|k: int| from <= k < to ==> is_digit(#[trigger] s@[k]))
                && v as nat == seq_to_num(s@.subrange(from as int, to as int)),
            None => (exists|k: int| from <= k < to && !is_digit(#[trigger] s@[k]))
                || seq_to_num(s@.subrange(from as int, to as int)) > u64::MAX,
        },
{
    let ghost whole = s@.subrange(from as int, to as int);
    let mut acc: u64 = 0;
    let mut i: usize = from;
    while i < to
        invariant
            from <= i <= to <= s@.len(),
            whole == s@.subrange(from as int, to as int),
            forall|k: int| from <= k < i ==> is_digit(#[trigger] s@[k]),
            acc as nat == seq_to_num(s@.subrange(from as int, i as int)),
        decreases to - i,
    {
        let c = s.get_char(i);
        match char_to_digit(c) {
            None => {
                return None;
            },
            Some(d) => {
                proof {
                    let part = s@.subrange(from as int, i + 1 as int);
                    assert(part.drop_last() =~= s@.subrange(from as int, i as int));
                    assert(part.last() == s@[i as int]);
                    assert(seq_to_num(part) == acc * 10 + d);
                    assert(part =~= whole.take(i + 1 - from));
                    lemma_seq_to_num_take_le(whole, i + 1 - from);
                    vstd::arithmetic::div_mod::lemma_fundamental_div_mod(
                        (u64::MAX - d) as int,
                        10,
                    );
                }
                if acc > (u64::MAX - d) / 10 {
                    return None;
                }
                acc = acc * 10 + d;
            },
        }
        i = i + 1;
    }
    Some(acc)
}

/// Appends the decimal representation of `n` to `out`.
pub fn push_dec_rep(n: u64, out: &mut Vec<char>)
    ensures
        final(out)@ == old(out)@ + dec_rep(n as nat),
    decreases n,
{
    if n < 10 {
        out.push(digit_to_char(n));
        assert(out@ =~= old(out)@ + dec_rep(n as nat));
    } else {
        push_dec_rep(n / 10, out);
        out.push(digit_to_char(n % 10));
        assert(out@ =~= old(out)@ + dec_rep(n as nat));
    }
}

/// Appends the `w`-wide zero-padded decimal representation of `n` to `out`.
pub fn push_dec_pad(n: u64, w: u64, out: &mut Vec<char>)
    ensures
        final(out)@ == old(out)@ + dec_pad(n as nat, w as nat),
    decreases w,
{
    if w == 0 {
        assert(out@ =~= old(out)@ + dec_pad(n as nat, 0));
    } else {
        push_dec_pad(n / 10, w - 1, out);
        out.push(digit_to_char(n % 10));
        assert(out@ =~= old(out)@ + dec_pad(n as nat, w as nat));
    }
}

} // verus!
