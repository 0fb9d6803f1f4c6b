//! Decimal representations: the digit count and digit string of a number,
//! and the numeric value of a digit string.

use vstd::prelude::*;
use crate::chars::digit_char;
use crate::chars::digit_val;
use crate::chars::is_phone_digit;
use crate::chars::lemma_digit_char_val;
use crate::chars::lemma_digit_val_char;

verus! {

/// How many decimal digits a number has; zero counts as one digit.
pub open spec fn num_digits(n: int) -> int
    recommends
        n >= 0,
    decreases n,
{
    if n <= 9 {
        1
    } else {
        1 + num_digits(n / 10)
    }
}

/// The decimal digit string of a nonnegative number, without leading zeros
/// (except for zero itself, written as the single digit `'0'`).
pub open spec fn digits_rep(n: int) -> Seq<char>
    recommends
        n >= 0,
    decreases n,
{
    if n <= 9 {
        seq![digit_char(n)]
    } else {
        digits_rep(n / 10).push(digit_char(n % 10))
    }
}

/// The numeric value of a digit string.
pub open spec fn seq_value(s: Seq<char>) -> int
    decreases s.len(),
{
    if s.len() == 0 {
        0
    } else {
        seq_value(s.drop_last()) * 10 + digit_val(s.last())
    }
}

/// Every character of a sequence is a decimal digit.
pub open spec fn all_digits(s: Seq<char>) -> bool {
    forall|i: int| 0 <= i < s.len() ==> is_phone_digit(#[trigger] s[i])
}

/// Ten to the `k`-th power.
pub open spec fn pow10(k: nat) -> int
    decreases k,
{
    if k == 0 {
        1
    } else {
        10 * pow10((k - 1) as nat)
    }
}

pub proof fn lemma_digits_rep_wf(n: int)
    requires
        n >= 0,
    ensures
        digits_rep(n).len() == num_digits(n),
        all_digits(digits_rep(n)),
        n >= 1 ==> digits_rep(n)[0] != '0',
    decreases n,
{
    if n <= 9 {
        lemma_digit_char_val(n);
        if n >= 1 {
            assert(digit_char(n) as u32 == 48 + n);
        }
    } else {
        lemma_digits_rep_wf(n / 10);
        lemma_digit_char_val(n % 10);
        assert(digits_rep(n)[0] == digits_rep(n / 10)[0]);
    }
}
pub proof fn lemma_seq_value_bounds(s: Seq<char>)
    requires
        all_digits(s),
    ensures
        0 <= seq_value(s) < pow10(s.len() as nat),
    decreases s.len(),
{
    if s.len() == 0 {
    } else {
        assert(all_digits(s.drop_last())) by {
            assert(forall|i: int|
                0 <= i < s.len() - 1 ==> is_phone_digit(#[trigger] s.drop_last()[i]) == is_phone_digit(
                    s[i],
                ));
        }
        lemma_seq_value_bounds(s.drop_last());
        assert(is_phone_digit(s.last()));
        assert(0 <= digit_val(s.last()) <= 9);
        assert(pow10(s.len() as nat) == 10 * pow10((s.len() - 1) as nat));
    }
}

/// A digit string without a leading zero is the decimal representation of
/// its value: value and length determine the string.
pub proof fn lemma_rep_of_value(s: Seq<char>, n: int)
    requires
        n >= 1,
        all_digits(s),
        s.len() == num_digits(n),
        s[0] != '0',
        seq_value(s) == n,
    ensures
        s == digits_rep(n),
    decreases n,
{
    if n <= 9 {
        assert(s.len() == 1);
        assert(s.last() == s[0]);
        assert(s.drop_last() =~= Seq::<char>::empty());
        assert(digit_val(s[0]) == n);
        lemma_digit_val_char(s[0]);
        assert(s =~= digits_rep(n));
    } else {
        let t = s.drop_last();
        assert(all_digits(t)) by {
            assert(forall|i: int|
                0 <= i < s.len() - 1 ==> is_phone_digit(#[trigger] s.drop_last()[i]) == is_phone_digit(
                    s[i],
                ));
        }
        lemma_seq_value_bounds(t);
        let dl = digit_val(s.last());
        assert(is_phone_digit(s.last()));
        assert(0 <= dl <= 9);
        assert(seq_value(t) * 10 + dl == n);
        assert(seq_value(t) == n / 10 && dl == n % 10) by (nonlinear_arith)
            requires
                seq_value(t) * 10 + dl == n,
                0 <= dl <= 9,
                0 <= seq_value(t),
        ;
        assert(t[0] == s[0]);
        assert(num_digits(n / 10) == num_digits(n) - 1);
        lemma_rep_of_value(t, n / 10);
        lemma_digit_val_char(s.last());
        assert(digit_char(n % 10) == s.last());
        assert(s =~= t.push(s.last()));
    }
}

/// Every number has at least one digit.
pub proof fn lemma_num_digits_pos(n: int)
    ensures
        num_digits(n) >= 1,
    decreases n,
{
    if n > 9 {
        lemma_num_digits_pos(n / 10);
    }
}

/// Numbers below ten to the `k` have at most `k` digits.
pub proof fn lemma_num_digits_lt_pow10(n: int, k: nat)
    requires
        0 <= n,
        1 <= k,
        n < pow10(k),
    ensures
        num_digits(n) <= k,
    decreases k,
{
    if n > 9 {
        assert(pow10(k) == 10 * pow10((k - 1) as nat));
        if k == 1 {
            assert(pow10(0nat) == 1);
            assert(false);
        } else {
            assert(n / 10 < pow10((k - 1) as nat));
            lemma_num_digits_lt_pow10(n / 10, (k - 1) as nat);
        }
    }
}

/// The digit count of a number with at most ten digits.
pub proof fn lemma_num_digits_bound(n: int)
    requires
        0 <= n <= u32::MAX,
    ensures
        1 <= num_digits(n) <= 10,
{
    reveal_with_fuel(pow10, 11);
    assert(pow10(10nat) == 10_000_000_000);
    lemma_num_digits_lt_pow10(n, 10);
    lemma_num_digits_pos(n);
}

/// A three-digit bound: numbers up to 999 have at most three digits.
pub proof fn lemma_num_digits_le3(n: int)
    requires
        1 <= n <= 999,
    ensures
        1 <= num_digits(n) <= 3,
{
    reveal_with_fuel(pow10, 4);
    assert(pow10(3nat) == 1000);
    lemma_num_digits_lt_pow10(n, 3);
    lemma_num_digits_pos(n);
}

/// Counts the decimal digits of a number.
pub fn count_digits(n: u32) -> (c: usize)
    ensures
        c as int == num_digits(n as int),
        1 <= c <= 10,
    decreases n,
{
    proof {
        lemma_num_digits_bound(n as int);
    }
    if n <= 9 {
        1
    } else {
        let rest = count_digits(n / 10);
        proof {
            lemma_num_digits_bound((n / 10) as int);
        }
        1 + rest
    }
}

/// Parses the numeric value of the first `p` digit characters.
pub fn parse_value(d: &Vec<char>, p: usize) -> (r: u32)
    requires
        p <= d@.len(),
        p <= 3,
        all_digits(d@),
    ensures
        r as int == seq_value(d@.take(p as int)),
        r <= 999,
{
    let mut acc: u32 = 0;
    let mut i: usize = 0;
    while i < p
        invariant
            i <= p <= d@.len(),
            p <= 3,
            all_digits(d@),
            acc as int == seq_value(d@.take(i as int)),
            acc < 1000,
        decreases p - i,
    {
        proof {
            assert(all_digits(d@.take(i as int))) by {
                assert(forall|j: int|
                    0 <= j < i ==> is_phone_digit(#[trigger] d@.take(i as int)[j]) == is_phone_digit(
                        d@[j],
                    ));
            }
            lemma_seq_value_bounds(d@.take(i as int));
            reveal_with_fuel(pow10, 4);
            if i == 0 {
                assert(pow10(0nat) == 1);
            } else if i == 1 {
                assert(pow10(1nat) == 10);
            } else {
                assert(pow10(2nat) == 100);
            }
            assert(acc < 100);
        }
        let c = d[i];
        let dv: u32 = c as u32 - 48;
        proof {
            assert(is_phone_digit(d@[i as int]));
        }
        acc = acc * 10 + dv;
        i = i + 1;
        proof {
            let t = d@.take(i as int);
            assert(t.drop_last() =~= d@.take(i - 1));
            assert(t.last() == d@[i - 1]);
        }
    }
    acc
}

/// The decimal digit characters of a number.
pub fn u32_to_digits(n: u32) -> (v: Vec<char>)
    ensures
        v@ == digits_rep(n as int),
    decreases n,
{
    if n <= 9 {
        let c: char = ((48 + n) as u8) as char;
        proof {
            assert(c == digit_char(n as int));
        }
        let mut v: Vec<char> = Vec::new();
        v.push(c);
        proof {
            assert(v@ =~= digits_rep(n as int));
        }
        v
    } else {
        let mut v = u32_to_digits(n / 10);
        let c: char = ((48 + n % 10) as u8) as char;
        proof {
            assert(c == digit_char((n % 10) as int));
        }
        v.push(c);
        v
    }
}

} // verus!
