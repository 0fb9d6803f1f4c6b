//! The character filter: the invalid-character check, digit extraction,
//! and leading-zero stripping. The check runs on the raw, unmodified input
//! and is a hard precondition of normalization: inputs that fail it are
//! invalid no matter what digits they hold.

use vstd::prelude::*;
use crate::chars::digit_check;
use crate::chars::is_phone_digit;
use crate::digits::all_digits;

verus! {

/// The character check examined from position `i` with `depth` parentheses open.
pub open spec fn gate_from(s: Seq<char>, i: int, depth: int) -> bool
    decreases s.len() - i,
{
    if i < 0 || i >= s.len() {
        depth == 0
    } else {
        let c = s[i];
        if is_phone_digit(c) || c == ' ' || c == '-' || c == '+' {
            gate_from(s, i + 1, depth)
        } else if c == '(' {
            gate_from(s, i + 1, depth + 1)
        } else if c == ')' {
            depth > 0 && gate_from(s, i + 1, depth - 1)
        } else {
            false
        }
    }
}

/// The invalid-character check: a string passes when it holds only decimal
/// digits, spaces, hyphens, plus signs and balanced parentheses, where no
/// `')'` appears before its matching `'('`.
pub open spec fn passes_gate(s: Seq<char>) -> bool {
    gate_from(s, 0, 0)
}

/// Reports whether a raw input fails the character check, that is, holds a
/// character outside the permitted set or unbalanced parentheses.
pub fn contains_invalid_character(s: &Vec<char>) -> (r: bool)
    ensures
        r == !passes_gate(s@),
{
    let n = s.len();
    let mut depth: usize = 0;
    let mut i: usize = 0;
    while i < n
        invariant
            i <= n,
            n == s@.len(),
            depth <= i,
            passes_gate(s@) == gate_from(s@, i as int, depth as int),
        decreases n - i,
    {
        let c = s[i];
        if digit_check(c) || c == ' ' || c == '-' || c == '+' {
        } else if c == '(' {
            depth = depth + 1;
        } else if c == ')' {
            if depth == 0 {
                return true;
            }
            depth = depth - 1;
        } else {
            return true;
        }
        i = i + 1;
    }
    depth != 0
}

/// The digit characters of a sequence, in order.
pub open spec fn digits_of(s: Seq<char>) -> Seq<char>
    decreases s.len(),
{
    if s.len() == 0 {
        Seq::empty()
    } else {
        let rest = digits_of(s.drop_last());
        if is_phone_digit(s.last()) {
            rest.push(s.last())
        } else {
            rest
        }
    }
}

pub proof fn lemma_digits_of_push(s: Seq<char>, c: char)
    ensures
        digits_of(s.push(c)) == if is_phone_digit(c) {
            digits_of(s).push(c)
        } else {
            digits_of(s)
        },
{
    assert(s.push(c).drop_last() =~= s);
    assert(s.push(c).last() == c);
}

pub proof fn lemma_digits_of_all(s: Seq<char>)
    ensures
        all_digits(digits_of(s)),
        digits_of(s).len() <= s.len(),
    decreases s.len(),
{
    if s.len() > 0 {
        lemma_digits_of_all(s.drop_last());
    }
}

/// Digit extraction distributes over concatenation.
pub proof fn lemma_digits_of_add(a: Seq<char>, b: Seq<char>)
    ensures
        digits_of(a + b) == digits_of(a) + digits_of(b),
    decreases b.len(),
{
    if b.len() == 0 {
        assert(a + b =~= a);
        assert(digits_of(a) + digits_of(b) =~= digits_of(a));
    } else {
        assert((a + b).drop_last() =~= a + b.drop_last());
        assert((a + b).last() == b.last());
        lemma_digits_of_add(a, b.drop_last());
        assert(b.drop_last().push(b.last()) =~= b);
        lemma_digits_of_push(b.drop_last(), b.last());
        if is_phone_digit(b.last()) {
            assert(digits_of(a) + digits_of(b.drop_last()).push(b.last()) =~= (digits_of(a)
                + digits_of(b.drop_last())).push(b.last()));
        }
    }
}

/// A digit-only sequence is untouched by digit extraction.
pub proof fn lemma_digits_of_id(s: Seq<char>)
    requires
        all_digits(s),
    ensures
        digits_of(s) == s,
    decreases s.len(),
{
    if s.len() > 0 {
        assert(all_digits(s.drop_last())) by {
            assert(forall|i: int|
                0 <= i < s.len() - 1 ==> is_phone_digit(#[trigger] s.drop_last()[i])
                    == is_phone_digit(s[i]));
        }
        lemma_digits_of_id(s.drop_last());
        assert(digits_of(s) =~= s);
    }
}

/// Keeps only the digit characters of a sequence.
pub fn remove_non_digit_character(s: &Vec<char>) -> (r: Vec<char>)
    ensures
        r@ == digits_of(s@),
{
    let n = s.len();
    let mut r: Vec<char> = Vec::new();
    let mut i: usize = 0;
    while i < n
        invariant
            i <= n,
            n == s@.len(),
            r@ == digits_of(s@.take(i as int)),
        decreases n - i,
    {
        let c = s[i];
        if digit_check(c) {
            r.push(c);
        }
        i = i + 1;
        proof {
            assert(s@.take(i as int) =~= s@.take(i - 1).push(s@[i - 1]));
            lemma_digits_of_push(s@.take(i - 1), s@[i - 1]);
        }
    }
    proof {
        assert(s@.take(n as int) =~= s@);
    }
    r
}

/// A sequence with its leading `'0'` characters removed; an all-zero
/// sequence becomes empty.
pub open spec fn strip_zeros(s: Seq<char>) -> Seq<char>
    decreases s.len(),
{
    if s.len() > 0 && s[0] == '0' {
        strip_zeros(s.drop_first())
    } else {
        s
    }
}

/// Stripping removes exactly the leading run of zeros.
pub proof fn lemma_strip_zeros_skip(s: Seq<char>, k: int)
    requires
        0 <= k <= s.len(),
        forall|j: int| 0 <= j < k ==> s[j] == '0',
        k == s.len() || s[k] != '0',
    ensures
        strip_zeros(s) == s.skip(k),
    decreases k,
{
    if k == 0 {
        assert(s.skip(0) =~= s);
    } else {
        assert(s[0] == '0');
        let t = s.drop_first();
        assert(forall|j: int| 0 <= j < k - 1 ==> #[trigger] t[j] == s[j + 1]);
        lemma_strip_zeros_skip(t, k - 1);
        assert(t.skip(k - 1) =~= s.skip(k));
    }
}

pub proof fn lemma_strip_zeros_head(s: Seq<char>)
    ensures
        strip_zeros(s).len() > 0 ==> strip_zeros(s)[0] != '0',
        strip_zeros(s).len() <= s.len(),
        s.len() == 0 || s[0] != '0' ==> strip_zeros(s) == s,
    decreases s.len(),
{
    if s.len() > 0 && s[0] == '0' {
        lemma_strip_zeros_head(s.drop_first());
    }
}

pub proof fn lemma_strip_zeros_all_digits(s: Seq<char>)
    requires
        all_digits(s),
    ensures
        all_digits(strip_zeros(s)),
    decreases s.len(),
{
    if s.len() > 0 && s[0] == '0' {
        let t = s.drop_first();
        assert(forall|j: int| 0 <= j < t.len() ==> #[trigger] t[j] == s[j + 1]);
        lemma_strip_zeros_all_digits(t);
    }
}

/// Removes the leading zeros of a digit vector.
pub fn leading_zero_remover(s: &Vec<char>) -> (r: Vec<char>)
    ensures
        r@ == strip_zeros(s@),
{
    let n = s.len();
    let mut k: usize = 0;
    while k < n && s[k] == '0'
        invariant
            k <= n,
            n == s@.len(),
            forall|j: int| 0 <= j < k ==> s@[j] == '0',
        decreases n - k,
    {
        k = k + 1;
    }
    proof {
        lemma_strip_zeros_skip(s@, k as int);
    }
    let mut r: Vec<char> = Vec::new();
    let mut i: usize = k;
    while i < n
        invariant
            k <= i <= n,
            n == s@.len(),
            r@ == s@.subrange(k as int, i as int),
        decreases n - i,
    {
        r.push(s[i]);
        i = i + 1;
        proof {
            assert(r@ =~= s@.subrange(k as int, i as int));
        }
    }
    proof {
        assert(r@ =~= s@.skip(k as int));
    }
    r
}

/// The cleaned digit string of a raw input: its digits with leading zeros
/// removed.
pub open spec fn clean_digits(s: Seq<char>) -> Seq<char> {
    strip_zeros(digits_of(s))
}

/// Facts about a cleaned digit string: it holds only digits and does not
/// start with a zero.
pub proof fn lemma_clean_digits_wf(s: Seq<char>)
    ensures
        all_digits(clean_digits(s)),
        clean_digits(s).len() > 0 ==> clean_digits(s)[0] != '0',
        clean_digits(s).len() <= s.len(),
{
    lemma_digits_of_all(s);
    lemma_strip_zeros_all_digits(digits_of(s));
    lemma_strip_zeros_head(digits_of(s));
}

/// Cleans a raw input: keeps its digits and strips leading zeros.
pub fn remove_unwanted_character(s: &Vec<char>) -> (r: Vec<char>)
    ensures
        r@ == clean_digits(s@),
{
    let d = remove_non_digit_character(s);
    leading_zero_remover(&d)
}

} // verus!
