//! Characters and strings: digit predicates, conversions between `String`
//! and `Vec<char>`, and verified construction of output strings.

use vstd::prelude::*;
use vstd::string::StrSliceExecFns;
use vstd::string::StringExecFns;

verus! {

/// A decimal digit character, `'0'` through `'9'`.
pub open spec fn is_phone_digit(c: char) -> bool {
    48 <= c as u32 && c as u32 <= 57
}

/// Numeric value of a decimal digit character.
pub open spec fn digit_val(c: char) -> int {
    c as u32 - 48
}

/// The decimal digit character for a value between 0 and 9.
pub open spec fn digit_char(d: int) -> char {
    ((48 + d) as u8) as char
}

/// Every character a function of this library ever writes into an output
/// string: digits and the punctuation of the supported presentation forms.
pub open spec fn is_output_char(c: char) -> bool {
    ||| is_phone_digit(c)
    ||| c == '+'
    ||| c == '-'
    ||| c == '.'
    ||| c == ' '
    ||| c == '('
    ||| c == ')'
    ||| c == '*'
}

pub proof fn lemma_digit_char_val(d: int)
    requires
        0 <= d <= 9,
    ensures
        is_phone_digit(digit_char(d)),
        digit_val(digit_char(d)) == d,
{
}

pub proof fn lemma_digit_val_char(c: char)
    requires
        is_phone_digit(c),
    ensures
        digit_char(digit_val(c)) == c,
{
}

/// Tests whether a character is a decimal digit.
pub fn digit_check(c: char) -> (r: bool)
    ensures
        r == is_phone_digit(c),
{
    let u = c as u32;
    48 <= u && u <= 57
}

/// Collects the characters of a string slice into a vector.
pub fn to_chars(s: &str) -> (v: Vec<char>)
    ensures
        v@ == s@,
{
    let n = s.unicode_len();
    let mut v: Vec<char> = Vec::new();
    let mut i: usize = 0;
    while i < n
        invariant
            i <= n,
            n == s@.len(),
            v@ == s@.take(i as int),
        decreases n - i,
    {
        let c = s.get_char(i);
        v.push(c);
        i = i + 1;
        proof {
            assert(v@ =~= s@.take(i as int));
        }
    }
    proof {
        assert(v@ =~= s@);
    }
    v
}

/// Appends one output-alphabet character to a string.
pub fn push_output_char(s: &mut String, c: char)
    requires
        is_output_char(c),
    ensures
        final(s)@ == old(s)@.push(c),
{
    if c == '0' {
        proof {
            reveal_strlit("0");
        }
        s.append("0");
    } else if c == '1' {
        proof {
            reveal_strlit("1");
        }
        s.append("1");
    } else if c == '2' {
        proof {
            reveal_strlit("2");
        }
        s.append("2");
    } else if c == '3' {
        proof {
            reveal_strlit("3");
        }
        s.append("3");
    } else if c == '4' {
        proof {
            reveal_strlit("4");
        }
        s.append("4");
    } else if c == '5' {
        proof {
            reveal_strlit("5");
        }
        s.append("5");
    } else if c == '6' {
        proof {
            reveal_strlit("6");
        }
        s.append("6");
    } else if c == '7' {
        proof {
            reveal_strlit("7");
        }
        s.append("7");
    } else if c == '8' {
        proof {
            reveal_strlit("8");
        }
        s.append("8");
    } else if c == '9' {
        proof {
            reveal_strlit("9");
        }
        s.append("9");
    } else if c == '+' {
        proof {
            reveal_strlit("+");
        }
        s.append("+");
    } else if c == '-' {
        proof {
            reveal_strlit("-");
        }
        s.append("-");
    } else if c == '.' {
        proof {
            reveal_strlit(".");
        }
        s.append(".");
    } else if c == ' ' {
        proof {
            reveal_strlit(" ");
        }
        s.append(" ");
    } else if c == '(' {
        proof {
            reveal_strlit("(");
        }
        s.append("(");
    } else if c == ')' {
        proof {
            reveal_strlit(")");
        }
        s.append(")");
    } else {
        assert(c == '*');
        proof {
            reveal_strlit("*");
        }
        s.append("*");
    }
    proof {
        assert(s@ =~= old(s)@.push(c));
    }
}

/// Appends the characters `v[from..to]` to a string.
pub fn append_chars(s: &mut String, v: &Vec<char>, from: usize, to: usize)
    requires
        from <= to <= v@.len(),
        forall|i: int| from <= i < to ==> is_output_char(v@[i]),
    ensures
        final(s)@ == old(s)@ + v@.subrange(from as int, to as int),
{
    let mut i: usize = from;
    while i < to
        invariant
            from <= i <= to <= v@.len(),
            forall|j: int| from <= j < to ==> is_output_char(v@[j]),
            s@ == old(s)@ + v@.subrange(from as int, i as int),
        decreases to - i,
    {
        push_output_char(s, v[i]);
        i = i + 1;
        proof {
            assert(s@ =~= old(s)@ + v@.subrange(from as int, i as int));
        }
    }
    proof {
        assert(s@ =~= old(s)@ + v@.subrange(from as int, to as int));
    }
}

/// Builds a string from a vector of output-alphabet characters.
pub fn chars_to_string(v: &Vec<char>) -> (s: String)
    requires
        forall|i: int| 0 <= i < v@.len() ==> is_output_char(v@[i]),
    ensures
        s@ == v@,
{
    let mut s = String::new();
    append_chars(&mut s, v, 0, v.len());
    proof {
        assert(s@ =~= v@);
    }
    s
}

/// Compares two string slices character by character.
pub fn str_eq(a: &str, b: &str) -> (r: bool)
    ensures
        r == (a@ == b@),
{
    let na = a.unicode_len();
    let nb = b.unicode_len();
    if na != nb {
        return false;
    }
    let mut i: usize = 0;
    while i < na
        invariant
            i <= na,
            na == a@.len(),
            na == b@.len(),
            forall|j: int| 0 <= j < i ==> a@[j] == b@[j],
        decreases na - i,
    {
        if a.get_char(i) != b.get_char(i) {
            return false;
        }
        i = i + 1;
    }
    proof {
        assert(a@ =~= b@);
    }
    true
}

} // verus!
