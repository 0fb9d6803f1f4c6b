//! Presentation of canonical numbers: E.164 identity, an international
//! form, country-specific national grouping, and a `tel:` URI. Grouping is a
//! small per-code table and deliberately does not attempt numbering-plan
//! correct grouping for every country.

use vstd::prelude::*;
use crate::chars::append_chars;
use crate::chars::chars_to_string;
use crate::chars::is_output_char;
use crate::chars::push_output_char;
use crate::chars::str_eq;
use crate::chars::to_chars;
use crate::digits::all_digits;
use crate::digits::count_digits;
use crate::digits::lemma_num_digits_le3;
use crate::digits::num_digits;
use crate::filter::clean_digits;
use crate::filter::lemma_clean_digits_wf;
use crate::filter::remove_unwanted_character;
use crate::normalize::normalize_phone_number;
use crate::normalize::spec_normalize;
use crate::normalize::vec_suffix;
use crate::registry::Country;
use crate::registry::countries;
use crate::registry::country_wf;
use crate::registry::lemma_countries_wf;
use crate::registry::spec_countries;
use crate::resolve::extract_country_data;
use crate::resolve::lemma_resolve_props;
use crate::resolve::spec_resolve;

verus! {

/// The supported presentation styles.
#[derive(Debug, Clone, Copy, PartialEq, Eq, Structural)]
pub enum PhoneFormat {
    /// Canonical form: `+` and digits.
    E164,
    /// Country code, space, grouped national number.
    International,
    /// Country-specific grouping without the country code.
    National,
    /// A `tel:` URI with the digits in groups of three.
    RFC3966,
}

/// Country-specific grouping of a national number: area-code parentheses
/// for North America, 4-3-rest for Britain, 3-rest for Germany, and a split
/// at the midpoint for everyone else.
pub open spec fn spec_national_format(n: Seq<char>, code: Seq<char>) -> Seq<char> {
    if code == seq!['U', 'S'] || code == seq!['C', 'A'] {
        if n.len() == 10 {
            seq!['('] + n.take(3) + seq![')', ' '] + n.subrange(3, 6) + seq!['-'] + n.skip(6)
        } else {
            n
        }
    } else if code == seq!['G', 'B'] {
        if n.len() >= 10 {
            n.take(4) + seq![' '] + n.subrange(4, 7) + seq![' '] + n.skip(7)
        } else {
            n
        }
    } else if code == seq!['D', 'E'] {
        if n.len() >= 10 {
            n.take(3) + seq![' '] + n.skip(3)
        } else {
            n
        }
    } else {
        if n.len() >= 7 {
            n.take(n.len() as int / 2) + seq![' '] + n.skip(n.len() as int / 2)
        } else {
            n
        }
    }
}

/// The digits of a national number joined with hyphens in groups of three.
pub open spec fn spec_groups3(n: Seq<char>) -> Seq<char>
    decreases n.len(),
{
    if n.len() <= 3 {
        n
    } else {
        n.take(3) + seq!['-'] + spec_groups3(n.skip(3))
    }
}

/// Formatting a raw input: normalize it, resolve the country of the
/// canonical form again, split off the country code, and render.
pub open spec fn spec_format(s: Seq<char>, style: PhoneFormat) -> Option<Seq<char>> {
    match spec_normalize(s) {
        None => None,
        Some(t) => {
            let d = clean_digits(t);
            match spec_resolve(spec_countries(), d) {
                None => None,
                Some(i) => {
                    let p = num_digits(spec_countries()[i].prefix as int);
                    let cc = d.take(p);
                    let natl = d.skip(p);
                    let code = spec_countries()[i].code;
                    match style {
                        PhoneFormat::E164 => Some(t),
                        PhoneFormat::International => Some(
                            seq!['+'] + cc + seq![' '] + spec_national_format(natl, code),
                        ),
                        PhoneFormat::National => Some(spec_national_format(natl, code)),
                        PhoneFormat::RFC3966 => Some(
                            seq!['t', 'e', 'l', ':', '+'] + cc + seq!['-'] + spec_groups3(natl),
                        ),
                    }
                },
            }
        },
    }
}

/// Copies the characters `v[from..to]`.
fn vec_range(v: &Vec<char>, from: usize, to: usize) -> (r: Vec<char>)
    requires
        from <= to <= v@.len(),
    ensures
        r@ == v@.subrange(from as int, to as int),
{
    let mut r: Vec<char> = Vec::new();
    let mut i: usize = from;
    while i < to
        invariant
            from <= i <= to <= v@.len(),
            r@ == v@.subrange(from as int, i as int),
        decreases to - i,
    {
        r.push(v[i]);
        i = i + 1;
        proof {
            assert(r@ =~= v@.subrange(from as int, i as int));
        }
    }
    r
}

/// Renders a national number under a country's grouping rules.
pub fn format_national_number(number: &Vec<char>, country: &Country) -> (r: Vec<char>)
    requires
        all_digits(number@),
    ensures
        r@ == spec_national_format(number@, country.code@),
        forall|i: int| 0 <= i < r@.len() ==> is_output_char(#[trigger] r@[i]),
{
    proof {
        reveal_strlit("US");
        reveal_strlit("CA");
        reveal_strlit("GB");
        reveal_strlit("DE");
        assert("US"@ =~= seq!['U', 'S']);
        assert("CA"@ =~= seq!['C', 'A']);
        assert("GB"@ =~= seq!['G', 'B']);
        assert("DE"@ =~= seq!['D', 'E']);
    }
    let n = number.len();
    let mut out: Vec<char> = Vec::new();
    if str_eq(country.code, "US") || str_eq(country.code, "CA") {
        if n == 10 {
            out.push('(');
            let mut i: usize = 0;
            while i < 3
                invariant
                    i <= 3,
                    number@.len() == 10,
                    out@ == seq!['('] + number@.subrange(0, i as int),
                decreases 3 - i,
            {
                out.push(number[i]);
                i = i + 1;
                proof {
                    assert(out@ =~= seq!['('] + number@.subrange(0, i as int));
                }
            }
            out.push(')');
            out.push(' ');
            let mut i: usize = 3;
            while i < 6
                invariant
                    3 <= i <= 6,
                    number@.len() == 10,
                    out@ == seq!['('] + number@.subrange(0, 3) + seq![')', ' ']
                        + number@.subrange(3, i as int),
                decreases 6 - i,
            {
                out.push(number[i]);
                i = i + 1;
                proof {
                    assert(out@ =~= seq!['('] + number@.subrange(0, 3) + seq![')', ' ']
                        + number@.subrange(3, i as int));
                }
            }
            out.push('-');
            let mut i: usize = 6;
            while i < 10
                invariant
                    6 <= i <= 10,
                    number@.len() == 10,
                    out@ == seq!['('] + number@.subrange(0, 3) + seq![')', ' '] + number@.subrange(
                        3,
                        6,
                    ) + seq!['-'] + number@.subrange(6, i as int),
                decreases 10 - i,
            {
                out.push(number[i]);
                i = i + 1;
                proof {
                    assert(out@ =~= seq!['('] + number@.subrange(0, 3) + seq![')', ' ']
                        + number@.subrange(3, 6) + seq!['-'] + number@.subrange(6, i as int));
                }
            }
            proof {
                assert(number@.subrange(6, 10) =~= number@.skip(6));
                assert(out@ =~= spec_national_format(number@, country.code@));
            }
        } else {
            out = vec_range(number, 0, n);
            proof {
                assert(out@ =~= number@);
            }
        }
    } else if str_eq(country.code, "GB") {
        if n >= 10 {
            let a = vec_range(number, 0, 4);
            let b = vec_range(number, 4, 7);
            let c = vec_suffix(number, 7);
            out = a;
            out.push(' ');
            let mut out2 = append_all(out, &b);
            out2.push(' ');
            out = append_all(out2, &c);
            proof {
                assert(out@ =~= spec_national_format(number@, country.code@));
            }
        } else {
            out = vec_range(number, 0, n);
            proof {
                assert(out@ =~= number@);
            }
        }
    } else if str_eq(country.code, "DE") {
        if n >= 10 {
            let a = vec_range(number, 0, 3);
            let c = vec_suffix(number, 3);
            out = a;
            out.push(' ');
            out = append_all(out, &c);
            proof {
                assert(out@ =~= spec_national_format(number@, country.code@));
            }
        } else {
            out = vec_range(number, 0, n);
            proof {
                assert(out@ =~= number@);
            }
        }
    } else {
        if n >= 7 {
            let mid = n / 2;
            let a = vec_range(number, 0, mid);
            let c = vec_suffix(number, mid);
            out = a;
            out.push(' ');
            out = append_all(out, &c);
            proof {
                assert(out@ =~= spec_national_format(number@, country.code@));
            }
        } else {
            out = vec_range(number, 0, n);
            proof {
                assert(out@ =~= number@);
            }
        }
    }
    proof {
        lemma_national_format_chars(number@, country.code@);
    }
    out
}

/// Appends all characters of `b` to `a`.
fn append_all(a: Vec<char>, b: &Vec<char>) -> (r: Vec<char>)
    ensures
        r@ == a@ + b@,
{
    let mut r = a;
    let ghost a0 = r@;
    let mut i: usize = 0;
    let n = b.len();
    while i < n
        invariant
            i <= n,
            n == b@.len(),
            r@ == a0 + b@.subrange(0, i as int),
        decreases n - i,
    {
        r.push(b[i]);
        i = i + 1;
        proof {
            assert(r@ =~= a0 + b@.subrange(0, i as int));
        }
    }
    proof {
        assert(r@ =~= a0 + b@);
    }
    r
}

/// Every character of a grouped national number is a digit or grouping
/// punctuation.
proof fn lemma_national_format_chars(n: Seq<char>, code: Seq<char>)
    requires
        all_digits(n),
    ensures
        forall|i: int|
            0 <= i < spec_national_format(n, code).len() ==> is_output_char(
                #[trigger] spec_national_format(n, code)[i],
            ),
{
}

/// Every character of the hyphen-grouped digits is a digit or a hyphen.
proof fn lemma_groups3_chars(n: Seq<char>)
    requires
        all_digits(n),
    ensures
        forall|i: int|
            0 <= i < spec_groups3(n).len() ==> is_output_char(#[trigger] spec_groups3(n)[i]),
    decreases n.len(),
{
    let g = spec_groups3(n);
    if n.len() > 3 {
        assert(all_digits(n.skip(3))) by {
            assert(forall|j: int| 0 <= j < n.len() - 3 ==> n.skip(3)[j] == n[#[trigger] (j + 3)]);
        }
        lemma_groups3_chars(n.skip(3));
        let tail = spec_groups3(n.skip(3));
        assert(g == n.take(3) + seq!['-'] + tail);
        assert(forall|i: int| 0 <= i < g.len() ==> is_output_char(#[trigger] g[i])) by {
            assert(forall|i: int|
                0 <= i < g.len() ==> #[trigger] g[i] == if i < 3 {
                    n[i]
                } else if i == 3 {
                    '-'
                } else {
                    tail[i - 4]
                });
        }
    } else {
        assert(g == n);
        assert(forall|i: int| 0 <= i < g.len() ==> is_output_char(#[trigger] g[i])) by {
            assert(forall|i: int| 0 <= i < g.len() ==> g[i] == n[i]);
        }
    }
}

/// Joins digit characters with hyphens in groups of three.
fn groups_of_three(v: &Vec<char>) -> (r: Vec<char>)
    requires
        all_digits(v@),
    ensures
        r@ == spec_groups3(v@),
    decreases v@.len(),
{
    let n = v.len();
    if n <= 3 {
        vec_range(v, 0, n)
    } else {
        let rest = vec_suffix(v, 3);
        proof {
            assert(all_digits(rest@)) by {
                assert(forall|j: int|
                    0 <= j < rest@.len() ==> rest@[j] == v@[#[trigger] (j + 3)]);
            }
        }
        let tail = groups_of_three(&rest);
        let mut out = vec_range(v, 0, 3);
        out.push('-');
        let out2 = append_all(out, &tail);
        proof {
            assert(out2@ =~= spec_groups3(v@));
        }
        out2
    }
}

/// Formats a phone number in the requested style, or nothing when the
/// input does not normalize or its canonical form resolves to no country.
#[verifier::rlimit(60)]
pub fn format_phone_number(phone_number: String, format: PhoneFormat) -> (r: Option<String>)
    ensures
        match r {
            Some(t) => spec_format(phone_number@, format) == Some(t@),
            None => spec_format(phone_number@, format) is None,
        },
{
    let ghost orig = phone_number@;
    let normalized = match normalize_phone_number(phone_number) {
        Some(t) => t,
        None => {
            return None;
        },
    };
    let cs = to_chars(normalized.as_str());
    let d = remove_unwanted_character(&cs);
    proof {
        lemma_clean_digits_wf(cs@);
        lemma_countries_wf();
    }
    let reg = countries();
    let i = match extract_country_data(&reg, &d) {
        Some(i) => i,
        None => {
            return None;
        },
    };
    let c = &reg[i];
    proof {
        lemma_resolve_props(spec_countries(), d@);
        assert(spec_countries()[i as int] == reg@[i as int]@);
        assert(country_wf(spec_countries()[i as int]));
        lemma_num_digits_le3(c.prefix as int);
    }
    let p = count_digits(c.prefix);
    let cc = vec_range(&d, 0, p);
    let natl = vec_suffix(&d, p);
    proof {
        assert(all_digits(natl@)) by {
            assert(forall|j: int|
                0 <= j < natl@.len() ==> natl@[j] == d@[#[trigger] (j + p as int)]);
        }
        assert(forall|j: int| 0 <= j < cc@.len() ==> is_output_char(#[trigger] cc@[j]));
    }
    match format {
        PhoneFormat::E164 => Some(normalized),
        PhoneFormat::International => {
            let grouped = format_national_number(&natl, c);
            let mut out = String::new();
            push_output_char(&mut out, '+');
            append_chars(&mut out, &cc, 0, cc.len());
            push_output_char(&mut out, ' ');
            append_chars(&mut out, &grouped, 0, grouped.len());
            proof {
                assert(cc@.subrange(0, cc@.len() as int) =~= cc@);
                assert(grouped@.subrange(0, grouped@.len() as int) =~= grouped@);
                assert(out@ =~= spec_format(orig, format)->Some_0);
            }
            Some(out)
        },
        PhoneFormat::National => {
            let grouped = format_national_number(&natl, c);
            let out = chars_to_string(&grouped);
            Some(out)
        },
        PhoneFormat::RFC3966 => {
            let groups = groups_of_three(&natl);
            proof {
                lemma_groups3_chars(natl@);
            }
            let mut out = String::new();
            proof {
                reveal_strlit("tel:");
            }
            out.append("tel:");
            proof {
                assert(out@ =~= seq!['t', 'e', 'l', ':']);
            }
            push_output_char(&mut out, '+');
            append_chars(&mut out, &cc, 0, cc.len());
            push_output_char(&mut out, '-');
            append_chars(&mut out, &groups, 0, groups.len());
            proof {
                assert(cc@.subrange(0, cc@.len() as int) =~= cc@);
                assert(groups@.subrange(0, groups@.len() as int) =~= groups@);
                assert(out@ =~= spec_format(orig, format)->Some_0);
            }
            Some(out)
        },
    }
}

} // verus!
