//! Country resolution: finding the rule whose dialing prefix starts a
//! cleaned digit string and whose accepted lengths admit the remainder.
//! Resolution walks the registry in table order and returns the first match;
//! order is the deliberate tie-breaker for rules that share a prefix.

use vstd::prelude::*;
use crate::chars::to_chars;
use crate::digits::all_digits;
use crate::digits::count_digits;
use crate::digits::lemma_num_digits_le3;
use crate::digits::num_digits;
use crate::digits::parse_value;
use crate::digits::seq_value;
use crate::filter::clean_digits;
use crate::filter::digits_of;
use crate::filter::lemma_clean_digits_wf;
use crate::filter::lemma_digits_of_all;
use crate::filter::remove_non_digit_character;
use crate::filter::remove_unwanted_character;
use crate::registry::Country;
use crate::registry::CountryModel;
use crate::registry::countries;
use crate::registry::country_wf;
use crate::registry::lemma_countries_wf;
use crate::registry::registry_view;
use crate::registry::registry_wf;
use crate::registry::spec_countries;

verus! {

/// Membership of a digit count in a rule's accepted national lengths.
pub open spec fn accepts_len(lengths: Seq<u8>, n: int) -> bool {
    exists|j: int| 0 <= j < lengths.len() && lengths[j] as int == n
}

/// A rule matches a digit string when the string starts with the rule's
/// prefix (read as a number from as many digits as the prefix has) and the
/// remaining digit count is one of the rule's accepted national lengths.
pub open spec fn rule_matches(r: CountryModel, d: Seq<char>) -> bool {
    let p = num_digits(r.prefix as int);
    &&& d.len() >= p
    &&& seq_value(d.take(p)) == r.prefix as int
    &&& accepts_len(r.lengths, d.len() - p)
}

pub open spec fn first_match_from(reg: Seq<CountryModel>, d: Seq<char>, i: int) -> Option<int>
    decreases reg.len() - i,
{
    if i < 0 || i >= reg.len() {
        None
    } else if rule_matches(reg[i], d) {
        Some(i)
    } else {
        first_match_from(reg, d, i + 1)
    }
}

/// The index of the first rule in table order that matches a cleaned digit
/// string. Resolution is a function of the digit string and the table alone,
/// so resolving the same string twice gives the same rule.
pub open spec fn spec_resolve(reg: Seq<CountryModel>, d: Seq<char>) -> Option<int> {
    first_match_from(reg, d, 0)
}

pub proof fn lemma_first_match_from_props(reg: Seq<CountryModel>, d: Seq<char>, i: int)
    requires
        0 <= i <= reg.len(),
    ensures
        match first_match_from(reg, d, i) {
            Some(k) => i <= k < reg.len() && rule_matches(reg[k], d) && forall|j: int|
                i <= j < k ==> !rule_matches(#[trigger] reg[j], d),
            None => forall|j: int| i <= j < reg.len() ==> !rule_matches(#[trigger] reg[j], d),
        },
    decreases reg.len() - i,
{
    if i < reg.len() && !rule_matches(reg[i], d) {
        lemma_first_match_from_props(reg, d, i + 1);
    }
}

/// What resolution returns: the first match, before which nothing matches.
pub proof fn lemma_resolve_props(reg: Seq<CountryModel>, d: Seq<char>)
    ensures
        match spec_resolve(reg, d) {
            Some(k) => 0 <= k < reg.len() && rule_matches(reg[k], d) && forall|j: int|
                0 <= j < k ==> !rule_matches(#[trigger] reg[j], d),
            None => forall|j: int| 0 <= j < reg.len() ==> !rule_matches(#[trigger] reg[j], d),
        },
{
    lemma_first_match_from_props(reg, d, 0);
}

/// Tests whether `n` is one of the accepted national lengths.
fn accepts(lengths: &Vec<u8>, n: usize) -> (b: bool)
    ensures
        b == accepts_len(lengths@, n as int),
{
    let m = lengths.len();
    let mut j: usize = 0;
    while j < m
        invariant
            j <= m,
            m == lengths@.len(),
            forall|k: int| 0 <= k < j ==> lengths@[k] as int != n as int,
        decreases m - j,
    {
        if lengths[j] as usize == n {
            return true;
        }
        j = j + 1;
    }
    false
}

/// Finds the first rule of the registry that matches a digit string.
pub fn extract_country_data(reg: &Vec<Country>, d: &Vec<char>) -> (r: Option<usize>)
    requires
        all_digits(d@),
        registry_wf(registry_view(reg@)),
    ensures
        match r {
            Some(i) => i < reg@.len() && spec_resolve(registry_view(reg@), d@) == Some(i as int),
            None => spec_resolve(registry_view(reg@), d@) is None,
        },
{
    let ghost regm = registry_view(reg@);
    let n = reg.len();
    let mut i: usize = 0;
    while i < n
        invariant
            i <= n,
            n == reg@.len(),
            regm == registry_view(reg@),
            registry_wf(regm),
            all_digits(d@),
            first_match_from(regm, d@, 0) == first_match_from(regm, d@, i as int),
        decreases n - i,
    {
        let c = &reg[i];
        proof {
            assert(regm[i as int] == reg@[i as int]@);
            assert(country_wf(regm[i as int]));
            lemma_num_digits_le3(c.prefix as int);
        }
        let p = count_digits(c.prefix);
        if d.len() >= p {
            let v = parse_value(d, p);
            if v == c.prefix {
                let rem = d.len() - p;
                if accepts(&c.phone_lengths, rem) {
                    proof {
                        assert(rule_matches(regm[i as int], d@));
                    }
                    return Some(i);
                }
            }
        }
        proof {
            assert(!rule_matches(regm[i as int], d@));
        }
        i = i + 1;
    }
    None
}

/// The model of the rule that a cleaned raw input resolves to.
pub open spec fn spec_extract_country(s: Seq<char>) -> Option<CountryModel> {
    match spec_resolve(spec_countries(), clean_digits(s)) {
        Some(i) => Some(spec_countries()[i]),
        None => None,
    }
}

/// Cleans a raw input and resolves its country: the first rule in table
/// order whose prefix and accepted lengths fit the cleaned digit string.
pub fn extract_country(phone_number: String) -> (r: Option<Country>)
    ensures
        match r {
            Some(c) => spec_extract_country(phone_number@) == Some(c@),
            None => spec_extract_country(phone_number@) is None,
        },
{
    let cs = to_chars(phone_number.as_str());
    let d = remove_unwanted_character(&cs);
    proof {
        lemma_clean_digits_wf(phone_number@);
        lemma_countries_wf();
    }
    let reg = countries();
    match extract_country_data(&reg, &d) {
        Some(i) => Some(reg[i].clone()),
        None => None,
    }
}

/// The first rule in table order that carries a given ISO code.
pub open spec fn first_code_from(reg: Seq<CountryModel>, code: Seq<char>, i: int) -> Option<int>
    decreases reg.len() - i,
{
    if i < 0 || i >= reg.len() {
        None
    } else if reg[i].code == code {
        Some(i)
    } else {
        first_code_from(reg, code, i + 1)
    }
}

pub open spec fn spec_find_by_code(reg: Seq<CountryModel>, code: Seq<char>) -> Option<int> {
    first_code_from(reg, code, 0)
}

/// Finds the first registry entry with the given ISO code.
pub fn find_by_code(reg: &Vec<Country>, code: &str) -> (r: Option<usize>)
    ensures
        match r {
            Some(i) => i < reg@.len() && spec_find_by_code(registry_view(reg@), code@) == Some(
                i as int,
            ),
            None => spec_find_by_code(registry_view(reg@), code@) is None,
        },
{
    let ghost regm = registry_view(reg@);
    let n = reg.len();
    let mut i: usize = 0;
    while i < n
        invariant
            i <= n,
            n == reg@.len(),
            regm == registry_view(reg@),
            first_code_from(regm, code@, 0) == first_code_from(regm, code@, i as int),
        decreases n - i,
    {
        proof {
            assert(regm[i as int] == reg@[i as int]@);
        }
        if crate::chars::str_eq(reg[i].code, code) {
            return Some(i);
        }
        i = i + 1;
    }
    None
}

/// The fallback guess for a digit string no rule matches: common shapes of
/// North American, British and German numbers.
pub open spec fn spec_guess_fallback(d: Seq<char>, reg: Seq<CountryModel>) -> Option<int> {
    if d.len() == 10 {
        spec_find_by_code(reg, seq!['U', 'S'])
    } else if d.len() == 11 && d[0] == '1' {
        spec_find_by_code(reg, seq!['U', 'S'])
    } else if d.len() == 11 && d.take(2) == seq!['4', '4'] {
        spec_find_by_code(reg, seq!['G', 'B'])
    } else if d.len() == 12 && d.take(2) == seq!['4', '9'] {
        spec_find_by_code(reg, seq!['D', 'E'])
    } else {
        None
    }
}

/// The most likely rule for a raw input: exact resolution of its digit
/// string first, then the length-and-prefix fallback.
pub open spec fn spec_guess_country(s: Seq<char>, reg: Seq<CountryModel>) -> Option<int> {
    let d = digits_of(s);
    if d.len() == 0 {
        None
    } else {
        match spec_resolve(reg, d) {
            Some(i) => Some(i),
            None => spec_guess_fallback(d, reg),
        }
    }
}

/// Guesses the most likely country of a raw input: tries exact resolution
/// of its digit string, then falls back to a few common number shapes.
pub fn guess_country_from_number(phone_number: String) -> (r: Option<Country>)
    ensures
        match r {
            Some(c) => {
                &&& spec_guess_country(phone_number@, spec_countries()) is Some
                &&& c@ == spec_countries()[spec_guess_country(
                    phone_number@,
                    spec_countries(),
                )->Some_0]
            },
            None => spec_guess_country(phone_number@, spec_countries()) is None,
        },
{
    let cs = to_chars(phone_number.as_str());
    let d = remove_non_digit_character(&cs);
    proof {
        lemma_digits_of_all(phone_number@);
    }
    if d.len() == 0 {
        return None;
    }
    let reg = countries();
    proof {
        lemma_countries_wf();
    }
    if let Some(i) = extract_country_data(&reg, &d) {
        return Some(reg[i].clone());
    }
    let idx: Option<usize> = if d.len() == 10 {
        find_by_code(&reg, "US")
    } else if d.len() == 11 && d[0] == '1' {
        find_by_code(&reg, "US")
    } else if d.len() == 11 && d[0] == '4' && d[1] == '4' {
        proof {
            assert(d@.take(2) =~= seq![d@[0], d@[1]]);
        }
        find_by_code(&reg, "GB")
    } else if d.len() == 12 && d[0] == '4' && d[1] == '9' {
        proof {
            assert(d@.take(2) =~= seq![d@[0], d@[1]]);
        }
        find_by_code(&reg, "DE")
    } else {
        return None;
    };
    proof {
        reveal_strlit("US");
        reveal_strlit("GB");
        reveal_strlit("DE");
        assert("US"@ =~= seq!['U', 'S']);
        assert("GB"@ =~= seq!['G', 'B']);
        assert("DE"@ =~= seq!['D', 'E']);
        if d@.len() == 11 && d@[0] != '1' {
            assert(d@.take(2) =~= seq![d@[0], d@[1]]);
        }
    }
    match idx {
        Some(i) => Some(reg[i].clone()),
        None => None,
    }
}

} // verus!
