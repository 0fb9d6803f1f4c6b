//! Normalization: the canonical `'+'`-prefixed, digits-only form of a phone
//! number. Two differently formatted inputs denote the same number exactly
//! when they normalize to the same canonical string.

use vstd::prelude::*;
use crate::chars::append_chars;
use crate::chars::chars_to_string;
use crate::chars::is_output_char;
use crate::chars::is_phone_digit;
use crate::chars::push_output_char;
use crate::chars::to_chars;
use crate::digits::all_digits;
use crate::digits::count_digits;
use crate::digits::digits_rep;
use crate::digits::lemma_digits_rep_wf;
use crate::digits::lemma_num_digits_le3;
use crate::digits::lemma_num_digits_pos;
use crate::digits::lemma_rep_of_value;
use crate::digits::num_digits;
use crate::digits::u32_to_digits;
use crate::filter::clean_digits;
use crate::filter::contains_invalid_character;
use crate::filter::digits_of;
use crate::filter::gate_from;
use crate::filter::lemma_clean_digits_wf;
use crate::filter::lemma_digits_of_add;
use crate::filter::lemma_digits_of_id;
use crate::filter::lemma_strip_zeros_all_digits;
use crate::filter::lemma_strip_zeros_head;
use crate::filter::leading_zero_remover;
use crate::filter::passes_gate;
use crate::filter::remove_non_digit_character;
use crate::filter::remove_unwanted_character;
use crate::filter::strip_zeros;
use crate::registry::CountryModel;
use crate::registry::countries;
use crate::registry::country_wf;
use crate::registry::lemma_countries_wf;
use crate::registry::registry_wf;
use crate::registry::spec_countries;
use crate::resolve::extract_country_data;
use crate::resolve::lemma_resolve_props;
use crate::resolve::rule_matches;
use crate::resolve::spec_resolve;

verus! {

/// Normalization against an arbitrary registry: run the character check on
/// the unmodified input, clean the digits, resolve the country, strip the
/// trunk zeros that may follow the country code, and reassemble the
/// canonical `'+'`-prefixed form.
pub open spec fn spec_normalize_with(s: Seq<char>, reg: Seq<CountryModel>) -> Option<Seq<char>> {
    if !passes_gate(s) {
        None
    } else {
        let d = clean_digits(s);
        match spec_resolve(reg, d) {
            Some(i) => {
                let p = num_digits(reg[i].prefix as int);
                Some(seq!['+'] + digits_rep(reg[i].prefix as int) + strip_zeros(d.skip(p)))
            },
            None => None,
        }
    }
}

/// Normalization against the library's registry.
pub open spec fn spec_normalize(s: Seq<char>) -> Option<Seq<char>> {
    spec_normalize_with(s, spec_countries())
}

/// A raw input is valid when it passes the character check and normalizes.
pub open spec fn spec_is_valid(s: Seq<char>) -> bool {
    passes_gate(s) && spec_normalize(s) is Some
}

/// Two raw inputs denote the same number when both normalize and the
/// canonical forms coincide; a pair with an invalid side is never equal.
pub open spec fn spec_equal_numbers(a: Seq<char>, b: Seq<char>) -> bool {
    match (spec_normalize(a), spec_normalize(b)) {
        (Some(x), Some(y)) => x == y,
        _ => false,
    }
}

/// What the reused input buffer holds after in-place normalization: the
/// input itself when the character check fails, the cleaned digits when no
/// country matches, and the zero-stripped national remainder on success.
pub open spec fn spec_residue(s: Seq<char>) -> Seq<char> {
    if !passes_gate(s) {
        s
    } else {
        let d = clean_digits(s);
        match spec_resolve(spec_countries(), d) {
            Some(i) => strip_zeros(d.skip(num_digits(spec_countries()[i].prefix as int))),
            None => d,
        }
    }
}

/// Copies the suffix of a vector starting at `from`.
pub fn vec_suffix(v: &Vec<char>, from: usize) -> (r: Vec<char>)
    requires
        from <= v@.len(),
    ensures
        r@ == v@.skip(from as int),
{
    let n = v.len();
    let mut r: Vec<char> = Vec::new();
    let mut i: usize = from;
    while i < n
        invariant
            from <= i <= n,
            n == v@.len(),
            r@ == v@.subrange(from as int, i as int),
        decreases n - i,
    {
        r.push(v[i]);
        i = i + 1;
        proof {
            assert(r@ =~= v@.subrange(from as int, i as int));
        }
    }
    proof {
        assert(r@ =~= v@.skip(from as int));
    }
    r
}

/// Normalizes a phone number in place: the buffer is reused for the cleaned
/// national remainder and the canonical form is returned separately. The
/// result is identical to the copying variant for every input.
pub fn normalize_phone_number_in_place(phone_number: &mut String) -> (r: Option<String>)
    ensures
        match r {
            Some(t) => spec_normalize(old(phone_number)@) == Some(t@),
            None => spec_normalize(old(phone_number)@) is None,
        },
        final(phone_number)@ == spec_residue(old(phone_number)@),
{
    let cs = to_chars(phone_number.as_str());
    if contains_invalid_character(&cs) {
        return None;
    }
    let d = remove_unwanted_character(&cs);
    proof {
        lemma_clean_digits_wf(cs@);
        lemma_countries_wf();
        assert(forall|i: int| 0 <= i < d@.len() ==> is_output_char(#[trigger] d@[i]));
    }
    let reg = countries();
    match extract_country_data(&reg, &d) {
        Some(i) => {
            let c = &reg[i];
            proof {
                lemma_resolve_props(spec_countries(), d@);
                assert(country_wf(spec_countries()[i as int]));
                lemma_num_digits_le3(c.prefix as int);
            }
            let p = count_digits(c.prefix);
            proof {
                assert(rule_matches(spec_countries()[i as int], d@));
            }
            let rest = vec_suffix(&d, p);
            let national = leading_zero_remover(&rest);
            proof {
                lemma_strip_zeros_all_digits(rest@);
                assert(forall|j: int|
                    0 <= j < rest@.len() ==> is_phone_digit(#[trigger] rest@[j]));
                assert(forall|j: int|
                    0 <= j < national@.len() ==> is_output_char(#[trigger] national@[j]));
            }
            let prefix_digits = u32_to_digits(c.prefix);
            proof {
                lemma_digits_rep_wf(c.prefix as int);
                assert(forall|j: int|
                    0 <= j < prefix_digits@.len() ==> is_output_char(
                        #[trigger] prefix_digits@[j],
                    ));
            }
            let mut out = String::new();
            push_output_char(&mut out, '+');
            append_chars(&mut out, &prefix_digits, 0, prefix_digits.len());
            append_chars(&mut out, &national, 0, national.len());
            proof {
                assert(prefix_digits@.subrange(0, prefix_digits@.len() as int) =~= prefix_digits@);
                assert(national@.subrange(0, national@.len() as int) =~= national@);
                assert(out@ =~= seq!['+'] + digits_rep(c.prefix as int) + strip_zeros(
                    d@.skip(num_digits(c.prefix as int)),
                ));
            }
            *phone_number = chars_to_string(&national);
            Some(out)
        },
        None => {
            *phone_number = chars_to_string(&d);
            None
        },
    }
}

/// Normalizes a phone number into its canonical form: character check on the
/// raw input, digit cleaning, country resolution, trunk-zero stripping, and
/// reassembly as `'+'`, the dialing prefix, and the national number.
pub fn normalize_phone_number(phone_number: String) -> (r: Option<String>)
    ensures
        match r {
            Some(t) => spec_normalize(phone_number@) == Some(t@),
            None => spec_normalize(phone_number@) is None,
        },
{
    let mut buffer = phone_number;
    normalize_phone_number_in_place(&mut buffer)
}

/// Validates a phone number: the character check must pass and normalization
/// must succeed.
pub fn is_valid_phone_number(phone_number: String) -> (r: bool)
    ensures
        r == spec_is_valid(phone_number@),
{
    let cs = to_chars(phone_number.as_str());
    if contains_invalid_character(&cs) {
        return false;
    }
    normalize_phone_number(phone_number).is_some()
}

/// Two raw inputs are the same phone number exactly when both normalize and
/// their canonical forms are identical.
pub fn are_phone_numbers_equal(number1: String, number2: String) -> (r: bool)
    ensures
        r == spec_equal_numbers(number1@, number2@),
{
    let n1 = normalize_phone_number(number1);
    let n2 = normalize_phone_number(number2);
    match (n1, n2) {
        (Some(a), Some(b)) => a == b,
        _ => false,
    }
}

/// A raw input is potentially a phone number when its digit count is
/// plausible (seven to fifteen) and not every digit is zero.
pub open spec fn spec_potentially_valid(s: Seq<char>) -> bool {
    let d = digits_of(s);
    &&& d.len() >= 7
    &&& d.len() <= 15
    &&& exists|i: int| 0 <= i < d.len() && d[i] != '0'
}

/// Checks whether an input might be a valid number under different
/// formatting: a plausible digit count that is not all zeros.
pub fn is_potentially_valid_phone_number(phone_number: String) -> (r: bool)
    ensures
        r == spec_potentially_valid(phone_number@),
{
    let cs = to_chars(phone_number.as_str());
    let d = remove_non_digit_character(&cs);
    let n = d.len();
    if n < 7 || n > 15 {
        return false;
    }
    let mut i: usize = 0;
    while i < n
        invariant
            i <= n,
            7 <= n <= 15,
            n == d@.len(),
            d@ == digits_of(phone_number@),
            forall|j: int| 0 <= j < i ==> d@[j] == '0',
        decreases n - i,
    {
        if d[i] != '0' {
            proof {
                let k = i as int;
                assert(0 <= k && k < digits_of(phone_number@).len() && digits_of(
                    phone_number@,
                )[k] != '0');
            }
            return true;
        }
        i = i + 1;
    }
    false
}

/// The character check accepts a `'+'` followed by digits only.
proof fn lemma_gate_digits_from(t: Seq<char>, i: int)
    requires
        0 <= i <= t.len(),
        forall|j: int| i <= j < t.len() ==> is_phone_digit(#[trigger] t[j]),
    ensures
        gate_from(t, i, 0),
    decreases t.len() - i,
{
    if i < t.len() {
        lemma_gate_digits_from(t, i + 1);
    }
}

proof fn lemma_gate_plus_digits(t: Seq<char>)
    requires
        t.len() >= 1,
        t[0] == '+',
        forall|j: int| 1 <= j < t.len() ==> is_phone_digit(#[trigger] t[j]),
    ensures
        passes_gate(t),
{
    lemma_gate_digits_from(t, 1);
}

/// Normalization is idempotent for inputs whose national remainder carries
/// no trunk zero: re-normalizing a canonical form returns it unchanged.
/// (When the trunk-zero strip does remove digits, the shortened national
/// number need not be an accepted length any more, so idempotence is stated
/// with that case excluded.)
pub open spec fn no_trunk_zero_with(s: Seq<char>, reg: Seq<CountryModel>) -> bool {
    spec_normalize_with(s, reg) is Some ==> {
        let d = clean_digits(s);
        let i = spec_resolve(reg, d)->Some_0;
        let p = num_digits(reg[i].prefix as int);
        strip_zeros(d.skip(p)) == d.skip(p)
    }
}

pub open spec fn no_trunk_zero(s: Seq<char>) -> bool {
    no_trunk_zero_with(s, spec_countries())
}

/// Idempotence of normalization against any well-formed registry.
pub proof fn lemma_normalize_idempotent_with(s: Seq<char>, reg: Seq<CountryModel>)
    requires
        registry_wf(reg),
        spec_normalize_with(s, reg) is Some,
        no_trunk_zero_with(s, reg),
    ensures
        spec_normalize_with(spec_normalize_with(s, reg)->Some_0, reg) == spec_normalize_with(
            s,
            reg,
        ),
{
    let d = clean_digits(s);
    lemma_clean_digits_wf(s);
    lemma_resolve_props(reg, d);
    let i = spec_resolve(reg, d)->Some_0;
    let rule = reg[i];
    let prefix = rule.prefix as int;
    assert(country_wf(rule));
    let p = num_digits(prefix);
    lemma_num_digits_pos(prefix);
    assert(rule_matches(rule, d));
    let rep = digits_rep(prefix);
    lemma_digits_rep_wf(prefix);
    let natl = d.skip(p);
    assert(strip_zeros(natl) == natl);
    let body = rep + natl;
    let t = seq!['+'] + body;
    assert(t =~= seq!['+'] + rep + natl);
    assert(spec_normalize_with(s, reg) == Some(t));

    // the canonical form passes the character check: a plus sign, then digits
    assert(t[0] == '+');
    assert(all_digits(natl)) by {
        assert(forall|j: int| 0 <= j < natl.len() ==> natl[j] == d[#[trigger] (j + p)]);
    }
    assert(all_digits(body)) by {
        assert(forall|j: int|
            0 <= j < body.len() ==> #[trigger] body[j] == if j < rep.len() {
                rep[j]
            } else {
                natl[j - rep.len()]
            });
    }
    assert(forall|j: int| 1 <= j < t.len() ==> is_phone_digit(#[trigger] t[j])) by {
        assert(forall|j: int| 1 <= j < t.len() ==> t[j] == body[j - 1]);
    }
    lemma_gate_plus_digits(t);

    // the cleaned digits of the canonical form are the cleaned digits of s
    lemma_digits_of_add(seq!['+'], body);
    assert(digits_of(seq!['+']) =~= Seq::<char>::empty()) by {
        reveal_with_fuel(digits_of, 3);
        assert(seq!['+'].drop_last() =~= Seq::<char>::empty());
        assert(!is_phone_digit('+'));
    }
    lemma_digits_of_id(body);
    assert(digits_of(t) =~= body);
    assert(body[0] == rep[0]);
    assert(rep[0] != '0');
    lemma_strip_zeros_head(body);
    assert(clean_digits(t) == body);

    // the prefix digits of d are exactly the decimal form of the prefix
    assert(d.take(p).len() == p);
    assert(d[0] != '0');
    assert(d.take(p)[0] == d[0]);
    assert(all_digits(d.take(p))) by {
        assert(forall|j: int|
            0 <= j < p ==> is_phone_digit(#[trigger] d.take(p)[j]) == is_phone_digit(d[j]));
    }
    lemma_rep_of_value(d.take(p), prefix);
    assert(d.take(p) == rep);
    assert(body =~= d);

    // so resolution and reassembly repeat themselves
    assert(clean_digits(t) == d);
    assert(spec_normalize_with(t, reg) == Some(seq!['+'] + rep + strip_zeros(natl)));
    assert(spec_normalize_with(t, reg) == Some(t));
}

/// Idempotence of normalization: if a raw input normalizes and its national
/// remainder starts with no zero, normalizing the canonical form again
/// yields the same canonical form.
pub proof fn lemma_normalize_idempotent(s: Seq<char>)
    requires
        spec_normalize(s) is Some,
        no_trunk_zero(s),
    ensures
        spec_normalize(spec_normalize(s)->Some_0) == spec_normalize(s),
{
    lemma_countries_wf();
    lemma_normalize_idempotent_with(s, spec_countries());
}

/// Validity round-trip: an input is valid exactly when it normalizes, and
/// an input that fails the character check is never valid, whatever digits
/// it holds.
pub proof fn lemma_validity_round_trip(s: Seq<char>)
    ensures
        spec_is_valid(s) == (spec_normalize(s) is Some),
        !passes_gate(s) ==> !spec_is_valid(s),
{
}

/// Number equality is an equivalence relation on the valid inputs:
/// reflexive and symmetric (and transitive), while any pair with an invalid
/// side is unequal.
pub proof fn lemma_equality_equivalence(a: Seq<char>, b: Seq<char>, c: Seq<char>)
    ensures
        spec_is_valid(a) ==> spec_equal_numbers(a, a),
        spec_equal_numbers(a, b) == spec_equal_numbers(b, a),
        spec_equal_numbers(a, b) && spec_equal_numbers(b, c) ==> spec_equal_numbers(a, c),
        !spec_is_valid(a) || !spec_is_valid(b) ==> !spec_equal_numbers(a, b),
{
}

} // verus!
