//! Correction suggestions for invalid numbers: candidate forms built from a
//! country hint (or a fixed list of common countries), sorted, without
//! duplicates, and capped at five suggestions.

use vstd::prelude::*;
use vstd::string::StrSliceExecFns;
use crate::batch::strings_view;
use crate::chars::append_chars;
use crate::chars::is_output_char;
use crate::chars::digit_char;
use crate::chars::lemma_digit_char_val;
use crate::chars::push_output_char;
use crate::chars::to_chars;
use crate::digits::all_digits;
use crate::digits::digits_rep;
use crate::digits::lemma_digits_rep_wf;
use crate::filter::digits_of;
use crate::filter::lemma_digits_of_all;
use crate::filter::remove_non_digit_character;
use crate::normalize::is_valid_phone_number;
use crate::normalize::spec_is_valid;
use crate::registry::Country;
use crate::registry::countries;
use crate::registry::registry_view;
use crate::registry::spec_countries;
use crate::resolve::find_by_code;
use crate::resolve::spec_find_by_code;

verus! {

/// A candidate form: a plus sign, a dialing prefix, and digits.
pub open spec fn plus_prefix(prefix: int, digits: Seq<char>) -> Seq<char> {
    seq!['+'] + digits_rep(prefix) + digits
}

/// The candidate the hinted country contributes: its prefix before the
/// cleaned digits, kept only when the result is valid.
pub open spec fn hint_candidates(cleaned: Seq<char>, code: Seq<char>) -> Seq<Seq<char>> {
    match spec_find_by_code(spec_countries(), code) {
        None => Seq::empty(),
        Some(i) => {
            let cand = plus_prefix(spec_countries()[i].prefix as int, cleaned);
            if spec_is_valid(cand) {
                seq![cand]
            } else {
                Seq::empty()
            }
        },
    }
}

/// The candidates the fixed list of common countries contributes.
pub open spec fn common_candidates(cleaned: Seq<char>) -> Seq<Seq<char>> {
    hint_candidates(cleaned, seq!['U', 'S']) + hint_candidates(cleaned, seq!['G', 'B'])
        + hint_candidates(cleaned, seq!['D', 'E']) + hint_candidates(cleaned, seq!['F', 'R'])
        + hint_candidates(cleaned, seq!['I', 'N']) + hint_candidates(cleaned, seq!['A', 'U'])
        + hint_candidates(cleaned, seq!['C', 'A'])
}

/// Dropping leading digits of an over-long number: the first shortening
/// that validates wins.
pub open spec fn shorten_from(cleaned: Seq<char>, prefix: int, i: int) -> Seq<Seq<char>>
    decreases cleaned.len() - i,
{
    if i < 1 || i > cleaned.len() - 7 {
        Seq::empty()
    } else {
        let cand = plus_prefix(prefix, cleaned.skip(i));
        if spec_is_valid(cand) {
            seq![cand]
        } else {
            shorten_from(cleaned, prefix, i + 1)
        }
    }
}

/// Prepending one digit to an under-long number: every digit that makes
/// the result valid contributes.
pub open spec fn extend_from(cleaned: Seq<char>, prefix: int, d: int) -> Seq<Seq<char>>
    decreases 10 - d,
{
    if d < 0 || d > 9 {
        Seq::empty()
    } else {
        let cand = plus_prefix(prefix, seq![digit_char(d)] + cleaned);
        let rest = extend_from(cleaned, prefix, d + 1);
        if spec_is_valid(cand) {
            seq![cand] + rest
        } else {
            rest
        }
    }
}

pub open spec fn shorten_candidates(cleaned: Seq<char>, hint: Option<Seq<char>>) -> Seq<
    Seq<char>,
> {
    if cleaned.len() > 15 {
        match hint {
            Some(code) => match spec_find_by_code(spec_countries(), code) {
                Some(i) => shorten_from(cleaned, spec_countries()[i].prefix as int, 1),
                None => Seq::empty(),
            },
            None => Seq::empty(),
        }
    } else {
        Seq::empty()
    }
}

pub open spec fn extend_candidates(cleaned: Seq<char>, hint: Option<Seq<char>>) -> Seq<Seq<char>> {
    if cleaned.len() < 10 {
        match hint {
            Some(code) => match spec_find_by_code(spec_countries(), code) {
                Some(i) => extend_from(cleaned, spec_countries()[i].prefix as int, 0),
                None => Seq::empty(),
            },
            None => Seq::empty(),
        }
    } else {
        Seq::empty()
    }
}

/// All candidate suggestions, in generation order, before sorting.
pub open spec fn suggestion_pool(s: Seq<char>, hint: Option<Seq<char>>) -> Seq<Seq<char>> {
    let cleaned = digits_of(s);
    let base = match hint {
        Some(code) => hint_candidates(cleaned, code),
        None => common_candidates(cleaned),
    };
    base + shorten_candidates(cleaned, hint) + extend_candidates(cleaned, hint)
}

/// Lexicographic order on character sequences, compared from position `i`.
pub open spec fn lex_le_from(a: Seq<char>, b: Seq<char>, i: int) -> bool
    decreases a.len() - i,
{
    if i < 0 || i >= a.len() {
        true
    } else if i >= b.len() {
        false
    } else if (a[i] as u32) < (b[i] as u32) {
        true
    } else if (a[i] as u32) > (b[i] as u32) {
        false
    } else {
        lex_le_from(a, b, i + 1)
    }
}

pub open spec fn lex_le(a: Seq<char>, b: Seq<char>) -> bool {
    lex_le_from(a, b, 0)
}

/// Insertion into a sorted list: before the first element it precedes.
pub open spec fn insert_sorted(x: Seq<char>, l: Seq<Seq<char>>) -> Seq<Seq<char>>
    decreases l.len(),
{
    if l.len() == 0 {
        seq![x]
    } else if lex_le(x, l[0]) {
        seq![x] + l
    } else {
        seq![l[0]] + insert_sorted(x, l.drop_first())
    }
}

/// Insertion sort, taking the pool from the left into an accumulator.
pub open spec fn sort_from(l: Seq<Seq<char>>, i: int, acc: Seq<Seq<char>>) -> Seq<Seq<char>>
    decreases l.len() - i,
{
    if i < 0 || i >= l.len() {
        acc
    } else {
        sort_from(l, i + 1, insert_sorted(l[i], acc))
    }
}

pub open spec fn spec_sort(l: Seq<Seq<char>>) -> Seq<Seq<char>> {
    sort_from(l, 0, Seq::empty())
}

/// Removal of adjacent duplicates.
pub open spec fn dedup_from(l: Seq<Seq<char>>, i: int) -> Seq<Seq<char>>
    decreases l.len() - i,
{
    if i < 0 || i >= l.len() {
        Seq::empty()
    } else if i + 1 < l.len() && l[i] == l[i + 1] {
        dedup_from(l, i + 1)
    } else {
        seq![l[i]] + dedup_from(l, i + 1)
    }
}

pub open spec fn spec_dedup(l: Seq<Seq<char>>) -> Seq<Seq<char>> {
    dedup_from(l, 0)
}

/// At most five suggestions are kept.
pub open spec fn spec_cap(l: Seq<Seq<char>>) -> Seq<Seq<char>> {
    if l.len() <= 5 {
        l
    } else {
        l.take(5)
    }
}

/// What suggestion returns: a valid input is its own suggestion; an
/// invalid one gets the candidate pool, sorted, without duplicates, capped
/// at five.
pub open spec fn spec_suggest(s: Seq<char>, hint: Option<Seq<char>>) -> Seq<Seq<char>> {
    if spec_is_valid(s) {
        seq![s]
    } else {
        spec_cap(spec_dedup(spec_sort(suggestion_pool(s, hint))))
    }
}

/// Compares two strings lexicographically by code point (for these
/// suggestions, plain ASCII).
fn lex_le_check(a: &str, b: &str) -> (r: bool)
    ensures
        r == lex_le(a@, b@),
{
    let na = a.unicode_len();
    let nb = b.unicode_len();
    let mut i: usize = 0;
    loop
        invariant
            i <= na,
            na == a@.len(),
            nb == b@.len(),
            lex_le(a@, b@) == lex_le_from(a@, b@, i as int),
        decreases na - i,
    {
        if i >= na {
            return true;
        }
        if i >= nb {
            return false;
        }
        let ca = a.get_char(i) as u32;
        let cb = b.get_char(i) as u32;
        if ca < cb {
            return true;
        }
        if ca > cb {
            return false;
        }
        i = i + 1;
    }
}

/// Inserting before the first element the new string precedes realizes the
/// specification's insertion.
proof fn lemma_insert_at(l: Seq<Seq<char>>, x: Seq<char>, p: int)
    requires
        0 <= p <= l.len(),
        forall|j: int| 0 <= j < p ==> !lex_le(x, #[trigger] l[j]),
        p < l.len() ==> lex_le(x, l[p]),
    ensures
        insert_sorted(x, l) == l.take(p) + seq![x] + l.skip(p),
    decreases p,
{
    if l.len() == 0 {
        assert(insert_sorted(x, l) =~= l.take(p) + seq![x] + l.skip(p));
    } else if p == 0 {
        assert(l.take(0) =~= Seq::<Seq<char>>::empty());
        assert(l.skip(0) =~= l);
        assert(insert_sorted(x, l) =~= l.take(0) + seq![x] + l.skip(0));
    } else {
        let t = l.drop_first();
        assert(forall|j: int| 0 <= j < p - 1 ==> #[trigger] t[j] == l[j + 1]);
        lemma_insert_at(t, x, p - 1);
        assert(insert_sorted(x, l) == seq![l[0]] + insert_sorted(x, t));
        assert(seq![l[0]] + (t.take(p - 1) + seq![x] + t.skip(p - 1)) =~= l.take(p) + seq![x]
            + l.skip(p));
    }
}

/// Inserts a suggestion into a sorted vector.
fn insert_suggestion(v: &mut Vec<String>, x: String)
    ensures
        strings_view(final(v)@) == insert_sorted(x@, strings_view(old(v)@)),
{
    let ghost l = strings_view(old(v)@);
    let n = v.len();
    let mut p: usize = 0;
    loop
        invariant
            p <= n,
            n == v@.len(),
            v@ == old(v)@,
            l == strings_view(old(v)@),
            forall|j: int| 0 <= j < p ==> !lex_le(x@, #[trigger] l[j]),
        ensures
            p <= n,
            v@ == old(v)@,
            forall|j: int| 0 <= j < p ==> !lex_le(x@, #[trigger] l[j]),
            p < n ==> lex_le(x@, l[p as int]),
        decreases n - p,
    {
        if p >= n {
            break ;
        }
        if lex_le_check(x.as_str(), v[p].as_str()) {
            break ;
        }
        proof {
            assert(l[p as int] == v@[p as int]@);
        }
        p = p + 1;
    }
    proof {
        lemma_insert_at(l, x@, p as int);
    }
    v.insert(p, x);
    proof {
        assert(strings_view(v@) =~= l.take(p as int) + seq![x@] + l.skip(p as int));
    }
}

/// Builds the `'+'`-prefix-digits form of a candidate.
fn make_candidate(prefix: u32, digits: &Vec<char>) -> (r: String)
    requires
        all_digits(digits@),
    ensures
        r@ == plus_prefix(prefix as int, digits@),
{
    proof {
        lemma_digits_rep_wf(prefix as int);
    }
    let rep = crate::digits::u32_to_digits(prefix);
    let mut out = String::new();
    push_output_char(&mut out, '+');
    proof {
        assert(forall|j: int| 0 <= j < rep@.len() ==> is_output_char(#[trigger] rep@[j]));
        assert(forall|j: int| 0 <= j < digits@.len() ==> is_output_char(#[trigger] digits@[j]));
    }
    append_chars(&mut out, &rep, 0, rep.len());
    append_chars(&mut out, digits, 0, digits.len());
    proof {
        assert(rep@.subrange(0, rep@.len() as int) =~= rep@);
        assert(digits@.subrange(0, digits@.len() as int) =~= digits@);
        assert(out@ =~= plus_prefix(prefix as int, digits@));
    }
    out
}

/// Pushes the hinted country's candidate when it validates.
fn push_hint_candidate(reg: &Vec<Country>, cleaned: &Vec<char>, code: &str, out: &mut Vec<String>)
    requires
        all_digits(cleaned@),
        registry_view(reg@) == spec_countries(),
    ensures
        strings_view(final(out)@) == strings_view(old(out)@) + hint_candidates(cleaned@, code@),
{
    let ghost before = strings_view(old(out)@);
    match find_by_code(reg, code) {
        None => {
            proof {
                assert(strings_view(out@) =~= before + hint_candidates(cleaned@, code@));
            }
        },
        Some(i) => {
            proof {
                assert(spec_countries()[i as int] == reg@[i as int]@);
            }
            let cand = make_candidate(reg[i].prefix, cleaned);
            if is_valid_phone_number(cand.clone()) {
                out.push(cand);
                proof {
                    assert(strings_view(out@) =~= before + hint_candidates(cleaned@, code@));
                }
            } else {
                proof {
                    assert(strings_view(out@) =~= before + hint_candidates(cleaned@, code@));
                }
            }
        },
    }
}

/// Suggests corrections for an invalid phone number: candidate forms from
/// the hinted country (or a list of common ones), shortenings of over-long
/// and single-digit extensions of under-long digit strings, sorted and
/// capped at five. A valid input is returned as its own sole suggestion.
#[verifier::rlimit(60)]
pub fn suggest_phone_number_corrections(phone_number: String, country_hint: Option<&str>) -> (r:
    Vec<String>)
    ensures
        strings_view(r@) == spec_suggest(
            phone_number@,
            match country_hint {
                Some(h) => Some(h@),
                None => None,
            },
        ),
{
    let ghost s = phone_number@;
    let ghost hintv: Option<Seq<char>> = match country_hint {
        Some(h) => Some(h@),
        None => None,
    };
    if is_valid_phone_number(phone_number.clone()) {
        let mut r: Vec<String> = Vec::new();
        r.push(phone_number);
        proof {
            assert(strings_view(r@) =~= seq![s]);
        }
        return r;
    }
    let cs = to_chars(phone_number.as_str());
    let cleaned = remove_non_digit_character(&cs);
    proof {
        lemma_digits_of_all(cs@);
    }
    let reg = countries();
    let mut pool: Vec<String> = Vec::new();
    match country_hint {
        Some(hint) => {
            push_hint_candidate(&reg, &cleaned, hint, &mut pool);
        },
        None => {
            proof {
                reveal_strlit("US");
                reveal_strlit("GB");
                reveal_strlit("DE");
                reveal_strlit("FR");
                reveal_strlit("IN");
                reveal_strlit("AU");
                reveal_strlit("CA");
                assert("US"@ =~= seq!['U', 'S']);
                assert("GB"@ =~= seq!['G', 'B']);
                assert("DE"@ =~= seq!['D', 'E']);
                assert("FR"@ =~= seq!['F', 'R']);
                assert("IN"@ =~= seq!['I', 'N']);
                assert("AU"@ =~= seq!['A', 'U']);
                assert("CA"@ =~= seq!['C', 'A']);
            }
            push_hint_candidate(&reg, &cleaned, "US", &mut pool);
            push_hint_candidate(&reg, &cleaned, "GB", &mut pool);
            push_hint_candidate(&reg, &cleaned, "DE", &mut pool);
            push_hint_candidate(&reg, &cleaned, "FR", &mut pool);
            push_hint_candidate(&reg, &cleaned, "IN", &mut pool);
            push_hint_candidate(&reg, &cleaned, "AU", &mut pool);
            push_hint_candidate(&reg, &cleaned, "CA", &mut pool);
            proof {
                assert(strings_view(pool@) =~= common_candidates(cleaned@));
            }
        },
    }
    let ghost base = strings_view(pool@);
    // over-long numbers: drop leading digits until one form validates
    if cleaned.len() > 15 {
        if let Some(hint) = country_hint {
            if let Some(ci) = find_by_code(&reg, hint) {
                proof {
                    assert(spec_countries()[ci as int] == reg@[ci as int]@);
                }
                let prefix = reg[ci].prefix;
                let stop = cleaned.len() - 7;
                let mut i: usize = 1;
                let mut found: bool = false;
                while i <= stop && !found
                    invariant
                        1 <= i <= stop + 1,
                        stop <= usize::MAX - 7,
                        stop == cleaned@.len() - 7,
                        cleaned@.len() > 15,
                        all_digits(cleaned@),
                        registry_view(reg@) == spec_countries(),
                        !found ==> strings_view(pool@) == base + shorten_from(
                            cleaned@,
                            prefix as int,
                            i as int,
                        ).take(0) && shorten_from(cleaned@, prefix as int, 1) == shorten_from(
                            cleaned@,
                            prefix as int,
                            i as int,
                        ),
                        !found ==> strings_view(pool@) == base,
                        found ==> strings_view(pool@) == base + shorten_from(
                            cleaned@,
                            prefix as int,
                            1,
                        ),
                    decreases stop - i + (if found {
                        0int
                    } else {
                        1int
                    }),
                {
                    let shortened = crate::normalize::vec_suffix(&cleaned, i);
                    proof {
                        assert(all_digits(shortened@)) by {
                            assert(forall|j: int|
                                0 <= j < shortened@.len() ==> shortened@[j] == cleaned@[
                                    #[trigger] (j + i as int)
                                ]);
                        }
                    }
                    let cand = make_candidate(prefix, &shortened);
                    if is_valid_phone_number(cand.clone()) {
                        pool.push(cand);
                        found = true;
                        proof {
                            assert(strings_view(pool@) =~= base + shorten_from(
                                cleaned@,
                                prefix as int,
                                1,
                            ));
                        }
                    } else {
                        i = i + 1;
                    }
                }
                proof {
                    if !found {
                        assert(shorten_from(cleaned@, prefix as int, i as int)
                            =~= Seq::<Seq<char>>::empty());
                        assert(strings_view(pool@) =~= base + shorten_from(
                            cleaned@,
                            prefix as int,
                            1,
                        ));
                    }
                }
            }
        }
    }
    proof {
        assert(strings_view(pool@) =~= base + shorten_candidates(cleaned@, hintv));
    }
    let ghost with_short = strings_view(pool@);
    // under-long numbers: try each single leading digit
    if cleaned.len() < 10 {
        if let Some(hint) = country_hint {
            if let Some(ci) = find_by_code(&reg, hint) {
                proof {
                    assert(spec_countries()[ci as int] == reg@[ci as int]@);
                }
                let prefix = reg[ci].prefix;
                let mut d: u8 = 0;
                while d <= 9
                    invariant
                        d <= 10,
                        all_digits(cleaned@),
                        registry_view(reg@) == spec_countries(),
                        strings_view(pool@) + extend_from(cleaned@, prefix as int, d as int)
                            == with_short + extend_from(cleaned@, prefix as int, 0),
                    decreases 10 - d,
                {
                    let dc: char = ((48 + d) as u8) as char;
                    proof {
                        assert(dc == digit_char(d as int));
                        lemma_digit_char_val(d as int);
                    }
                    let mut extended: Vec<char> = Vec::new();
                    extended.push(dc);
                    let mut k: usize = 0;
                    let cn = cleaned.len();
                    while k < cn
                        invariant
                            k <= cn,
                            cn == cleaned@.len(),
                            extended@ == seq![digit_char(d as int)] + cleaned@.subrange(
                                0,
                                k as int,
                            ),
                        decreases cn - k,
                    {
                        extended.push(cleaned[k]);
                        k = k + 1;
                        proof {
                            assert(extended@ =~= seq![digit_char(d as int)] + cleaned@.subrange(
                                0,
                                k as int,
                            ));
                        }
                    }
                    proof {
                        assert(extended@ =~= seq![digit_char(d as int)] + cleaned@);
                        assert(all_digits(extended@)) by {
                            assert(forall|j: int|
                                1 <= j < extended@.len() ==> #[trigger] extended@[j] == cleaned@[j
                                    - 1]);
                        }
                    }
                    let cand = make_candidate(prefix, &extended);
                    if is_valid_phone_number(cand.clone()) {
                        pool.push(cand);
                    }
                    d = d + 1;
                    proof {
                        assert(strings_view(pool@) + extend_from(cleaned@, prefix as int, d as int)
                            =~= with_short + extend_from(cleaned@, prefix as int, 0));
                    }
                }
                proof {
                    assert(extend_from(cleaned@, prefix as int, 10) =~= Seq::<Seq<char>>::empty());
                    assert(strings_view(pool@) =~= with_short + extend_from(
                        cleaned@,
                        prefix as int,
                        0,
                    ));
                }
            }
        }
    }
    proof {
        assert(strings_view(pool@) =~= with_short + extend_candidates(cleaned@, hintv));
        assert(strings_view(pool@) =~= suggestion_pool(s, hintv));
    }
    // sort, drop duplicates, cap at five
    let ghost poolv = strings_view(pool@);
    let mut sorted: Vec<String> = Vec::new();
    let mut i: usize = 0;
    let pn = pool.len();
    while pool.len() > 0
        invariant
            i <= pn,
            pool@.len() == pn - i,
            pn == poolv.len(),
            forall|k: int| 0 <= k < pool@.len() ==> #[trigger] pool@[k]@ == poolv[k + i],
            sort_from(poolv, i as int, strings_view(sorted@)) == spec_sort(poolv),
        decreases pool@.len(),
    {
        let x = pool.remove(0);
        proof {
            assert(x@ == poolv[i as int]);
        }
        insert_suggestion(&mut sorted, x);
        i = i + 1;
        proof {
            assert(forall|k: int| 0 <= k < pool@.len() ==> #[trigger] pool@[k]@ == poolv[k + i]);
        }
    }
    proof {
        assert(strings_view(sorted@) == spec_sort(poolv));
    }
    let ghost sortedv = strings_view(sorted@);
    let mut deduped: Vec<String> = Vec::new();
    let sn = sorted.len();
    let mut j: usize = 0;
    while sorted.len() > 0
        invariant
            j <= sn,
            sorted@.len() == sn - j,
            sn == sortedv.len(),
            forall|k: int| 0 <= k < sorted@.len() ==> #[trigger] sorted@[k]@ == sortedv[k + j],
            strings_view(deduped@) + dedup_from(sortedv, j as int) == spec_dedup(sortedv),
        decreases sorted@.len(),
    {
        let x = sorted.remove(0);
        proof {
            assert(x@ == sortedv[j as int]);
        }
        if sorted.len() > 0 {
            proof {
                assert(sorted@[0]@ == sortedv[j + 1]);
            }
            if x == sorted[0] {
                proof {
                    assert(x@ == sortedv[j + 1]);
                }
            } else {
                deduped.push(x);
            }
        } else {
            deduped.push(x);
        }
        j = j + 1;
        proof {
            assert(forall|k: int|
                0 <= k < sorted@.len() ==> #[trigger] sorted@[k]@ == sortedv[k + j]);
            assert(strings_view(deduped@) + dedup_from(sortedv, j as int) =~= spec_dedup(sortedv));
        }
    }
    proof {
        assert(strings_view(deduped@) =~= spec_dedup(sortedv));
    }
    let ghost dd = strings_view(deduped@);
    if deduped.len() > 5 {
        deduped.truncate(5);
        proof {
            assert(strings_view(deduped@) =~= spec_cap(dd));
        }
    } else {
        proof {
            assert(strings_view(deduped@) =~= spec_cap(dd));
        }
    }
    deduped
}

} // verus!
