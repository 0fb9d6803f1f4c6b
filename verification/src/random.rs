//! Test-data generation: pseudo-random phone numbers for a given country.
//! The generator itself is a pure, fully specified linear-congruential
//! walk from a seed; only the seed comes from the clock, and nothing is
//! assumed about its value.

use vstd::prelude::*;
use crate::chars::append_chars;
use crate::chars::digit_char;
use crate::chars::is_output_char;
use crate::chars::is_phone_digit;
use crate::chars::lemma_digit_char_val;
use crate::chars::push_output_char;
use crate::chars::str_eq;
use crate::chars::to_chars;
use crate::digits::digits_rep;
use crate::digits::lemma_digits_rep_wf;
use crate::registry::countries;
use crate::registry::spec_countries;
use crate::resolve::find_by_code;
use crate::resolve::spec_find_by_code;

verus! {

/// One step of the linear-congruential generator.
pub open spec fn lcg_next(seed: u64) -> u64 {
    vstd::wrapping::u64_specs::wrapping_add(
        vstd::wrapping::u64_specs::wrapping_mul(seed, 1103515245),
        12345,
    )
}

/// The digit drawn from a generator state.
pub open spec fn lcg_digit(seed: u64) -> int {
    ((seed / 65536) % 10) as int
}

/// `k` digits drawn from successive generator states after `seed`.
pub open spec fn gen_digits(seed: u64, k: int) -> Seq<char>
    decreases k,
{
    if k <= 0 {
        Seq::empty()
    } else {
        seq![digit_char(lcg_digit(lcg_next(seed)))] + gen_digits(lcg_next(seed), k - 1)
    }
}

/// Whether a random number can be generated for an ISO code: the code is in
/// the registry and its rule accepts at least one national length.
pub open spec fn spec_can_generate(code: Seq<char>) -> bool {
    match spec_find_by_code(spec_countries(), code) {
        Some(i) => spec_countries()[i].lengths.len() > 0,
        None => false,
    }
}

/// The number generated for an ISO code from a seed: the rule's first
/// accepted length of generated digits, with a leading zero replaced by one
/// for every country but Britain, behind the dialing prefix.
pub open spec fn spec_generate(code: Seq<char>, seed: u64) -> Option<Seq<char>> {
    match spec_find_by_code(spec_countries(), code) {
        None => None,
        Some(i) => {
            let rule = spec_countries()[i];
            if rule.lengths.len() == 0 {
                None
            } else {
                let raw = gen_digits(seed, rule.lengths[0] as int);
                let national = if raw.len() > 0 && raw[0] == '0' && code != seq!['G', 'B'] {
                    seq!['1'] + raw.skip(1)
                } else {
                    raw
                };
                Some(seq!['+'] + digits_rep(rule.prefix as int) + national)
            }
        },
    }
}

proof fn lemma_gen_digits_wf(seed: u64, k: int)
    ensures
        gen_digits(seed, k).len() == if k <= 0 {
            0
        } else {
            k
        },
        forall|i: int|
            0 <= i < gen_digits(seed, k).len() ==> is_phone_digit(#[trigger] gen_digits(seed, k)[i]),
    decreases k,
{
    if k > 0 {
        lemma_gen_digits_wf(lcg_next(seed), k - 1);
        lemma_digit_char_val(lcg_digit(lcg_next(seed)));
        let g = gen_digits(seed, k);
        let rest = gen_digits(lcg_next(seed), k - 1);
        assert(forall|i: int|
            1 <= i < g.len() ==> #[trigger] g[i] == rest[i - 1]);
    }
}

/// Generates the digits drawn from successive states after `seed`.
fn draw_digits(seed: u64, k: usize) -> (v: Vec<char>)
    ensures
        v@ == gen_digits(seed, k as int),
{
    let mut v: Vec<char> = Vec::new();
    let mut cur: u64 = seed;
    let mut i: usize = 0;
    while i < k
        invariant
            i <= k,
            v@ + gen_digits(cur, k - i) == gen_digits(seed, k as int),
            v@.len() == i,
        decreases k - i,
    {
        let ghost prev = cur;
        cur = cur.wrapping_mul(1103515245).wrapping_add(12345);
        let d: u64 = (cur / 65536) % 10;
        let c: char = ((48 + d) as u8) as char;
        proof {
            assert(cur == lcg_next(prev));
            assert(c == digit_char(lcg_digit(cur)));
            assert(gen_digits(prev, k - i) == seq![digit_char(lcg_digit(cur))] + gen_digits(
                cur,
                k - i - 1,
            ));
        }
        v.push(c);
        i = i + 1;
        proof {
            assert(v@ + gen_digits(cur, k - i) =~= gen_digits(seed, k as int));
        }
    }
    proof {
        assert(v@ =~= gen_digits(seed, k as int));
    }
    v
}

/// Generates the phone number an ISO code and seed determine: the country's
/// dialing prefix and a national number of the rule's first accepted
/// length, drawn from the seeded generator.
pub fn generate_phone_number_with_seed(country_code: &str, seed: u64) -> (r: Option<String>)
    ensures
        match r {
            Some(t) => spec_generate(country_code@, seed) == Some(t@),
            None => spec_generate(country_code@, seed) is None,
        },
        r is Some <==> spec_can_generate(country_code@),
{
    let reg = countries();
    let i = match find_by_code(&reg, country_code) {
        Some(i) => i,
        None => {
            return None;
        },
    };
    let c = &reg[i];
    proof {
        assert(spec_countries()[i as int] == reg@[i as int]@);
    }
    if c.phone_lengths.len() == 0 {
        return None;
    }
    let len = c.phone_lengths[0] as usize;
    let raw = draw_digits(seed, len);
    proof {
        lemma_gen_digits_wf(seed, len as int);
    }
    let gb = str_eq(country_code, "GB");
    proof {
        reveal_strlit("GB");
        assert("GB"@ =~= seq!['G', 'B']);
    }
    let national: Vec<char> = if raw.len() > 0 && raw[0] == '0' && !gb {
        let mut n2: Vec<char> = Vec::new();
        n2.push('1');
        let mut j: usize = 1;
        while j < raw.len()
            invariant
                1 <= j <= raw@.len(),
                n2@ == seq!['1'] + raw@.subrange(1, j as int),
            decreases raw@.len() - j,
        {
            n2.push(raw[j]);
            j = j + 1;
            proof {
                assert(n2@ =~= seq!['1'] + raw@.subrange(1, j as int));
            }
        }
        proof {
            assert(n2@ =~= seq!['1'] + raw@.skip(1));
        }
        n2
    } else {
        raw
    };
    proof {
        assert(forall|j: int| 0 <= j < national@.len() ==> is_output_char(#[trigger] national@[j]));
        lemma_digits_rep_wf(c.prefix as int);
    }
    let prefix_digits = crate::digits::u32_to_digits(c.prefix);
    proof {
        assert(forall|j: int|
            0 <= j < prefix_digits@.len() ==> is_output_char(#[trigger] prefix_digits@[j]));
    }
    let mut out = String::new();
    push_output_char(&mut out, '+');
    append_chars(&mut out, &prefix_digits, 0, prefix_digits.len());
    append_chars(&mut out, &national, 0, national.len());
    proof {
        assert(prefix_digits@.subrange(0, prefix_digits@.len() as int) =~= prefix_digits@);
        assert(national@.subrange(0, national@.len() as int) =~= national@);
        assert(out@ =~= spec_generate(country_code@, seed)->Some_0);
    }
    Some(out)
}

/// Relies on std::time::SystemTime::now for entropy: the current time seeds
/// the pseudo-random generator. Nothing is assumed of the returned value.
#[verifier::external_body]
fn nanos_now() -> u64 {
    match std::time::SystemTime::now().duration_since(std::time::UNIX_EPOCH) {
        Ok(d) => d.as_nanos() as u64,
        Err(_) => 0,
    }
}

/// Generates a random valid-shaped phone number for an ISO code, or
/// nothing when the code is not in the registry. Whatever the clock
/// returned, the result is the seeded generator's output for some seed.
pub fn generate_random_phone_number(country_code: &str) -> (r: Option<String>)
    ensures
        match r {
            Some(t) => exists|seed: u64| spec_generate(country_code@, seed) == Some(t@),
            None => !spec_can_generate(country_code@),
        },
        r is Some <==> spec_can_generate(country_code@),
{
    let seed = nanos_now();
    let r = generate_phone_number_with_seed(country_code, seed);
    proof {
        if r is Some {
            assert(spec_generate(country_code@, seed) == Some(r->Some_0@));
        }
    }
    r
}

/// The scramble of a number's last three digit positions from a seed.
pub open spec fn scramble_from(t: Seq<char>, i: int, seed: u64) -> Seq<char>
    decreases t.len() - i,
{
    if i < 0 || i >= t.len() {
        Seq::empty()
    } else if i >= t.len() - 3 && is_phone_digit(t[i]) {
        seq![digit_char(lcg_digit(lcg_next(seed)))] + scramble_from(t, i + 1, lcg_next(seed))
    } else {
        seq![t[i]] + scramble_from(t, i + 1, seed)
    }
}

pub open spec fn spec_scramble(t: Seq<char>, seed: u64) -> Seq<char> {
    scramble_from(t, 0, seed)
}

/// A string that some seeds would make the scrambling generator produce
/// for this ISO code.
pub open spec fn scrambled_shape(code: Seq<char>, t: Seq<char>) -> bool {
    exists|s1: u64, s2: u64| t == spec_scramble(spec_generate(code, s1)->Some_0, s2)
}

/// Replaces the digits among a number's last three characters with fresh
/// generator output.
fn scramble_rec(t: &Vec<char>, i: usize, seed: u64) -> (r: Vec<char>)
    requires
        i <= t@.len(),
    ensures
        r@ == scramble_from(t@, i as int, seed),
    decreases t@.len() - i,
{
    if i >= t.len() {
        let r: Vec<char> = Vec::new();
        proof {
            assert(r@ =~= scramble_from(t@, i as int, seed));
        }
        r
    } else {
        let c = t[i];
        if t.len() - i <= 3 && crate::chars::digit_check(c) {
            let cur = seed.wrapping_mul(1103515245).wrapping_add(12345);
            let d: u64 = (cur / 65536) % 10;
            let nc: char = ((48 + d) as u8) as char;
            proof {
                assert(cur == lcg_next(seed));
                assert(nc == digit_char(lcg_digit(cur)));
            }
            let rest = scramble_rec(t, i + 1, cur);
            let mut out: Vec<char> = Vec::new();
            out.push(nc);
            let out = push_all(out, &rest);
            proof {
                assert(out@ =~= scramble_from(t@, i as int, seed));
            }
            out
        } else {
            let rest = scramble_rec(t, i + 1, seed);
            let mut out: Vec<char> = Vec::new();
            out.push(c);
            let out = push_all(out, &rest);
            proof {
                assert(out@ =~= scramble_from(t@, i as int, seed));
            }
            out
        }
    }
}

/// Appends all characters of `b` to `a`.
fn push_all(a: Vec<char>, b: &Vec<char>) -> (r: Vec<char>)
    ensures
        r@ == a@ + b@,
{
    let mut r = a;
    let ghost a0 = r@;
    let mut i: usize = 0;
    let n = b.len();
    while i < n
        invariant
            i <= n,
            n == b@.len(),
            r@ == a0 + b@.subrange(0, i as int),
        decreases n - i,
    {
        r.push(b[i]);
        i = i + 1;
        proof {
            assert(r@ =~= a0 + b@.subrange(0, i as int));
        }
    }
    proof {
        assert(r@ =~= a0 + b@);
    }
    r
}

fn scramble_tail(t: &Vec<char>, seed: u64) -> (r: Vec<char>)
    requires
        forall|i: int| 0 <= i < t@.len() ==> is_output_char(#[trigger] t@[i]),
    ensures
        r@ == spec_scramble(t@, seed),
        forall|i: int| 0 <= i < r@.len() ==> is_output_char(#[trigger] r@[i]),
{
    let r = scramble_rec(t, 0, seed);
    proof {
        lemma_scramble_chars(t@, 0, seed);
    }
    r
}

/// Scrambling output-alphabet characters yields output-alphabet characters.
proof fn lemma_scramble_chars(t: Seq<char>, i: int, seed: u64)
    requires
        forall|j: int| 0 <= j < t.len() ==> is_output_char(#[trigger] t[j]),
        0 <= i,
    ensures
        forall|j: int|
            0 <= j < scramble_from(t, i, seed).len() ==> is_output_char(
                #[trigger] scramble_from(t, i, seed)[j],
            ),
    decreases t.len() - i,
{
    if i < t.len() {
        let g = scramble_from(t, i, seed);
        if i >= t.len() - 3 && is_phone_digit(t[i]) {
            lemma_scramble_chars(t, i + 1, lcg_next(seed));
            let rest = scramble_from(t, i + 1, lcg_next(seed));
            lemma_digit_char_val(lcg_digit(lcg_next(seed)));
            assert(forall|j: int| 1 <= j < g.len() ==> #[trigger] g[j] == rest[j - 1]);
        } else {
            lemma_scramble_chars(t, i + 1, seed);
            let rest = scramble_from(t, i + 1, seed);
            assert(forall|j: int| 1 <= j < g.len() ==> #[trigger] g[j] == rest[j - 1]);
        }
    }
}

/// Generates several random phone numbers for an ISO code: one per count
/// when the code is known, each a seeded generation with its last digits
/// scrambled by a second seed; an unknown code yields an empty list.
#[verifier::rlimit(40)]
pub fn generate_random_phone_numbers(country_code: &str, count: usize) -> (r: Vec<String>)
    ensures
        r@.len() == if spec_can_generate(country_code@) {
            count as int
        } else {
            0
        },
        forall|i: int| 0 <= i < r@.len() ==> scrambled_shape(country_code@, #[trigger] r@[i]@),
{
    let mut numbers: Vec<String> = Vec::new();
    let mut i: usize = 0;
    while i < count
        invariant
            i <= count,
            r_len_ok(numbers@, country_code@, i as int),
            forall|k: int|
                0 <= k < numbers@.len() ==> scrambled_shape(country_code@, #[trigger] numbers@[k]@),
        decreases count - i,
    {
        let seed = nanos_now();
        if let Some(number) = generate_phone_number_with_seed(country_code, seed) {
            let extra = nanos_now().wrapping_add((i as u64).wrapping_mul(1000));
            let cs = to_chars(number.as_str());
            proof {
                lemma_generated_chars(country_code@, seed);
                assert(cs@ == spec_generate(country_code@, seed)->Some_0);
            }
            let scrambled = scramble_tail(&cs, extra);
            let out = crate::chars::chars_to_string(&scrambled);
            proof {
                assert(out@ == spec_scramble(spec_generate(country_code@, seed)->Some_0, extra));
                assert(scrambled_shape(country_code@, out@));
            }
            numbers.push(out);
        }
        i = i + 1;
    }
    numbers
}

/// The length bookkeeping of the batch generator.
pub open spec fn r_len_ok(r: Seq<String>, code: Seq<char>, i: int) -> bool {
    r.len() == if spec_can_generate(code) {
        i
    } else {
        0
    }
}

/// Every character of a generated number is a plus sign or a digit.
#[verifier::rlimit(60)]
proof fn lemma_generated_chars(code: Seq<char>, seed: u64)
    requires
        spec_generate(code, seed) is Some,
    ensures
        forall|i: int|
            0 <= i < spec_generate(code, seed)->Some_0.len() ==> is_output_char(
                #[trigger] spec_generate(code, seed)->Some_0[i],
            ),
{
    let i = spec_find_by_code(spec_countries(), code)->Some_0;
    let rule = spec_countries()[i];
    let raw = gen_digits(seed, rule.lengths[0] as int);
    lemma_gen_digits_wf(seed, rule.lengths[0] as int);
    lemma_digits_rep_wf(rule.prefix as int);
    let national = if raw.len() > 0 && raw[0] == '0' && code != seq!['G', 'B'] {
        seq!['1'] + raw.skip(1)
    } else {
        raw
    };
    assert(forall|j: int| 0 <= j < national.len() ==> is_output_char(#[trigger] national[j])) by {
        if raw.len() > 0 && raw[0] == '0' && code != seq!['G', 'B'] {
            assert(forall|j: int|
                1 <= j < national.len() ==> #[trigger] national[j] == raw[j]);
        }
    }
    let t = spec_generate(code, seed)->Some_0;
    let rep = digits_rep(rule.prefix as int);
    assert(t == seq!['+'] + rep + national);
    assert(forall|j: int|
        0 <= j < t.len() ==> #[trigger] t[j] == if j == 0 {
            '+'
        } else if j < 1 + rep.len() {
            rep[j - 1]
        } else {
            national[j - 1 - rep.len()]
        });
}

} // verus!
