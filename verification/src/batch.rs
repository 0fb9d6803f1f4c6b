//! Batch operations: element-wise application of validation, normalization,
//! country extraction and type detection, plus grouping of equivalent
//! numbers. A batch never fails as a whole: every element gets its own
//! result and the output always has one entry per input, in input order.

use vstd::prelude::*;
use crate::classify::PhoneNumberType;
use crate::classify::detect_phone_number_type;
use crate::classify::spec_detect;
use crate::normalize::are_phone_numbers_equal;
use crate::normalize::is_valid_phone_number;
use crate::normalize::normalize_phone_number;
use crate::normalize::spec_equal_numbers;
use crate::normalize::spec_is_valid;
use crate::normalize::spec_normalize;
use crate::registry::Country;
use crate::resolve::extract_country;
use crate::resolve::spec_extract_country;

verus! {

/// The views of a sequence of strings.
pub open spec fn strings_view(s: Seq<String>) -> Seq<Seq<char>> {
    s.map_values(|x: String| x@)
}

/// Validates each number of a batch; results are in input order.
pub fn validate_phone_numbers_batch(phone_numbers: Vec<String>) -> (r: Vec<bool>)
    ensures
        r@.len() == phone_numbers@.len(),
        forall|i: int| 0 <= i < r@.len() ==> r@[i] == spec_is_valid(phone_numbers@[i]@),
{
    let n = phone_numbers.len();
    let mut r: Vec<bool> = Vec::new();
    let mut i: usize = 0;
    while i < n
        invariant
            i <= n,
            n == phone_numbers@.len(),
            r@.len() == i,
            forall|j: int| 0 <= j < i ==> r@[j] == spec_is_valid(phone_numbers@[j]@),
        decreases n - i,
    {
        let s = phone_numbers[i].clone();
        r.push(is_valid_phone_number(s));
        i = i + 1;
    }
    r
}

/// Normalizes each number of a batch; invalid elements yield nothing.
pub fn normalize_phone_numbers_batch(phone_numbers: Vec<String>) -> (r: Vec<Option<String>>)
    ensures
        r@.len() == phone_numbers@.len(),
        forall|i: int|
            0 <= i < r@.len() ==> match #[trigger] r@[i] {
                Some(t) => spec_normalize(phone_numbers@[i]@) == Some(t@),
                None => spec_normalize(phone_numbers@[i]@) is None,
            },
{
    let n = phone_numbers.len();
    let mut r: Vec<Option<String>> = Vec::new();
    let mut i: usize = 0;
    while i < n
        invariant
            i <= n,
            n == phone_numbers@.len(),
            r@.len() == i,
            forall|j: int|
                0 <= j < i ==> match #[trigger] r@[j] {
                    Some(t) => spec_normalize(phone_numbers@[j]@) == Some(t@),
                    None => spec_normalize(phone_numbers@[j]@) is None,
                },
        decreases n - i,
    {
        let s = phone_numbers[i].clone();
        r.push(normalize_phone_number(s));
        i = i + 1;
    }
    r
}

/// Resolves the country of each number of a batch.
pub fn extract_countries_batch(phone_numbers: Vec<String>) -> (r: Vec<Option<Country>>)
    ensures
        r@.len() == phone_numbers@.len(),
        forall|i: int|
            0 <= i < r@.len() ==> match #[trigger] r@[i] {
                Some(c) => spec_extract_country(phone_numbers@[i]@) == Some(c@),
                None => spec_extract_country(phone_numbers@[i]@) is None,
            },
{
    let n = phone_numbers.len();
    let mut r: Vec<Option<Country>> = Vec::new();
    let mut i: usize = 0;
    while i < n
        invariant
            i <= n,
            n == phone_numbers@.len(),
            r@.len() == i,
            forall|j: int|
                0 <= j < i ==> match #[trigger] r@[j] {
                    Some(c) => spec_extract_country(phone_numbers@[j]@) == Some(c@),
                    None => spec_extract_country(phone_numbers@[j]@) is None,
                },
        decreases n - i,
    {
        let s = phone_numbers[i].clone();
        r.push(extract_country(s));
        i = i + 1;
    }
    r
}

/// Detects the type of each number of a batch.
pub fn detect_phone_number_types_batch(phone_numbers: Vec<String>) -> (r: Vec<
    Option<PhoneNumberType>,
>)
    ensures
        r@.len() == phone_numbers@.len(),
        forall|i: int|
            0 <= i < r@.len() ==> match #[trigger] r@[i] {
                Some(t) => spec_detect(phone_numbers@[i]@) == Some(t),
                None => spec_detect(phone_numbers@[i]@) is None,
            },
{
    let n = phone_numbers.len();
    let mut r: Vec<Option<PhoneNumberType>> = Vec::new();
    let mut i: usize = 0;
    while i < n
        invariant
            i <= n,
            n == phone_numbers@.len(),
            r@.len() == i,
            forall|j: int|
                0 <= j < i ==> match #[trigger] r@[j] {
                    Some(t) => spec_detect(phone_numbers@[j]@) == Some(t),
                    None => spec_detect(phone_numbers@[j]@) is None,
                },
        decreases n - i,
    {
        let s = phone_numbers[i].clone();
        r.push(detect_phone_number_type(s));
        i = i + 1;
    }
    r
}

/// Everything the library can say about one number.
#[derive(Debug, Clone)]
pub struct PhoneNumberAnalysis {
    pub original: String,
    pub is_valid: bool,
    pub normalized: Option<String>,
    pub country: Option<Country>,
    pub phone_type: Option<PhoneNumberType>,
}

/// A correct analysis of one raw input.
pub open spec fn spec_analysis_ok(a: PhoneNumberAnalysis, s: Seq<char>) -> bool {
    &&& a.original@ == s
    &&& a.is_valid == spec_is_valid(s)
    &&& match a.normalized {
        Some(t) => spec_normalize(s) == Some(t@),
        None => spec_normalize(s) is None,
    }
    &&& match a.country {
        Some(c) => spec_extract_country(s) == Some(c@),
        None => spec_extract_country(s) is None,
    }
    &&& match a.phone_type {
        Some(t) => spec_detect(s) == Some(t),
        None => spec_detect(s) is None,
    }
}

/// Analyzes each number of a batch: validity, canonical form, country and
/// type, all pinned to the element-wise specifications.
pub fn analyze_phone_numbers_batch(phone_numbers: Vec<String>) -> (r: Vec<PhoneNumberAnalysis>)
    ensures
        r@.len() == phone_numbers@.len(),
        forall|i: int| 0 <= i < r@.len() ==> spec_analysis_ok(#[trigger] r@[i], phone_numbers@[i]@),
{
    let n = phone_numbers.len();
    let mut r: Vec<PhoneNumberAnalysis> = Vec::new();
    let mut i: usize = 0;
    while i < n
        invariant
            i <= n,
            n == phone_numbers@.len(),
            r@.len() == i,
            forall|j: int|
                0 <= j < i ==> spec_analysis_ok(#[trigger] r@[j], phone_numbers@[j]@),
        decreases n - i,
    {
        let number = phone_numbers[i].clone();
        let is_valid = is_valid_phone_number(number.clone());
        let normalized = normalize_phone_number(number.clone());
        let country = extract_country(number.clone());
        let phone_type = detect_phone_number_type(number.clone());
        r.push(
            PhoneNumberAnalysis { original: number, is_valid, normalized, country, phone_type },
        );
        i = i + 1;
    }
    r
}

/// The views of a group list.
pub open spec fn groups_view(g: Seq<Vec<String>>) -> Seq<Seq<Seq<char>>> {
    g.map_values(|v: Vec<String>| strings_view(v@))
}

/// The first group whose representative (its first member) equals `x`.
pub open spec fn first_equal_group(groups: Seq<Seq<Seq<char>>>, x: Seq<char>, i: int) -> Option<
    int,
>
    decreases groups.len() - i,
{
    if i < 0 || i >= groups.len() {
        None
    } else if groups[i].len() > 0 && spec_equal_numbers(x, groups[i][0]) {
        Some(i)
    } else {
        first_equal_group(groups, x, i + 1)
    }
}

/// Adding one number to a group list: it joins the first group whose
/// representative it equals, or founds a new group of its own.
pub open spec fn spec_add_to_groups(groups: Seq<Seq<Seq<char>>>, x: Seq<char>) -> Seq<
    Seq<Seq<char>>,
> {
    match first_equal_group(groups, x, 0) {
        Some(j) => groups.update(j, groups[j].push(x)),
        None => groups.push(seq![x]),
    }
}

pub open spec fn spec_groups_from(
    inputs: Seq<Seq<char>>,
    i: int,
    acc: Seq<Seq<Seq<char>>>,
) -> Seq<Seq<Seq<char>>>
    decreases inputs.len() - i,
{
    if i < 0 || i >= inputs.len() {
        acc
    } else {
        spec_groups_from(inputs, i + 1, spec_add_to_groups(acc, inputs[i]))
    }
}

/// Grouping a list of numbers by equivalence, in order of first occurrence.
pub open spec fn spec_group_numbers(inputs: Seq<Seq<char>>) -> Seq<Seq<Seq<char>>> {
    spec_groups_from(inputs, 0, Seq::empty())
}

/// Groups equivalent phone numbers: each input joins the first existing
/// group whose representative normalizes to the same canonical form, or
/// opens a new group; group order follows first occurrence.
pub fn group_equivalent_phone_numbers(phone_numbers: Vec<String>) -> (groups: Vec<Vec<String>>)
    ensures
        groups_view(groups@) == spec_group_numbers(strings_view(phone_numbers@)),
{
    let ghost inputs = strings_view(phone_numbers@);
    let n = phone_numbers.len();
    let mut groups: Vec<Vec<String>> = Vec::new();
    let mut i: usize = 0;
    proof {
        assert(groups_view(groups@) =~= Seq::<Seq<Seq<char>>>::empty());
    }
    while i < n
        invariant
            i <= n,
            n == phone_numbers@.len(),
            inputs == strings_view(phone_numbers@),
            forall|k: int| 0 <= k < groups@.len() ==> #[trigger] groups@[k]@.len() > 0,
            spec_groups_from(inputs, i as int, groups_view(groups@)) == spec_group_numbers(inputs),
        decreases n - i,
    {
        let number = phone_numbers[i].clone();
        let ghost gv = groups_view(groups@);
        let m = groups.len();
        let mut j: usize = 0;
        let mut found: Option<usize> = None;
        while j < m && found.is_none()
            invariant
                j <= m,
                m == groups@.len(),
                gv == groups_view(groups@),
                number@ == inputs[i as int],
                i < n,
                n == phone_numbers@.len(),
                inputs == strings_view(phone_numbers@),
                forall|k: int| 0 <= k < groups@.len() ==> #[trigger] groups@[k]@.len() > 0,
                match found {
                    Some(f) => f < m && first_equal_group(gv, number@, 0) == Some(f as int),
                    None => first_equal_group(gv, number@, 0) == first_equal_group(
                        gv,
                        number@,
                        j as int,
                    ),
                },
            decreases m - j + (if found is None { 1int } else { 0int }),
        {
            let representative = groups[j][0].clone();
            proof {
                assert(gv[j as int] == strings_view(groups@[j as int]@));
                assert(gv[j as int][0] == representative@);
            }
            if are_phone_numbers_equal(number.clone(), representative) {
                found = Some(j);
            } else {
                j = j + 1;
            }
        }
        match found {
            Some(f) => {
                let mut grp = groups.remove(f);
                grp.push(number);
                groups.insert(f, grp);
                proof {
                    assert(groups_view(groups@) =~~= spec_add_to_groups(gv, inputs[i as int]));
                }
            },
            None => {
                proof {
                    assert(first_equal_group(gv, number@, 0) is None);
                }
                let mut grp: Vec<String> = Vec::new();
                grp.push(number);
                groups.push(grp);
                proof {
                    assert(groups_view(groups@) =~~= spec_add_to_groups(gv, inputs[i as int]));
                }
            },
        }
        i = i + 1;
    }
    groups
}

} // verus!
