//! Classification of national numbers into coarse types, keyed by the ISO
//! code of the resolved country. Countries without a dedicated table fall
//! back to a generic first-digit heuristic that is documented best-effort
//! behavior, not numbering-plan accuracy.

use vstd::prelude::*;
use crate::chars::str_eq;
use crate::chars::to_chars;
use crate::digits::num_digits;
use crate::filter::clean_digits;
use crate::filter::lemma_clean_digits_wf;
use crate::filter::remove_unwanted_character;
use crate::registry::Country;
use crate::registry::countries;
use crate::registry::lemma_countries_wf;
use crate::registry::spec_countries;
use crate::resolve::extract_country_data;
use crate::normalize::normalize_phone_number;
use crate::normalize::spec_normalize;
use crate::normalize::vec_suffix;
use crate::digits::count_digits;
use crate::digits::lemma_num_digits_le3;
use crate::registry::country_wf;
use crate::resolve::lemma_resolve_props;
use crate::resolve::spec_resolve;

verus! {

/// The coarse type of a phone number.
#[derive(Debug, Clone, Copy, PartialEq, Eq, Hash, Structural)]
pub enum PhoneNumberType {
    /// Mobile or cellular phone.
    Mobile,
    /// Fixed line (landline).
    FixedLine,
    /// Toll-free number.
    TollFree,
    /// Premium rate number.
    PremiumRate,
    /// Shared cost number.
    SharedCost,
    /// Voice over IP.
    Voip,
    /// Personal number.
    PersonalNumber,
    /// Pager.
    Pager,
    /// Universal access number.
    Uan,
    /// Emergency services.
    Emergency,
    /// Voicemail.
    Voicemail,
    /// Unknown type.
    Unknown,
}

/// North American numbering plan: toll-free and premium prefixes, then
/// fixed line for ten-digit numbers.
pub open spec fn spec_classify_nanp(n: Seq<char>) -> PhoneNumberType {
    if n.len() >= 3 && n[0] == '8' && n[2] == n[1] && (n[1] == '0' || n[1] == '3' || n[1] == '4'
        || n[1] == '5' || n[1] == '6' || n[1] == '7' || n[1] == '8') {
        PhoneNumberType::TollFree
    } else if n.len() >= 3 && n[0] == '9' && ((n[1] == '0' && n[2] == '0') || (n[1] == '7' && n[2]
        == '6')) {
        PhoneNumberType::PremiumRate
    } else if n.len() == 10 {
        PhoneNumberType::FixedLine
    } else {
        PhoneNumberType::Unknown
    }
}

/// British rules, examining the leading `0` of the national form.
pub open spec fn spec_classify_gb(n: Seq<char>) -> PhoneNumberType {
    if n.len() >= 2 && n[0] == '0' && n[1] == '7' {
        PhoneNumberType::Mobile
    } else if n.len() >= 2 && n[0] == '0' && n[1] == '8' {
        if n.len() >= 3 && (n[2] == '0' || n[2] == '4' || n[2] == '7') {
            PhoneNumberType::TollFree
        } else if n.len() >= 3 && (n[2] == '1' || n[2] == '2' || n[2] == '9') {
            PhoneNumberType::PremiumRate
        } else {
            PhoneNumberType::SharedCost
        }
    } else if n.len() >= 2 && n[0] == '0' && (n[1] == '1' || n[1] == '2') {
        PhoneNumberType::FixedLine
    } else if n.len() >= 2 && n[0] == '0' && n[1] == '3' {
        PhoneNumberType::Uan
    } else if n.len() >= 2 && n[0] == '0' && n[1] == '5' {
        PhoneNumberType::Voip
    } else {
        PhoneNumberType::Unknown
    }
}

/// German rules.
pub open spec fn spec_classify_de(n: Seq<char>) -> PhoneNumberType {
    if n[0] == '1' {
        if n.len() >= 2 && (n[1] == '5' || n[1] == '6' || n[1] == '7') {
            PhoneNumberType::Mobile
        } else if n.len() >= 2 && n[1] == '8' {
            PhoneNumberType::SharedCost
        } else if n.len() >= 2 && n[1] == '9' {
            PhoneNumberType::PremiumRate
        } else {
            PhoneNumberType::Unknown
        }
    } else if n[0] == '0' {
        PhoneNumberType::TollFree
    } else {
        PhoneNumberType::FixedLine
    }
}

/// French rules.
pub open spec fn spec_classify_fr(n: Seq<char>) -> PhoneNumberType {
    if n[0] == '6' || n[0] == '7' {
        PhoneNumberType::Mobile
    } else if n[0] == '8' {
        PhoneNumberType::TollFree
    } else if n[0] == '1' || n[0] == '2' || n[0] == '3' || n[0] == '4' || n[0] == '5' || n[0]
        == '9' {
        PhoneNumberType::FixedLine
    } else {
        PhoneNumberType::Unknown
    }
}

/// Australian rules.
pub open spec fn spec_classify_au(n: Seq<char>) -> PhoneNumberType {
    if n[0] == '4' {
        PhoneNumberType::Mobile
    } else if n[0] == '1' {
        if n.len() >= 3 && n[1] == '8' && (n[2] == '0' || n[2] == '8') {
            PhoneNumberType::TollFree
        } else if n.len() >= 3 && n[1] == '9' && n[2] == '0' {
            PhoneNumberType::PremiumRate
        } else {
            PhoneNumberType::Unknown
        }
    } else if n[0] == '2' || n[0] == '3' || n[0] == '7' || n[0] == '8' {
        PhoneNumberType::FixedLine
    } else {
        PhoneNumberType::Unknown
    }
}

/// Indian rules.
pub open spec fn spec_classify_in(n: Seq<char>) -> PhoneNumberType {
    if n[0] == '9' || n[0] == '8' || n[0] == '7' || n[0] == '6' {
        PhoneNumberType::Mobile
    } else if n[0] == '1' || n[0] == '2' || n[0] == '3' || n[0] == '4' || n[0] == '5' {
        PhoneNumberType::FixedLine
    } else {
        PhoneNumberType::Unknown
    }
}

/// The generic fallback for countries without a dedicated table: a very
/// basic first-digit heuristic.
pub open spec fn spec_classify_generic(n: Seq<char>) -> PhoneNumberType {
    if n[0] == '9' || n[0] == '8' || n[0] == '7' || n[0] == '6' {
        PhoneNumberType::Mobile
    } else if n[0] == '1' || n[0] == '2' || n[0] == '3' || n[0] == '4' || n[0] == '5' {
        PhoneNumberType::FixedLine
    } else if n[0] == '0' {
        PhoneNumberType::TollFree
    } else {
        PhoneNumberType::Unknown
    }
}

/// The per-country decision table: an empty national number is always
/// `Unknown`; otherwise the table of the resolved ISO code applies, or the
/// generic heuristic where none exists.
pub open spec fn spec_classify(n: Seq<char>, code: Seq<char>) -> PhoneNumberType {
    if n.len() == 0 {
        PhoneNumberType::Unknown
    } else if code == seq!['U', 'S'] || code == seq!['C', 'A'] {
        spec_classify_nanp(n)
    } else if code == seq!['G', 'B'] {
        spec_classify_gb(n)
    } else if code == seq!['D', 'E'] {
        spec_classify_de(n)
    } else if code == seq!['F', 'R'] {
        spec_classify_fr(n)
    } else if code == seq!['A', 'U'] {
        spec_classify_au(n)
    } else if code == seq!['I', 'N'] {
        spec_classify_in(n)
    } else {
        spec_classify_generic(n)
    }
}

/// Classifies a national number under a country's rules.
pub fn classify_phone_number_type(national: &Vec<char>, country: &Country) -> (t: PhoneNumberType)
    ensures
        t == spec_classify(national@, country.code@),
{
    proof {
        reveal_strlit("US");
        reveal_strlit("CA");
        reveal_strlit("GB");
        reveal_strlit("DE");
        reveal_strlit("FR");
        reveal_strlit("AU");
        reveal_strlit("IN");
        assert("US"@ =~= seq!['U', 'S']);
        assert("CA"@ =~= seq!['C', 'A']);
        assert("GB"@ =~= seq!['G', 'B']);
        assert("DE"@ =~= seq!['D', 'E']);
        assert("FR"@ =~= seq!['F', 'R']);
        assert("AU"@ =~= seq!['A', 'U']);
        assert("IN"@ =~= seq!['I', 'N']);
    }
    let n = national.len();
    if n == 0 {
        return PhoneNumberType::Unknown;
    }
    let d0 = national[0];
    if str_eq(country.code, "US") || str_eq(country.code, "CA") {
        if n >= 3 && d0 == '8' && national[2] == national[1] && (national[1] == '0' || national[1]
            == '3' || national[1] == '4' || national[1] == '5' || national[1] == '6' || national[1]
            == '7' || national[1] == '8') {
            PhoneNumberType::TollFree
        } else if n >= 3 && d0 == '9' && ((national[1] == '0' && national[2] == '0') || (
        national[1] == '7' && national[2] == '6')) {
            PhoneNumberType::PremiumRate
        } else if n == 10 {
            PhoneNumberType::FixedLine
        } else {
            PhoneNumberType::Unknown
        }
    } else if str_eq(country.code, "GB") {
        if n >= 2 && d0 == '0' && national[1] == '7' {
            PhoneNumberType::Mobile
        } else if n >= 2 && d0 == '0' && national[1] == '8' {
            if n >= 3 && (national[2] == '0' || national[2] == '4' || national[2] == '7') {
                PhoneNumberType::TollFree
            } else if n >= 3 && (national[2] == '1' || national[2] == '2' || national[2] == '9') {
                PhoneNumberType::PremiumRate
            } else {
                PhoneNumberType::SharedCost
            }
        } else if n >= 2 && d0 == '0' && (national[1] == '1' || national[1] == '2') {
            PhoneNumberType::FixedLine
        } else if n >= 2 && d0 == '0' && national[1] == '3' {
            PhoneNumberType::Uan
        } else if n >= 2 && d0 == '0' && national[1] == '5' {
            PhoneNumberType::Voip
        } else {
            PhoneNumberType::Unknown
        }
    } else if str_eq(country.code, "DE") {
        if d0 == '1' {
            if n >= 2 && (national[1] == '5' || national[1] == '6' || national[1] == '7') {
                PhoneNumberType::Mobile
            } else if n >= 2 && national[1] == '8' {
                PhoneNumberType::SharedCost
            } else if n >= 2 && national[1] == '9' {
                PhoneNumberType::PremiumRate
            } else {
                PhoneNumberType::Unknown
            }
        } else if d0 == '0' {
            PhoneNumberType::TollFree
        } else {
            PhoneNumberType::FixedLine
        }
    } else if str_eq(country.code, "FR") {
        if d0 == '6' || d0 == '7' {
            PhoneNumberType::Mobile
        } else if d0 == '8' {
            PhoneNumberType::TollFree
        } else if d0 == '1' || d0 == '2' || d0 == '3' || d0 == '4' || d0 == '5' || d0 == '9' {
            PhoneNumberType::FixedLine
        } else {
            PhoneNumberType::Unknown
        }
    } else if str_eq(country.code, "AU") {
        if d0 == '4' {
            PhoneNumberType::Mobile
        } else if d0 == '1' {
            if n >= 3 && national[1] == '8' && (national[2] == '0' || national[2] == '8') {
                PhoneNumberType::TollFree
            } else if n >= 3 && national[1] == '9' && national[2] == '0' {
                PhoneNumberType::PremiumRate
            } else {
                PhoneNumberType::Unknown
            }
        } else if d0 == '2' || d0 == '3' || d0 == '7' || d0 == '8' {
            PhoneNumberType::FixedLine
        } else {
            PhoneNumberType::Unknown
        }
    } else if str_eq(country.code, "IN") {
        if d0 == '9' || d0 == '8' || d0 == '7' || d0 == '6' {
            PhoneNumberType::Mobile
        } else if d0 == '1' || d0 == '2' || d0 == '3' || d0 == '4' || d0 == '5' {
            PhoneNumberType::FixedLine
        } else {
            PhoneNumberType::Unknown
        }
    } else {
        if d0 == '9' || d0 == '8' || d0 == '7' || d0 == '6' {
            PhoneNumberType::Mobile
        } else if d0 == '1' || d0 == '2' || d0 == '3' || d0 == '4' || d0 == '5' {
            PhoneNumberType::FixedLine
        } else if d0 == '0' {
            PhoneNumberType::TollFree
        } else {
            PhoneNumberType::Unknown
        }
    }
}

/// The type of a raw input: normalize it, resolve the country of the
/// canonical form again, and classify the national remainder under that
/// country's table.
pub open spec fn spec_detect(s: Seq<char>) -> Option<PhoneNumberType> {
    match spec_normalize(s) {
        None => None,
        Some(t) => {
            let d = clean_digits(t);
            match spec_resolve(spec_countries(), d) {
                None => None,
                Some(i) => Some(
                    spec_classify(
                        d.skip(num_digits(spec_countries()[i].prefix as int)),
                        spec_countries()[i].code,
                    ),
                ),
            }
        },
    }
}

/// Detects the coarse type of a phone number, or nothing when the input
/// does not normalize or its canonical form resolves to no country.
pub fn detect_phone_number_type(phone_number: String) -> (r: Option<PhoneNumberType>)
    ensures
        match r {
            Some(t) => spec_detect(phone_number@) == Some(t),
            None => spec_detect(phone_number@) is None,
        },
{
    let normalized = match normalize_phone_number(phone_number) {
        Some(t) => t,
        None => {
            return None;
        },
    };
    let cs = to_chars(normalized.as_str());
    let d = remove_unwanted_character(&cs);
    proof {
        lemma_clean_digits_wf(cs@);
        lemma_countries_wf();
    }
    let reg = countries();
    match extract_country_data(&reg, &d) {
        None => None,
        Some(i) => {
            let c = &reg[i];
            proof {
                lemma_resolve_props(spec_countries(), d@);
                assert(country_wf(spec_countries()[i as int]));
                lemma_num_digits_le3(c.prefix as int);
            }
            let p = count_digits(c.prefix);
            let national = vec_suffix(&d, p);
            Some(classify_phone_number_type(&national, c))
        },
    }
}

/// Whether a raw input is a mobile number.
pub fn is_mobile_number(phone_number: String) -> (r: bool)
    ensures
        r == (spec_detect(phone_number@) == Some(PhoneNumberType::Mobile)),
{
    match detect_phone_number_type(phone_number) {
        Some(t) => matches!(t, PhoneNumberType::Mobile),
        None => false,
    }
}

/// Whether a raw input is a landline number.
pub fn is_landline_number(phone_number: String) -> (r: bool)
    ensures
        r == (spec_detect(phone_number@) == Some(PhoneNumberType::FixedLine)),
{
    match detect_phone_number_type(phone_number) {
        Some(t) => matches!(t, PhoneNumberType::FixedLine),
        None => false,
    }
}

/// Whether a raw input is a toll-free number.
pub fn is_toll_free_number(phone_number: String) -> (r: bool)
    ensures
        r == (spec_detect(phone_number@) == Some(PhoneNumberType::TollFree)),
{
    match detect_phone_number_type(phone_number) {
        Some(t) => matches!(t, PhoneNumberType::TollFree),
        None => false,
    }
}

} // verus!
