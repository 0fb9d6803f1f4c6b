//! The country registry: an immutable, ordered table of country dialing
//! rules. Table order is an externally observable part of behavior: when two
//! rules could both match a digit string, the first one in table order wins.

use vstd::prelude::*;

verus! {

/// One country dialing rule: a display name, an ISO code (not necessarily
/// unique in the table), the accepted digit-counts of a national number once
/// the dialing prefix is removed, and the dialing prefix itself.
#[derive(Debug, PartialEq, Eq, Hash)]
pub struct Country {
    pub name: &'static str,
    pub code: &'static str,
    pub phone_lengths: Vec<u8>,
    pub prefix: u32,
}

/// The mathematical model of a country rule: its ISO code as a character
/// sequence, its dialing prefix, and its accepted national-number lengths.
#[verifier::ext_equal]
pub struct CountryModel {
    pub code: Seq<char>,
    pub prefix: u32,
    pub lengths: Seq<u8>,
}

impl View for Country {
    type V = CountryModel;

    open spec fn view(&self) -> CountryModel {
        CountryModel { code: self.code@, prefix: self.prefix, lengths: self.phone_lengths@ }
    }
}

impl Clone for Country {
    fn clone(&self) -> (r: Self)
        ensures
            r@ == self@,
            r.name@ == self.name@,
    {
        let r = Country {
            name: self.name,
            code: self.code,
            phone_lengths: clone_lengths(&self.phone_lengths),
            prefix: self.prefix,
        };
        proof {
            assert(r@ =~= self@);
        }
        r
    }
}

fn clone_lengths(v: &Vec<u8>) -> (r: Vec<u8>)
    ensures
        r@ == v@,
{
    let mut r: Vec<u8> = Vec::new();
    let mut i: usize = 0;
    while i < v.len()
        invariant
            i <= v@.len(),
            r@ == v@.take(i as int),
        decreases v@.len() - i,
    {
        r.push(v[i]);
        i = i + 1;
        proof {
            assert(r@ =~= v@.take(i as int));
        }
    }
    proof {
        assert(r@ =~= v@);
    }
    r
}

/// A well-formed rule: the dialing prefix has one to three decimal digits
/// and at least one national-number length is accepted.
pub open spec fn country_wf(c: CountryModel) -> bool {
    &&& 1 <= c.prefix <= 999
    &&& c.lengths.len() >= 1
}

/// Every rule of a registry is well formed.
pub open spec fn registry_wf(reg: Seq<CountryModel>) -> bool {
    forall|i: int| 0 <= i < reg.len() ==> country_wf(#[trigger] reg[i])
}

/// The model of an executable registry.
pub open spec fn registry_view(v: Seq<Country>) -> Seq<CountryModel> {
    v.map_values(|c: Country| c@)
}

fn lengths1(x0: u8) -> (v: Vec<u8>)
    ensures
        v@ == seq![x0],
{
    let mut v: Vec<u8> = Vec::new();
    v.push(x0);
    proof {
        assert(v@ =~= seq![x0]);
    }
    v
}

fn lengths2(x0: u8, x1: u8) -> (v: Vec<u8>)
    ensures
        v@ == seq![x0, x1],
{
    let mut v: Vec<u8> = Vec::new();
    v.push(x0);
    v.push(x1);
    proof {
        assert(v@ =~= seq![x0, x1]);
    }
    v
}

fn lengths3(x0: u8, x1: u8, x2: u8) -> (v: Vec<u8>)
    ensures
        v@ == seq![x0, x1, x2],
{
    let mut v: Vec<u8> = Vec::new();
    v.push(x0);
    v.push(x1);
    v.push(x2);
    proof {
        assert(v@ =~= seq![x0, x1, x2]);
    }
    v
}

fn lengths4(x0: u8, x1: u8, x2: u8, x3: u8) -> (v: Vec<u8>)
    ensures
        v@ == seq![x0, x1, x2, x3],
{
    let mut v: Vec<u8> = Vec::new();
    v.push(x0);
    v.push(x1);
    v.push(x2);
    v.push(x3);
    proof {
        assert(v@ =~= seq![x0, x1, x2, x3]);
    }
    v
}

pub open spec fn table_block_0() -> Seq<CountryModel> {
    seq![
        CountryModel { code: seq!['U', 'S'], prefix: 1, lengths: seq![10u8] },
        CountryModel { code: seq!['C', 'A'], prefix: 1, lengths: seq![10u8] },
        CountryModel { code: seq!['G', 'B'], prefix: 44, lengths: seq![9u8, 10u8] },
        CountryModel { code: seq!['I', 'N'], prefix: 91, lengths: seq![10u8] },
        CountryModel { code: seq!['D', 'E'], prefix: 49, lengths: seq![10u8, 11u8] },
        CountryModel { code: seq!['A', 'U'], prefix: 61, lengths: seq![9u8, 10u8] },
        CountryModel { code: seq!['C', 'N'], prefix: 86, lengths: seq![11u8] },
        CountryModel { code: seq!['F', 'R'], prefix: 33, lengths: seq![9u8, 10u8] },
        CountryModel { code: seq!['B', 'R'], prefix: 55, lengths: seq![10u8, 11u8] },
        CountryModel { code: seq!['J', 'P'], prefix: 81, lengths: seq![10u8] },
        CountryModel { code: seq!['Z', 'A'], prefix: 27, lengths: seq![9u8] },
    ]
}

fn push_block_0(v: &mut Vec<Country>)
    ensures
        registry_view(final(v)@) == registry_view(old(v)@) + table_block_0(),
{
    proof {
        reveal_strlit("US");
        reveal_strlit("CA");
        reveal_strlit("GB");
        reveal_strlit("IN");
        reveal_strlit("DE");
        reveal_strlit("AU");
        reveal_strlit("CN");
        reveal_strlit("FR");
        reveal_strlit("BR");
        reveal_strlit("JP");
        reveal_strlit("ZA");
    }
    v.push(Country { name: "United States", code: "US", phone_lengths: lengths1(10), prefix: 1 });
    v.push(Country { name: "Canada", code: "CA", phone_lengths: lengths1(10), prefix: 1 });
    v.push(Country { name: "United Kingdom", code: "GB", phone_lengths: lengths2(9, 10), prefix: 44 });
    v.push(Country { name: "India", code: "IN", phone_lengths: lengths1(10), prefix: 91 });
    v.push(Country { name: "Germany", code: "DE", phone_lengths: lengths2(10, 11), prefix: 49 });
    v.push(Country { name: "Australia", code: "AU", phone_lengths: lengths2(9, 10), prefix: 61 });
    v.push(Country { name: "China", code: "CN", phone_lengths: lengths1(11), prefix: 86 });
    v.push(Country { name: "France", code: "FR", phone_lengths: lengths2(9, 10), prefix: 33 });
    v.push(Country { name: "Brazil", code: "BR", phone_lengths: lengths2(10, 11), prefix: 55 });
    v.push(Country { name: "Japan", code: "JP", phone_lengths: lengths1(10), prefix: 81 });
    v.push(Country { name: "South Africa", code: "ZA", phone_lengths: lengths1(9), prefix: 27 });
    proof {
        assert(registry_view(v@) =~~= registry_view(old(v)@) + table_block_0());
    }
}

pub open spec fn table_block_1() -> Seq<CountryModel> {
    seq![
        CountryModel { code: seq!['L', 'B'], prefix: 961, lengths: seq![7u8, 8u8] },
        CountryModel { code: seq!['S', 'Y'], prefix: 963, lengths: seq![9u8] },
        CountryModel { code: seq!['I', 'Q'], prefix: 964, lengths: seq![10u8] },
        CountryModel { code: seq!['K', 'W'], prefix: 965, lengths: seq![8u8] },
        CountryModel { code: seq!['S', 'A'], prefix: 966, lengths: seq![9u8] },
        CountryModel { code: seq!['Y', 'E'], prefix: 967, lengths: seq![9u8] },
        CountryModel { code: seq!['O', 'M'], prefix: 968, lengths: seq![8u8] },
        CountryModel { code: seq!['P', 'S'], prefix: 970, lengths: seq![9u8] },
        CountryModel { code: seq!['A', 'E'], prefix: 971, lengths: seq![9u8] },
        CountryModel { code: seq!['I', 'L'], prefix: 972, lengths: seq![9u8] },
        CountryModel { code: seq!['B', 'H'], prefix: 973, lengths: seq![8u8] },
    ]
}

fn push_block_1(v: &mut Vec<Country>)
    ensures
        registry_view(final(v)@) == registry_view(old(v)@) + table_block_1(),
{
    proof {
        reveal_strlit("LB");
        reveal_strlit("SY");
        reveal_strlit("IQ");
        reveal_strlit("KW");
        reveal_strlit("SA");
        reveal_strlit("YE");
        reveal_strlit("OM");
        reveal_strlit("PS");
        reveal_strlit("AE");
        reveal_strlit("IL");
        reveal_strlit("BH");
    }
    v.push(Country { name: "Lebanon", code: "LB", phone_lengths: lengths2(7, 8), prefix: 961 });
    v.push(Country { name: "Syria", code: "SY", phone_lengths: lengths1(9), prefix: 963 });
    v.push(Country { name: "Iraq", code: "IQ", phone_lengths: lengths1(10), prefix: 964 });
    v.push(Country { name: "Kuwait", code: "KW", phone_lengths: lengths1(8), prefix: 965 });
    v.push(Country { name: "Saudi Arabia", code: "SA", phone_lengths: lengths1(9), prefix: 966 });
    v.push(Country { name: "Yemen", code: "YE", phone_lengths: lengths1(9), prefix: 967 });
    v.push(Country { name: "Oman", code: "OM", phone_lengths: lengths1(8), prefix: 968 });
    v.push(Country { name: "Palestine", code: "PS", phone_lengths: lengths1(9), prefix: 970 });
    v.push(Country { name: "United Arab Emirates", code: "AE", phone_lengths: lengths1(9), prefix: 971 });
    v.push(Country { name: "Israel", code: "IL", phone_lengths: lengths1(9), prefix: 972 });
    v.push(Country { name: "Bahrain", code: "BH", phone_lengths: lengths1(8), prefix: 973 });
    proof {
        assert(registry_view(v@) =~~= registry_view(old(v)@) + table_block_1());
    }
}

pub open spec fn table_block_2() -> Seq<CountryModel> {
    seq![
        CountryModel { code: seq!['Q', 'A'], prefix: 974, lengths: seq![8u8] },
        CountryModel { code: seq!['B', 'T'], prefix: 975, lengths: seq![8u8] },
        CountryModel { code: seq!['M', 'N'], prefix: 976, lengths: seq![8u8] },
        CountryModel { code: seq!['N', 'P'], prefix: 977, lengths: seq![10u8] },
        CountryModel { code: seq!['I', 'R'], prefix: 98, lengths: seq![10u8] },
        CountryModel { code: seq!['T', 'J'], prefix: 992, lengths: seq![9u8] },
        CountryModel { code: seq!['T', 'M'], prefix: 993, lengths: seq![8u8, 9u8] },
        CountryModel { code: seq!['A', 'Z'], prefix: 994, lengths: seq![9u8] },
        CountryModel { code: seq!['G', 'E'], prefix: 995, lengths: seq![9u8] },
        CountryModel { code: seq!['K', 'G'], prefix: 996, lengths: seq![9u8] },
        CountryModel { code: seq!['U', 'Z'], prefix: 998, lengths: seq![9u8] },
    ]
}

fn push_block_2(v: &mut Vec<Country>)
    ensures
        registry_view(final(v)@) == registry_view(old(v)@) + table_block_2(),
{
    proof {
        reveal_strlit("QA");
        reveal_strlit("BT");
        reveal_strlit("MN");
        reveal_strlit("NP");
        reveal_strlit("IR");
        reveal_strlit("TJ");
        reveal_strlit("TM");
        reveal_strlit("AZ");
        reveal_strlit("GE");
        reveal_strlit("KG");
        reveal_strlit("UZ");
    }
    v.push(Country { name: "Qatar", code: "QA", phone_lengths: lengths1(8), prefix: 974 });
    v.push(Country { name: "Bhutan", code: "BT", phone_lengths: lengths1(8), prefix: 975 });
    v.push(Country { name: "Mongolia", code: "MN", phone_lengths: lengths1(8), prefix: 976 });
    v.push(Country { name: "Nepal", code: "NP", phone_lengths: lengths1(10), prefix: 977 });
    v.push(Country { name: "Iran", code: "IR", phone_lengths: lengths1(10), prefix: 98 });
    v.push(Country { name: "Tajikistan", code: "TJ", phone_lengths: lengths1(9), prefix: 992 });
    v.push(Country { name: "Turkmenistan", code: "TM", phone_lengths: lengths2(8, 9), prefix: 993 });
    v.push(Country { name: "Azerbaijan", code: "AZ", phone_lengths: lengths1(9), prefix: 994 });
    v.push(Country { name: "Georgia", code: "GE", phone_lengths: lengths1(9), prefix: 995 });
    v.push(Country { name: "Kyrgyzstan", code: "KG", phone_lengths: lengths1(9), prefix: 996 });
    v.push(Country { name: "Uzbekistan", code: "UZ", phone_lengths: lengths1(9), prefix: 998 });
    proof {
        assert(registry_view(v@) =~~= registry_view(old(v)@) + table_block_2());
    }
}

pub open spec fn table_block_3() -> Seq<CountryModel> {
    seq![
        CountryModel { code: seq!['B', 'S'], prefix: 1, lengths: seq![10u8] },
        CountryModel { code: seq!['B', 'B'], prefix: 1, lengths: seq![10u8] },
        CountryModel { code: seq!['A', 'I'], prefix: 1, lengths: seq![10u8] },
        CountryModel { code: seq!['A', 'G'], prefix: 1, lengths: seq![10u8] },
        CountryModel { code: seq!['V', 'G'], prefix: 1, lengths: seq![10u8] },
        CountryModel { code: seq!['V', 'I'], prefix: 1, lengths: seq![10u8] },
        CountryModel { code: seq!['K', 'Y'], prefix: 1, lengths: seq![10u8] },
        CountryModel { code: seq!['B', 'M'], prefix: 1, lengths: seq![10u8] },
        CountryModel { code: seq!['G', 'D'], prefix: 1, lengths: seq![10u8] },
        CountryModel { code: seq!['T', 'C'], prefix: 1, lengths: seq![10u8] },
        CountryModel { code: seq!['M', 'S'], prefix: 1, lengths: seq![10u8] },
    ]
}

fn push_block_3(v: &mut Vec<Country>)
    ensures
        registry_view(final(v)@) == registry_view(old(v)@) + table_block_3(),
{
    proof {
        reveal_strlit("BS");
        reveal_strlit("BB");
        reveal_strlit("AI");
        reveal_strlit("AG");
        reveal_strlit("VG");
        reveal_strlit("VI");
        reveal_strlit("KY");
        reveal_strlit("BM");
        reveal_strlit("GD");
        reveal_strlit("TC");
        reveal_strlit("MS");
    }
    v.push(Country { name: "Bahamas", code: "BS", phone_lengths: lengths1(10), prefix: 1 });
    v.push(Country { name: "Barbados", code: "BB", phone_lengths: lengths1(10), prefix: 1 });
    v.push(Country { name: "Anguilla", code: "AI", phone_lengths: lengths1(10), prefix: 1 });
    v.push(Country { name: "Antigua and Barbuda", code: "AG", phone_lengths: lengths1(10), prefix: 1 });
    v.push(Country { name: "British Virgin Islands", code: "VG", phone_lengths: lengths1(10), prefix: 1 });
    v.push(Country { name: "United States Virgin Islands", code: "VI", phone_lengths: lengths1(10), prefix: 1 });
    v.push(Country { name: "Cayman Islands", code: "KY", phone_lengths: lengths1(10), prefix: 1 });
    v.push(Country { name: "Bermuda", code: "BM", phone_lengths: lengths1(10), prefix: 1 });
    v.push(Country { name: "Grenada", code: "GD", phone_lengths: lengths1(10), prefix: 1 });
    v.push(Country { name: "Turks and Caicos Islands", code: "TC", phone_lengths: lengths1(10), prefix: 1 });
    v.push(Country { name: "Montserrat", code: "MS", phone_lengths: lengths1(10), prefix: 1 });
    proof {
        assert(registry_view(v@) =~~= registry_view(old(v)@) + table_block_3());
    }
}

pub open spec fn table_block_4() -> Seq<CountryModel> {
    seq![
        CountryModel { code: seq!['M', 'P'], prefix: 1, lengths: seq![10u8] },
        CountryModel { code: seq!['G', 'U'], prefix: 1, lengths: seq![10u8] },
        CountryModel { code: seq!['A', 'S'], prefix: 1, lengths: seq![10u8] },
        CountryModel { code: seq!['S', 'X'], prefix: 1, lengths: seq![10u8] },
        CountryModel { code: seq!['L', 'C'], prefix: 1, lengths: seq![10u8] },
        CountryModel { code: seq!['D', 'M'], prefix: 1, lengths: seq![10u8] },
        CountryModel { code: seq!['V', 'C'], prefix: 1, lengths: seq![10u8] },
        CountryModel { code: seq!['P', 'R'], prefix: 1, lengths: seq![10u8] },
        CountryModel { code: seq!['D', 'O'], prefix: 1, lengths: seq![10u8] },
        CountryModel { code: seq!['T', 'T'], prefix: 1, lengths: seq![10u8] },
        CountryModel { code: seq!['K', 'N'], prefix: 1, lengths: seq![10u8] },
    ]
}

fn push_block_4(v: &mut Vec<Country>)
    ensures
        registry_view(final(v)@) == registry_view(old(v)@) + table_block_4(),
{
    proof {
        reveal_strlit("MP");
        reveal_strlit("GU");
        reveal_strlit("AS");
        reveal_strlit("SX");
        reveal_strlit("LC");
        reveal_strlit("DM");
        reveal_strlit("VC");
        reveal_strlit("PR");
        reveal_strlit("DO");
        reveal_strlit("TT");
        reveal_strlit("KN");
    }
    v.push(Country { name: "Northern Mariana Islands", code: "MP", phone_lengths: lengths1(10), prefix: 1 });
    v.push(Country { name: "Guam", code: "GU", phone_lengths: lengths1(10), prefix: 1 });
    v.push(Country { name: "American Samoa", code: "AS", phone_lengths: lengths1(10), prefix: 1 });
    v.push(Country { name: "Sint Maarten", code: "SX", phone_lengths: lengths1(10), prefix: 1 });
    v.push(Country { name: "Saint Lucia", code: "LC", phone_lengths: lengths1(10), prefix: 1 });
    v.push(Country { name: "Dominica", code: "DM", phone_lengths: lengths1(10), prefix: 1 });
    v.push(Country { name: "Saint Vincent and the Grenadines", code: "VC", phone_lengths: lengths1(10), prefix: 1 });
    v.push(Country { name: "Puerto Rico", code: "PR", phone_lengths: lengths1(10), prefix: 1 });
    v.push(Country { name: "Dominican Republic", code: "DO", phone_lengths: lengths1(10), prefix: 1 });
    v.push(Country { name: "Trinidad and Tobago", code: "TT", phone_lengths: lengths1(10), prefix: 1 });
    v.push(Country { name: "Saint Kitts and Nevis", code: "KN", phone_lengths: lengths1(10), prefix: 1 });
    proof {
        assert(registry_view(v@) =~~= registry_view(old(v)@) + table_block_4());
    }
}

pub open spec fn table_block_5() -> Seq<CountryModel> {
    seq![
        CountryModel { code: seq!['J', 'M'], prefix: 1, lengths: seq![10u8] },
        CountryModel { code: seq!['R', 'E'], prefix: 262, lengths: seq![9u8] },
        CountryModel { code: seq!['Z', 'W'], prefix: 263, lengths: seq![9u8] },
        CountryModel { code: seq!['N', 'A'], prefix: 264, lengths: seq![9u8] },
        CountryModel { code: seq!['M', 'W'], prefix: 265, lengths: seq![9u8] },
        CountryModel { code: seq!['L', 'S'], prefix: 266, lengths: seq![8u8] },
        CountryModel { code: seq!['B', 'W'], prefix: 267, lengths: seq![8u8] },
        CountryModel { code: seq!['S', 'Z'], prefix: 268, lengths: seq![8u8] },
        CountryModel { code: seq!['K', 'M'], prefix: 269, lengths: seq![7u8] },
        CountryModel { code: seq!['S', 'H'], prefix: 290, lengths: seq![5u8] },
        CountryModel { code: seq!['E', 'R'], prefix: 291, lengths: seq![7u8] },
    ]
}

fn push_block_5(v: &mut Vec<Country>)
    ensures
        registry_view(final(v)@) == registry_view(old(v)@) + table_block_5(),
{
    proof {
        reveal_strlit("JM");
        reveal_strlit("RE");
        reveal_strlit("ZW");
        reveal_strlit("NA");
        reveal_strlit("MW");
        reveal_strlit("LS");
        reveal_strlit("BW");
        reveal_strlit("SZ");
        reveal_strlit("KM");
        reveal_strlit("SH");
        reveal_strlit("ER");
    }
    v.push(Country { name: "Jamaica", code: "JM", phone_lengths: lengths1(10), prefix: 1 });
    v.push(Country { name: "Reunion", code: "RE", phone_lengths: lengths1(9), prefix: 262 });
    v.push(Country { name: "Zimbabwe", code: "ZW", phone_lengths: lengths1(9), prefix: 263 });
    v.push(Country { name: "Namibia", code: "NA", phone_lengths: lengths1(9), prefix: 264 });
    v.push(Country { name: "Malawi", code: "MW", phone_lengths: lengths1(9), prefix: 265 });
    v.push(Country { name: "Lesotho", code: "LS", phone_lengths: lengths1(8), prefix: 266 });
    v.push(Country { name: "Botswana", code: "BW", phone_lengths: lengths1(8), prefix: 267 });
    v.push(Country { name: "Eswatini", code: "SZ", phone_lengths: lengths1(8), prefix: 268 });
    v.push(Country { name: "Comoros", code: "KM", phone_lengths: lengths1(7), prefix: 269 });
    v.push(Country { name: "Saint Helena", code: "SH", phone_lengths: lengths1(5), prefix: 290 });
    v.push(Country { name: "Eritrea", code: "ER", phone_lengths: lengths1(7), prefix: 291 });
    proof {
        assert(registry_view(v@) =~~= registry_view(old(v)@) + table_block_5());
    }
}

pub open spec fn table_block_6() -> Seq<CountryModel> {
    seq![
        CountryModel { code: seq!['A', 'W'], prefix: 297, lengths: seq![7u8] },
        CountryModel { code: seq!['F', 'O'], prefix: 298, lengths: seq![6u8] },
        CountryModel { code: seq!['G', 'L'], prefix: 299, lengths: seq![6u8] },
        CountryModel { code: seq!['G', 'I'], prefix: 350, lengths: seq![8u8] },
        CountryModel { code: seq!['P', 'T'], prefix: 351, lengths: seq![9u8] },
        CountryModel { code: seq!['L', 'U'], prefix: 352, lengths: seq![8u8] },
        CountryModel { code: seq!['I', 'E'], prefix: 353, lengths: seq![9u8] },
        CountryModel { code: seq!['I', 'S'], prefix: 354, lengths: seq![7u8] },
        CountryModel { code: seq!['A', 'L'], prefix: 355, lengths: seq![9u8] },
        CountryModel { code: seq!['M', 'T'], prefix: 356, lengths: seq![8u8] },
        CountryModel { code: seq!['C', 'Y'], prefix: 357, lengths: seq![8u8] },
    ]
}

fn push_block_6(v: &mut Vec<Country>)
    ensures
        registry_view(final(v)@) == registry_view(old(v)@) + table_block_6(),
{
    proof {
        reveal_strlit("AW");
        reveal_strlit("FO");
        reveal_strlit("GL");
        reveal_strlit("GI");
        reveal_strlit("PT");
        reveal_strlit("LU");
        reveal_strlit("IE");
        reveal_strlit("IS");
        reveal_strlit("AL");
        reveal_strlit("MT");
        reveal_strlit("CY");
    }
    v.push(Country { name: "Aruba", code: "AW", phone_lengths: lengths1(7), prefix: 297 });
    v.push(Country { name: "Faroe Islands", code: "FO", phone_lengths: lengths1(6), prefix: 298 });
    v.push(Country { name: "Greenland", code: "GL", phone_lengths: lengths1(6), prefix: 299 });
    v.push(Country { name: "Gibraltar", code: "GI", phone_lengths: lengths1(8), prefix: 350 });
    v.push(Country { name: "Portugal", code: "PT", phone_lengths: lengths1(9), prefix: 351 });
    v.push(Country { name: "Luxembourg", code: "LU", phone_lengths: lengths1(8), prefix: 352 });
    v.push(Country { name: "Ireland", code: "IE", phone_lengths: lengths1(9), prefix: 353 });
    v.push(Country { name: "Iceland", code: "IS", phone_lengths: lengths1(7), prefix: 354 });
    v.push(Country { name: "Albania", code: "AL", phone_lengths: lengths1(9), prefix: 355 });
    v.push(Country { name: "Malta", code: "MT", phone_lengths: lengths1(8), prefix: 356 });
    v.push(Country { name: "Cyprus", code: "CY", phone_lengths: lengths1(8), prefix: 357 });
    proof {
        assert(registry_view(v@) =~~= registry_view(old(v)@) + table_block_6());
    }
}

pub open spec fn table_block_7() -> Seq<CountryModel> {
    seq![
        CountryModel { code: seq!['F', 'I'], prefix: 358, lengths: seq![9u8] },
        CountryModel { code: seq!['B', 'G'], prefix: 359, lengths: seq![8u8] },
        CountryModel { code: seq!['L', 'T'], prefix: 370, lengths: seq![8u8] },
        CountryModel { code: seq!['L', 'V'], prefix: 371, lengths: seq![8u8] },
        CountryModel { code: seq!['E', 'E'], prefix: 372, lengths: seq![8u8] },
        CountryModel { code: seq!['M', 'D'], prefix: 373, lengths: seq![8u8] },
        CountryModel { code: seq!['A', 'M'], prefix: 374, lengths: seq![8u8] },
        CountryModel { code: seq!['B', 'Y'], prefix: 375, lengths: seq![9u8] },
        CountryModel { code: seq!['A', 'D'], prefix: 376, lengths: seq![6u8] },
        CountryModel { code: seq!['M', 'C'], prefix: 377, lengths: seq![8u8] },
        CountryModel { code: seq!['S', 'M'], prefix: 378, lengths: seq![9u8] },
    ]
}

fn push_block_7(v: &mut Vec<Country>)
    ensures
        registry_view(final(v)@) == registry_view(old(v)@) + table_block_7(),
{
    proof {
        reveal_strlit("FI");
        reveal_strlit("BG");
        reveal_strlit("LT");
        reveal_strlit("LV");
        reveal_strlit("EE");
        reveal_strlit("MD");
        reveal_strlit("AM");
        reveal_strlit("BY");
        reveal_strlit("AD");
        reveal_strlit("MC");
        reveal_strlit("SM");
    }
    v.push(Country { name: "Finland", code: "FI", phone_lengths: lengths1(9), prefix: 358 });
    v.push(Country { name: "Bulgaria", code: "BG", phone_lengths: lengths1(8), prefix: 359 });
    v.push(Country { name: "Lithuania", code: "LT", phone_lengths: lengths1(8), prefix: 370 });
    v.push(Country { name: "Latvia", code: "LV", phone_lengths: lengths1(8), prefix: 371 });
    v.push(Country { name: "Estonia", code: "EE", phone_lengths: lengths1(8), prefix: 372 });
    v.push(Country { name: "Moldova", code: "MD", phone_lengths: lengths1(8), prefix: 373 });
    v.push(Country { name: "Armenia", code: "AM", phone_lengths: lengths1(8), prefix: 374 });
    v.push(Country { name: "Belarus", code: "BY", phone_lengths: lengths1(9), prefix: 375 });
    v.push(Country { name: "Andorra", code: "AD", phone_lengths: lengths1(6), prefix: 376 });
    v.push(Country { name: "Monaco", code: "MC", phone_lengths: lengths1(8), prefix: 377 });
    v.push(Country { name: "San Marino", code: "SM", phone_lengths: lengths1(9), prefix: 378 });
    proof {
        assert(registry_view(v@) =~~= registry_view(old(v)@) + table_block_7());
    }
}

pub open spec fn table_block_8() -> Seq<CountryModel> {
    seq![
        CountryModel { code: seq!['V', 'A'], prefix: 379, lengths: seq![9u8] },
        CountryModel { code: seq!['U', 'A'], prefix: 380, lengths: seq![9u8] },
        CountryModel { code: seq!['R', 'S'], prefix: 381, lengths: seq![9u8] },
        CountryModel { code: seq!['M', 'E'], prefix: 382, lengths: seq![8u8] },
        CountryModel { code: seq!['H', 'R'], prefix: 385, lengths: seq![9u8] },
        CountryModel { code: seq!['S', 'I'], prefix: 386, lengths: seq![8u8] },
        CountryModel { code: seq!['B', 'A'], prefix: 387, lengths: seq![8u8] },
        CountryModel { code: seq!['M', 'K'], prefix: 389, lengths: seq![8u8] },
        CountryModel { code: seq!['C', 'Z'], prefix: 420, lengths: seq![9u8] },
        CountryModel { code: seq!['S', 'K'], prefix: 421, lengths: seq![9u8] },
        CountryModel { code: seq!['L', 'I'], prefix: 423, lengths: seq![7u8] },
    ]
}

fn push_block_8(v: &mut Vec<Country>)
    ensures
        registry_view(final(v)@) == registry_view(old(v)@) + table_block_8(),
{
    proof {
        reveal_strlit("VA");
        reveal_strlit("UA");
        reveal_strlit("RS");
        reveal_strlit("ME");
        reveal_strlit("HR");
        reveal_strlit("SI");
        reveal_strlit("BA");
        reveal_strlit("MK");
        reveal_strlit("CZ");
        reveal_strlit("SK");
        reveal_strlit("LI");
    }
    v.push(Country { name: "Vatican City", code: "VA", phone_lengths: lengths1(9), prefix: 379 });
    v.push(Country { name: "Ukraine", code: "UA", phone_lengths: lengths1(9), prefix: 380 });
    v.push(Country { name: "Serbia", code: "RS", phone_lengths: lengths1(9), prefix: 381 });
    v.push(Country { name: "Montenegro", code: "ME", phone_lengths: lengths1(8), prefix: 382 });
    v.push(Country { name: "Croatia", code: "HR", phone_lengths: lengths1(9), prefix: 385 });
    v.push(Country { name: "Slovenia", code: "SI", phone_lengths: lengths1(8), prefix: 386 });
    v.push(Country { name: "Bosnia and Herzegovina", code: "BA", phone_lengths: lengths1(8), prefix: 387 });
    v.push(Country { name: "North Macedonia", code: "MK", phone_lengths: lengths1(8), prefix: 389 });
    v.push(Country { name: "Czech Republic", code: "CZ", phone_lengths: lengths1(9), prefix: 420 });
    v.push(Country { name: "Slovakia", code: "SK", phone_lengths: lengths1(9), prefix: 421 });
    v.push(Country { name: "Liechtenstein", code: "LI", phone_lengths: lengths1(7), prefix: 423 });
    proof {
        assert(registry_view(v@) =~~= registry_view(old(v)@) + table_block_8());
    }
}

pub open spec fn table_block_9() -> Seq<CountryModel> {
    seq![
        CountryModel { code: seq!['F', 'K'], prefix: 500, lengths: seq![5u8] },
        CountryModel { code: seq!['B', 'Z'], prefix: 501, lengths: seq![7u8] },
        CountryModel { code: seq!['G', 'T'], prefix: 502, lengths: seq![8u8] },
        CountryModel { code: seq!['S', 'V'], prefix: 503, lengths: seq![8u8] },
        CountryModel { code: seq!['H', 'N'], prefix: 504, lengths: seq![8u8] },
        CountryModel { code: seq!['N', 'I'], prefix: 505, lengths: seq![8u8] },
        CountryModel { code: seq!['C', 'R'], prefix: 506, lengths: seq![8u8] },
        CountryModel { code: seq!['P', 'A'], prefix: 507, lengths: seq![8u8] },
        CountryModel { code: seq!['P', 'M'], prefix: 508, lengths: seq![8u8] },
        CountryModel { code: seq!['H', 'T'], prefix: 509, lengths: seq![8u8] },
        CountryModel { code: seq!['G', 'P'], prefix: 590, lengths: seq![9u8] },
    ]
}

fn push_block_9(v: &mut Vec<Country>)
    ensures
        registry_view(final(v)@) == registry_view(old(v)@) + table_block_9(),
{
    proof {
        reveal_strlit("FK");
        reveal_strlit("BZ");
        reveal_strlit("GT");
        reveal_strlit("SV");
        reveal_strlit("HN");
        reveal_strlit("NI");
        reveal_strlit("CR");
        reveal_strlit("PA");
        reveal_strlit("PM");
        reveal_strlit("HT");
        reveal_strlit("GP");
    }
    v.push(Country { name: "Falkland Islands", code: "FK", phone_lengths: lengths1(5), prefix: 500 });
    v.push(Country { name: "Belize", code: "BZ", phone_lengths: lengths1(7), prefix: 501 });
    v.push(Country { name: "Guatemala", code: "GT", phone_lengths: lengths1(8), prefix: 502 });
    v.push(Country { name: "El Salvador", code: "SV", phone_lengths: lengths1(8), prefix: 503 });
    v.push(Country { name: "Honduras", code: "HN", phone_lengths: lengths1(8), prefix: 504 });
    v.push(Country { name: "Nicaragua", code: "NI", phone_lengths: lengths1(8), prefix: 505 });
    v.push(Country { name: "Costa Rica", code: "CR", phone_lengths: lengths1(8), prefix: 506 });
    v.push(Country { name: "Panama", code: "PA", phone_lengths: lengths1(8), prefix: 507 });
    v.push(Country { name: "Saint Pierre and Miquelon", code: "PM", phone_lengths: lengths1(8), prefix: 508 });
    v.push(Country { name: "Haiti", code: "HT", phone_lengths: lengths1(8), prefix: 509 });
    v.push(Country { name: "Guadeloupe", code: "GP", phone_lengths: lengths1(9), prefix: 590 });
    proof {
        assert(registry_view(v@) =~~= registry_view(old(v)@) + table_block_9());
    }
}

pub open spec fn table_block_10() -> Seq<CountryModel> {
    seq![
        CountryModel { code: seq!['B', 'O'], prefix: 591, lengths: seq![8u8] },
        CountryModel { code: seq!['G', 'Y'], prefix: 592, lengths: seq![7u8] },
        CountryModel { code: seq!['E', 'C'], prefix: 593, lengths: seq![9u8] },
        CountryModel { code: seq!['G', 'F'], prefix: 594, lengths: seq![9u8] },
        CountryModel { code: seq!['P', 'Y'], prefix: 595, lengths: seq![9u8] },
        CountryModel { code: seq!['M', 'Q'], prefix: 596, lengths: seq![9u8] },
        CountryModel { code: seq!['S', 'R'], prefix: 597, lengths: seq![7u8] },
        CountryModel { code: seq!['U', 'Y'], prefix: 598, lengths: seq![8u8] },
        CountryModel { code: seq!['C', 'W'], prefix: 599, lengths: seq![8u8] },
        CountryModel { code: seq!['T', 'L'], prefix: 670, lengths: seq![8u8] },
        CountryModel { code: seq!['N', 'F'], prefix: 672, lengths: seq![6u8] },
    ]
}

fn push_block_10(v: &mut Vec<Country>)
    ensures
        registry_view(final(v)@) == registry_view(old(v)@) + table_block_10(),
{
    proof {
        reveal_strlit("BO");
        reveal_strlit("GY");
        reveal_strlit("EC");
        reveal_strlit("GF");
        reveal_strlit("PY");
        reveal_strlit("MQ");
        reveal_strlit("SR");
        reveal_strlit("UY");
        reveal_strlit("CW");
        reveal_strlit("TL");
        reveal_strlit("NF");
    }
    v.push(Country { name: "Bolivia", code: "BO", phone_lengths: lengths1(8), prefix: 591 });
    v.push(Country { name: "Guyana", code: "GY", phone_lengths: lengths1(7), prefix: 592 });
    v.push(Country { name: "Ecuador", code: "EC", phone_lengths: lengths1(9), prefix: 593 });
    v.push(Country { name: "French Guiana", code: "GF", phone_lengths: lengths1(9), prefix: 594 });
    v.push(Country { name: "Paraguay", code: "PY", phone_lengths: lengths1(9), prefix: 595 });
    v.push(Country { name: "Martinique", code: "MQ", phone_lengths: lengths1(9), prefix: 596 });
    v.push(Country { name: "Suriname", code: "SR", phone_lengths: lengths1(7), prefix: 597 });
    v.push(Country { name: "Uruguay", code: "UY", phone_lengths: lengths1(8), prefix: 598 });
    v.push(Country { name: "Curacao", code: "CW", phone_lengths: lengths1(8), prefix: 599 });
    v.push(Country { name: "Timor-Leste", code: "TL", phone_lengths: lengths1(8), prefix: 670 });
    v.push(Country { name: "Norfolk Island", code: "NF", phone_lengths: lengths1(6), prefix: 672 });
    proof {
        assert(registry_view(v@) =~~= registry_view(old(v)@) + table_block_10());
    }
}

pub open spec fn table_block_11() -> Seq<CountryModel> {
    seq![
        CountryModel { code: seq!['B', 'N'], prefix: 673, lengths: seq![7u8] },
        CountryModel { code: seq!['N', 'R'], prefix: 674, lengths: seq![7u8] },
        CountryModel { code: seq!['P', 'G'], prefix: 675, lengths: seq![8u8] },
        CountryModel { code: seq!['T', 'O'], prefix: 676, lengths: seq![8u8] },
        CountryModel { code: seq!['S', 'B'], prefix: 677, lengths: seq![5u8] },
        CountryModel { code: seq!['V', 'U'], prefix: 678, lengths: seq![5u8] },
        CountryModel { code: seq!['F', 'J'], prefix: 679, lengths: seq![7u8] },
        CountryModel { code: seq!['P', 'W'], prefix: 680, lengths: seq![7u8] },
        CountryModel { code: seq!['W', 'F'], prefix: 681, lengths: seq![6u8] },
        CountryModel { code: seq!['C', 'K'], prefix: 682, lengths: seq![5u8] },
        CountryModel { code: seq!['K', 'I'], prefix: 686, lengths: seq![5u8] },
    ]
}

fn push_block_11(v: &mut Vec<Country>)
    ensures
        registry_view(final(v)@) == registry_view(old(v)@) + table_block_11(),
{
    proof {
        reveal_strlit("BN");
        reveal_strlit("NR");
        reveal_strlit("PG");
        reveal_strlit("TO");
        reveal_strlit("SB");
        reveal_strlit("VU");
        reveal_strlit("FJ");
        reveal_strlit("PW");
        reveal_strlit("WF");
        reveal_strlit("CK");
        reveal_strlit("KI");
    }
    v.push(Country { name: "Brunei", code: "BN", phone_lengths: lengths1(7), prefix: 673 });
    v.push(Country { name: "Nauru", code: "NR", phone_lengths: lengths1(7), prefix: 674 });
    v.push(Country { name: "Papua New Guinea", code: "PG", phone_lengths: lengths1(8), prefix: 675 });
    v.push(Country { name: "Tonga", code: "TO", phone_lengths: lengths1(8), prefix: 676 });
    v.push(Country { name: "Solomon Islands", code: "SB", phone_lengths: lengths1(5), prefix: 677 });
    v.push(Country { name: "Vanuatu", code: "VU", phone_lengths: lengths1(5), prefix: 678 });
    v.push(Country { name: "Fiji", code: "FJ", phone_lengths: lengths1(7), prefix: 679 });
    v.push(Country { name: "Palau", code: "PW", phone_lengths: lengths1(7), prefix: 680 });
    v.push(Country { name: "Wallis and Futuna", code: "WF", phone_lengths: lengths1(6), prefix: 681 });
    v.push(Country { name: "Cook Islands", code: "CK", phone_lengths: lengths1(5), prefix: 682 });
    v.push(Country { name: "Kiribati", code: "KI", phone_lengths: lengths1(5), prefix: 686 });
    proof {
        assert(registry_view(v@) =~~= registry_view(old(v)@) + table_block_11());
    }
}

pub open spec fn table_block_12() -> Seq<CountryModel> {
    seq![
        CountryModel { code: seq!['N', 'C'], prefix: 687, lengths: seq![6u8] },
        CountryModel { code: seq!['T', 'V'], prefix: 688, lengths: seq![6u8] },
        CountryModel { code: seq!['P', 'F'], prefix: 689, lengths: seq![8u8] },
        CountryModel { code: seq!['T', 'K'], prefix: 690, lengths: seq![4u8] },
        CountryModel { code: seq!['F', 'M'], prefix: 691, lengths: seq![7u8] },
        CountryModel { code: seq!['M', 'H'], prefix: 692, lengths: seq![7u8] },
        CountryModel { code: seq!['K', 'P'], prefix: 850, lengths: seq![10u8] },
        CountryModel { code: seq!['H', 'K'], prefix: 852, lengths: seq![8u8] },
        CountryModel { code: seq!['M', 'O'], prefix: 853, lengths: seq![8u8] },
        CountryModel { code: seq!['K', 'H'], prefix: 855, lengths: seq![8u8] },
        CountryModel { code: seq!['L', 'A'], prefix: 856, lengths: seq![8u8] },
    ]
}

fn push_block_12(v: &mut Vec<Country>)
    ensures
        registry_view(final(v)@) == registry_view(old(v)@) + table_block_12(),
{
    proof {
        reveal_strlit("NC");
        reveal_strlit("TV");
        reveal_strlit("PF");
        reveal_strlit("TK");
        reveal_strlit("FM");
        reveal_strlit("MH");
        reveal_strlit("KP");
        reveal_strlit("HK");
        reveal_strlit("MO");
        reveal_strlit("KH");
        reveal_strlit("LA");
    }
    v.push(Country { name: "New Caledonia", code: "NC", phone_lengths: lengths1(6), prefix: 687 });
    v.push(Country { name: "Tuvalu", code: "TV", phone_lengths: lengths1(6), prefix: 688 });
    v.push(Country { name: "French Polynesia", code: "PF", phone_lengths: lengths1(8), prefix: 689 });
    v.push(Country { name: "Tokelau", code: "TK", phone_lengths: lengths1(4), prefix: 690 });
    v.push(Country { name: "Micronesia", code: "FM", phone_lengths: lengths1(7), prefix: 691 });
    v.push(Country { name: "Marshall Islands", code: "MH", phone_lengths: lengths1(7), prefix: 692 });
    v.push(Country { name: "North Korea", code: "KP", phone_lengths: lengths1(10), prefix: 850 });
    v.push(Country { name: "Hong Kong", code: "HK", phone_lengths: lengths1(8), prefix: 852 });
    v.push(Country { name: "Macau", code: "MO", phone_lengths: lengths1(8), prefix: 853 });
    v.push(Country { name: "Cambodia", code: "KH", phone_lengths: lengths1(8), prefix: 855 });
    v.push(Country { name: "Laos", code: "LA", phone_lengths: lengths1(8), prefix: 856 });
    proof {
        assert(registry_view(v@) =~~= registry_view(old(v)@) + table_block_12());
    }
}

pub open spec fn table_block_13() -> Seq<CountryModel> {
    seq![
        CountryModel { code: seq!['B', 'D'], prefix: 880, lengths: seq![10u8] },
        CountryModel { code: seq!['T', 'W'], prefix: 886, lengths: seq![9u8] },
        CountryModel { code: seq!['M', 'V'], prefix: 960, lengths: seq![7u8] },
        CountryModel { code: seq!['J', 'O'], prefix: 962, lengths: seq![9u8] },
        CountryModel { code: seq!['S', 'G'], prefix: 65, lengths: seq![8u8] },
        CountryModel { code: seq!['M', 'Y'], prefix: 60, lengths: seq![9u8] },
        CountryModel { code: seq!['P', 'H'], prefix: 63, lengths: seq![10u8] },
        CountryModel { code: seq!['T', 'H'], prefix: 66, lengths: seq![9u8] },
        CountryModel { code: seq!['V', 'N'], prefix: 84, lengths: seq![9u8] },
        CountryModel { code: seq!['P', 'K'], prefix: 92, lengths: seq![10u8] },
        CountryModel { code: seq!['L', 'K'], prefix: 94, lengths: seq![9u8] },
    ]
}

fn push_block_13(v: &mut Vec<Country>)
    ensures
        registry_view(final(v)@) == registry_view(old(v)@) + table_block_13(),
{
    proof {
        reveal_strlit("BD");
        reveal_strlit("TW");
        reveal_strlit("MV");
        reveal_strlit("JO");
        reveal_strlit("SG");
        reveal_strlit("MY");
        reveal_strlit("PH");
        reveal_strlit("TH");
        reveal_strlit("VN");
        reveal_strlit("PK");
        reveal_strlit("LK");
    }
    v.push(Country { name: "Bangladesh", code: "BD", phone_lengths: lengths1(10), prefix: 880 });
    v.push(Country { name: "Taiwan", code: "TW", phone_lengths: lengths1(9), prefix: 886 });
    v.push(Country { name: "Maldives", code: "MV", phone_lengths: lengths1(7), prefix: 960 });
    v.push(Country { name: "Jordan", code: "JO", phone_lengths: lengths1(9), prefix: 962 });
    v.push(Country { name: "Singapore", code: "SG", phone_lengths: lengths1(8), prefix: 65 });
    v.push(Country { name: "Malaysia", code: "MY", phone_lengths: lengths1(9), prefix: 60 });
    v.push(Country { name: "Philippines", code: "PH", phone_lengths: lengths1(10), prefix: 63 });
    v.push(Country { name: "Thailand", code: "TH", phone_lengths: lengths1(9), prefix: 66 });
    v.push(Country { name: "Vietnam", code: "VN", phone_lengths: lengths1(9), prefix: 84 });
    v.push(Country { name: "Pakistan", code: "PK", phone_lengths: lengths1(10), prefix: 92 });
    v.push(Country { name: "Sri Lanka", code: "LK", phone_lengths: lengths1(9), prefix: 94 });
    proof {
        assert(registry_view(v@) =~~= registry_view(old(v)@) + table_block_13());
    }
}

pub open spec fn table_block_14() -> Seq<CountryModel> {
    seq![
        CountryModel { code: seq!['A', 'F'], prefix: 93, lengths: seq![9u8] },
        CountryModel { code: seq!['M', 'M'], prefix: 95, lengths: seq![10u8] },
        CountryModel { code: seq!['K', 'Z'], prefix: 7, lengths: seq![10u8] },
        CountryModel { code: seq!['S', 'O'], prefix: 252, lengths: seq![9u8] },
        CountryModel { code: seq!['K', 'E'], prefix: 254, lengths: seq![9u8] },
        CountryModel { code: seq!['T', 'Z'], prefix: 255, lengths: seq![9u8] },
        CountryModel { code: seq!['U', 'G'], prefix: 256, lengths: seq![9u8] },
        CountryModel { code: seq!['E', 'T'], prefix: 251, lengths: seq![9u8] },
        CountryModel { code: seq!['N', 'G'], prefix: 234, lengths: seq![9u8] },
        CountryModel { code: seq!['G', 'H'], prefix: 233, lengths: seq![9u8] },
        CountryModel { code: seq!['S', 'N'], prefix: 221, lengths: seq![9u8] },
    ]
}

fn push_block_14(v: &mut Vec<Country>)
    ensures
        registry_view(final(v)@) == registry_view(old(v)@) + table_block_14(),
{
    proof {
        reveal_strlit("AF");
        reveal_strlit("MM");
        reveal_strlit("KZ");
        reveal_strlit("SO");
        reveal_strlit("KE");
        reveal_strlit("TZ");
        reveal_strlit("UG");
        reveal_strlit("ET");
        reveal_strlit("NG");
        reveal_strlit("GH");
        reveal_strlit("SN");
    }
    v.push(Country { name: "Afghanistan", code: "AF", phone_lengths: lengths1(9), prefix: 93 });
    v.push(Country { name: "Myanmar", code: "MM", phone_lengths: lengths1(10), prefix: 95 });
    v.push(Country { name: "Kazakhstan", code: "KZ", phone_lengths: lengths1(10), prefix: 7 });
    v.push(Country { name: "Somalia", code: "SO", phone_lengths: lengths1(9), prefix: 252 });
    v.push(Country { name: "Kenya", code: "KE", phone_lengths: lengths1(9), prefix: 254 });
    v.push(Country { name: "Tanzania", code: "TZ", phone_lengths: lengths1(9), prefix: 255 });
    v.push(Country { name: "Uganda", code: "UG", phone_lengths: lengths1(9), prefix: 256 });
    v.push(Country { name: "Ethiopia", code: "ET", phone_lengths: lengths1(9), prefix: 251 });
    v.push(Country { name: "Nigeria", code: "NG", phone_lengths: lengths1(9), prefix: 234 });
    v.push(Country { name: "Ghana", code: "GH", phone_lengths: lengths1(9), prefix: 233 });
    v.push(Country { name: "Senegal", code: "SN", phone_lengths: lengths1(9), prefix: 221 });
    proof {
        assert(registry_view(v@) =~~= registry_view(old(v)@) + table_block_14());
    }
}

pub open spec fn table_block_15() -> Seq<CountryModel> {
    seq![
        CountryModel { code: seq!['C', 'I'], prefix: 225, lengths: seq![8u8] },
        CountryModel { code: seq!['M', 'L'], prefix: 223, lengths: seq![8u8] },
        CountryModel { code: seq!['Z', 'M'], prefix: 260, lengths: seq![9u8] },
        CountryModel { code: seq!['M', 'G'], prefix: 261, lengths: seq![9u8] },
        CountryModel { code: seq!['M', 'U'], prefix: 230, lengths: seq![8u8] },
        CountryModel { code: seq!['S', 'C'], prefix: 248, lengths: seq![7u8] },
        CountryModel { code: seq!['C', 'V'], prefix: 238, lengths: seq![7u8] },
        CountryModel { code: seq!['S', 'T'], prefix: 239, lengths: seq![7u8] },
        CountryModel { code: seq!['G', 'Q'], prefix: 240, lengths: seq![9u8] },
        CountryModel { code: seq!['C', 'D'], prefix: 243, lengths: seq![9u8] },
        CountryModel { code: seq!['A', 'O'], prefix: 244, lengths: seq![9u8] },
    ]
}

fn push_block_15(v: &mut Vec<Country>)
    ensures
        registry_view(final(v)@) == registry_view(old(v)@) + table_block_15(),
{
    proof {
        reveal_strlit("CI");
        reveal_strlit("ML");
        reveal_strlit("ZM");
        reveal_strlit("MG");
        reveal_strlit("MU");
        reveal_strlit("SC");
        reveal_strlit("CV");
        reveal_strlit("ST");
        reveal_strlit("GQ");
        reveal_strlit("CD");
        reveal_strlit("AO");
    }
    v.push(Country { name: "Ivory Coast", code: "CI", phone_lengths: lengths1(8), prefix: 225 });
    v.push(Country { name: "Mali", code: "ML", phone_lengths: lengths1(8), prefix: 223 });
    v.push(Country { name: "Zambia", code: "ZM", phone_lengths: lengths1(9), prefix: 260 });
    v.push(Country { name: "Madagascar", code: "MG", phone_lengths: lengths1(9), prefix: 261 });
    v.push(Country { name: "Mauritius", code: "MU", phone_lengths: lengths1(8), prefix: 230 });
    v.push(Country { name: "Seychelles", code: "SC", phone_lengths: lengths1(7), prefix: 248 });
    v.push(Country { name: "Cape Verde", code: "CV", phone_lengths: lengths1(7), prefix: 238 });
    v.push(Country { name: "Sao Tome and Principe", code: "ST", phone_lengths: lengths1(7), prefix: 239 });
    v.push(Country { name: "Equatorial Guinea", code: "GQ", phone_lengths: lengths1(9), prefix: 240 });
    v.push(Country { name: "Democratic Republic of the Congo", code: "CD", phone_lengths: lengths1(9), prefix: 243 });
    v.push(Country { name: "Angola", code: "AO", phone_lengths: lengths1(9), prefix: 244 });
    proof {
        assert(registry_view(v@) =~~= registry_view(old(v)@) + table_block_15());
    }
}

pub open spec fn table_block_16() -> Seq<CountryModel> {
    seq![
        CountryModel { code: seq!['G', 'W'], prefix: 245, lengths: seq![9u8] },
        CountryModel { code: seq!['I', 'O'], prefix: 246, lengths: seq![7u8] },
        CountryModel { code: seq!['A', 'C'], prefix: 247, lengths: seq![4u8] },
        CountryModel { code: seq!['S', 'D'], prefix: 249, lengths: seq![9u8] },
        CountryModel { code: seq!['R', 'W'], prefix: 250, lengths: seq![9u8] },
        CountryModel { code: seq!['D', 'J'], prefix: 253, lengths: seq![8u8] },
        CountryModel { code: seq!['B', 'I'], prefix: 257, lengths: seq![8u8] },
        CountryModel { code: seq!['M', 'Z'], prefix: 258, lengths: seq![9u8] },
        CountryModel { code: seq!['A', 'T'], prefix: 43, lengths: seq![10u8, 11u8] },
        CountryModel { code: seq!['B', 'E'], prefix: 32, lengths: seq![8u8, 9u8, 10u8] },
        CountryModel { code: seq!['A', 'R'], prefix: 54, lengths: seq![10u8] },
    ]
}

fn push_block_16(v: &mut Vec<Country>)
    ensures
        registry_view(final(v)@) == registry_view(old(v)@) + table_block_16(),
{
    proof {
        reveal_strlit("GW");
        reveal_strlit("IO");
        reveal_strlit("AC");
        reveal_strlit("SD");
        reveal_strlit("RW");
        reveal_strlit("DJ");
        reveal_strlit("BI");
        reveal_strlit("MZ");
        reveal_strlit("AT");
        reveal_strlit("BE");
        reveal_strlit("AR");
    }
    v.push(Country { name: "Guinea-Bissau", code: "GW", phone_lengths: lengths1(9), prefix: 245 });
    v.push(Country { name: "British Indian Ocean Territory", code: "IO", phone_lengths: lengths1(7), prefix: 246 });
    v.push(Country { name: "Ascension Island", code: "AC", phone_lengths: lengths1(4), prefix: 247 });
    v.push(Country { name: "Sudan", code: "SD", phone_lengths: lengths1(9), prefix: 249 });
    v.push(Country { name: "Rwanda", code: "RW", phone_lengths: lengths1(9), prefix: 250 });
    v.push(Country { name: "Djibouti", code: "DJ", phone_lengths: lengths1(8), prefix: 253 });
    v.push(Country { name: "Burundi", code: "BI", phone_lengths: lengths1(8), prefix: 257 });
    v.push(Country { name: "Mozambique", code: "MZ", phone_lengths: lengths1(9), prefix: 258 });
    v.push(Country { name: "Austria", code: "AT", phone_lengths: lengths2(10, 11), prefix: 43 });
    v.push(Country { name: "Belgium", code: "BE", phone_lengths: lengths3(8, 9, 10), prefix: 32 });
    v.push(Country { name: "Argentina", code: "AR", phone_lengths: lengths1(10), prefix: 54 });
    proof {
        assert(registry_view(v@) =~~= registry_view(old(v)@) + table_block_16());
    }
}

pub open spec fn table_block_17() -> Seq<CountryModel> {
    seq![
        CountryModel { code: seq!['R', 'U'], prefix: 7, lengths: seq![10u8] },
        CountryModel { code: seq!['N', 'Z'], prefix: 64, lengths: seq![8u8, 9u8] },
        CountryModel { code: seq!['E', 'S'], prefix: 34, lengths: seq![9u8] },
        CountryModel { code: seq!['I', 'T'], prefix: 39, lengths: seq![9u8, 10u8, 11u8] },
        CountryModel { code: seq!['N', 'L'], prefix: 31, lengths: seq![9u8] },
        CountryModel { code: seq!['C', 'H'], prefix: 41, lengths: seq![9u8] },
        CountryModel { code: seq!['S', 'E'], prefix: 46, lengths: seq![9u8, 10u8] },
        CountryModel { code: seq!['N', 'O'], prefix: 47, lengths: seq![8u8] },
        CountryModel { code: seq!['D', 'K'], prefix: 45, lengths: seq![8u8] },
        CountryModel { code: seq!['P', 'L'], prefix: 48, lengths: seq![9u8] },
        CountryModel { code: seq!['G', 'R'], prefix: 30, lengths: seq![10u8] },
    ]
}

fn push_block_17(v: &mut Vec<Country>)
    ensures
        registry_view(final(v)@) == registry_view(old(v)@) + table_block_17(),
{
    proof {
        reveal_strlit("RU");
        reveal_strlit("NZ");
        reveal_strlit("ES");
        reveal_strlit("IT");
        reveal_strlit("NL");
        reveal_strlit("CH");
        reveal_strlit("SE");
        reveal_strlit("NO");
        reveal_strlit("DK");
        reveal_strlit("PL");
        reveal_strlit("GR");
    }
    v.push(Country { name: "Russia", code: "RU", phone_lengths: lengths1(10), prefix: 7 });
    v.push(Country { name: "New Zealand", code: "NZ", phone_lengths: lengths2(8, 9), prefix: 64 });
    v.push(Country { name: "Spain", code: "ES", phone_lengths: lengths1(9), prefix: 34 });
    v.push(Country { name: "Italy", code: "IT", phone_lengths: lengths3(9, 10, 11), prefix: 39 });
    v.push(Country { name: "Netherlands", code: "NL", phone_lengths: lengths1(9), prefix: 31 });
    v.push(Country { name: "Switzerland", code: "CH", phone_lengths: lengths1(9), prefix: 41 });
    v.push(Country { name: "Sweden", code: "SE", phone_lengths: lengths2(9, 10), prefix: 46 });
    v.push(Country { name: "Norway", code: "NO", phone_lengths: lengths1(8), prefix: 47 });
    v.push(Country { name: "Denmark", code: "DK", phone_lengths: lengths1(8), prefix: 45 });
    v.push(Country { name: "Poland", code: "PL", phone_lengths: lengths1(9), prefix: 48 });
    v.push(Country { name: "Greece", code: "GR", phone_lengths: lengths1(10), prefix: 30 });
    proof {
        assert(registry_view(v@) =~~= registry_view(old(v)@) + table_block_17());
    }
}

pub open spec fn table_block_18() -> Seq<CountryModel> {
    seq![
        CountryModel { code: seq!['T', 'R'], prefix: 90, lengths: seq![10u8] },
        CountryModel { code: seq!['M', 'X'], prefix: 52, lengths: seq![10u8] },
        CountryModel { code: seq!['E', 'G'], prefix: 20, lengths: seq![10u8] },
        CountryModel { code: seq!['K', 'R'], prefix: 82, lengths: seq![9u8, 10u8] },
        CountryModel { code: seq!['I', 'D'], prefix: 62, lengths: seq![9u8, 10u8, 11u8] },
        CountryModel { code: seq!['H', 'U'], prefix: 36, lengths: seq![9u8] },
        CountryModel { code: seq!['R', 'O'], prefix: 40, lengths: seq![9u8] },
    ]
}

fn push_block_18(v: &mut Vec<Country>)
    ensures
        registry_view(final(v)@) == registry_view(old(v)@) + table_block_18(),
{
    proof {
        reveal_strlit("TR");
        reveal_strlit("MX");
        reveal_strlit("EG");
        reveal_strlit("KR");
        reveal_strlit("ID");
        reveal_strlit("HU");
        reveal_strlit("RO");
    }
    v.push(Country { name: "Turkey", code: "TR", phone_lengths: lengths1(10), prefix: 90 });
    v.push(Country { name: "Mexico", code: "MX", phone_lengths: lengths1(10), prefix: 52 });
    v.push(Country { name: "Egypt", code: "EG", phone_lengths: lengths1(10), prefix: 20 });
    v.push(Country { name: "South Korea", code: "KR", phone_lengths: lengths2(9, 10), prefix: 82 });
    v.push(Country { name: "Indonesia", code: "ID", phone_lengths: lengths3(9, 10, 11), prefix: 62 });
    v.push(Country { name: "Hungary", code: "HU", phone_lengths: lengths1(9), prefix: 36 });
    v.push(Country { name: "Romania", code: "RO", phone_lengths: lengths1(9), prefix: 40 });
    proof {
        assert(registry_view(v@) =~~= registry_view(old(v)@) + table_block_18());
    }
}

/// The full registry, as a mathematical sequence of rules. Table order is
/// part of the library's contract: resolution returns the first match.
pub open spec fn spec_countries() -> Seq<CountryModel> {
    table_block_0() + table_block_1() + table_block_2() + table_block_3() + table_block_4() + table_block_5() + table_block_6() + table_block_7() + table_block_8() + table_block_9() + table_block_10() + table_block_11() + table_block_12() + table_block_13() + table_block_14() + table_block_15() + table_block_16() + table_block_17() + table_block_18()
}

/// Builds the registry. Every public operation of the library consults the
/// table this function returns; its model is pinned to `spec_countries`.
pub fn countries() -> (v: Vec<Country>)
    ensures
        registry_view(v@) == spec_countries(),
{
    let mut v: Vec<Country> = Vec::new();
    push_block_0(&mut v);
    push_block_1(&mut v);
    push_block_2(&mut v);
    push_block_3(&mut v);
    push_block_4(&mut v);
    push_block_5(&mut v);
    push_block_6(&mut v);
    push_block_7(&mut v);
    push_block_8(&mut v);
    push_block_9(&mut v);
    push_block_10(&mut v);
    push_block_11(&mut v);
    push_block_12(&mut v);
    push_block_13(&mut v);
    push_block_14(&mut v);
    push_block_15(&mut v);
    push_block_16(&mut v);
    push_block_17(&mut v);
    push_block_18(&mut v);
    proof {
        assert(registry_view(v@) =~= spec_countries());
    }
    v
}

/// The registry is well formed.
pub proof fn lemma_countries_wf()
    ensures
        registry_wf(spec_countries()),
{
    assert forall|i: int| 0 <= i < spec_countries().len() implies country_wf(
        #[trigger] spec_countries()[i],
    ) by {
        if i == 0 { assert(country_wf(spec_countries()[0])); }
        if i == 1 { assert(country_wf(spec_countries()[1])); }
        if i == 2 { assert(country_wf(spec_countries()[2])); }
        if i == 3 { assert(country_wf(spec_countries()[3])); }
        if i == 4 { assert(country_wf(spec_countries()[4])); }
        if i == 5 { assert(country_wf(spec_countries()[5])); }
        if i == 6 { assert(country_wf(spec_countries()[6])); }
        if i == 7 { assert(country_wf(spec_countries()[7])); }
        if i == 8 { assert(country_wf(spec_countries()[8])); }
        if i == 9 { assert(country_wf(spec_countries()[9])); }
        if i == 10 { assert(country_wf(spec_countries()[10])); }
        if i == 11 { assert(country_wf(spec_countries()[11])); }
        if i == 12 { assert(country_wf(spec_countries()[12])); }
        if i == 13 { assert(country_wf(spec_countries()[13])); }
        if i == 14 { assert(country_wf(spec_countries()[14])); }
        if i == 15 { assert(country_wf(spec_countries()[15])); }
        if i == 16 { assert(country_wf(spec_countries()[16])); }
        if i == 17 { assert(country_wf(spec_countries()[17])); }
        if i == 18 { assert(country_wf(spec_countries()[18])); }
        if i == 19 { assert(country_wf(spec_countries()[19])); }
        if i == 20 { assert(country_wf(spec_countries()[20])); }
        if i == 21 { assert(country_wf(spec_countries()[21])); }
        if i == 22 { assert(country_wf(spec_countries()[22])); }
        if i == 23 { assert(country_wf(spec_countries()[23])); }
        if i == 24 { assert(country_wf(spec_countries()[24])); }
        if i == 25 { assert(country_wf(spec_countries()[25])); }
        if i == 26 { assert(country_wf(spec_countries()[26])); }
        if i == 27 { assert(country_wf(spec_countries()[27])); }
        if i == 28 { assert(country_wf(spec_countries()[28])); }
        if i == 29 { assert(country_wf(spec_countries()[29])); }
        if i == 30 { assert(country_wf(spec_countries()[30])); }
        if i == 31 { assert(country_wf(spec_countries()[31])); }
        if i == 32 { assert(country_wf(spec_countries()[32])); }
        if i == 33 { assert(country_wf(spec_countries()[33])); }
        if i == 34 { assert(country_wf(spec_countries()[34])); }
        if i == 35 { assert(country_wf(spec_countries()[35])); }
        if i == 36 { assert(country_wf(spec_countries()[36])); }
        if i == 37 { assert(country_wf(spec_countries()[37])); }
        if i == 38 { assert(country_wf(spec_countries()[38])); }
        if i == 39 { assert(country_wf(spec_countries()[39])); }
        if i == 40 { assert(country_wf(spec_countries()[40])); }
        if i == 41 { assert(country_wf(spec_countries()[41])); }
        if i == 42 { assert(country_wf(spec_countries()[42])); }
        if i == 43 { assert(country_wf(spec_countries()[43])); }
        if i == 44 { assert(country_wf(spec_countries()[44])); }
        if i == 45 { assert(country_wf(spec_countries()[45])); }
        if i == 46 { assert(country_wf(spec_countries()[46])); }
        if i == 47 { assert(country_wf(spec_countries()[47])); }
        if i == 48 { assert(country_wf(spec_countries()[48])); }
        if i == 49 { assert(country_wf(spec_countries()[49])); }
        if i == 50 { assert(country_wf(spec_countries()[50])); }
        if i == 51 { assert(country_wf(spec_countries()[51])); }
        if i == 52 { assert(country_wf(spec_countries()[52])); }
        if i == 53 { assert(country_wf(spec_countries()[53])); }
        if i == 54 { assert(country_wf(spec_countries()[54])); }
        if i == 55 { assert(country_wf(spec_countries()[55])); }
        if i == 56 { assert(country_wf(spec_countries()[56])); }
        if i == 57 { assert(country_wf(spec_countries()[57])); }
        if i == 58 { assert(country_wf(spec_countries()[58])); }
        if i == 59 { assert(country_wf(spec_countries()[59])); }
        if i == 60 { assert(country_wf(spec_countries()[60])); }
        if i == 61 { assert(country_wf(spec_countries()[61])); }
        if i == 62 { assert(country_wf(spec_countries()[62])); }
        if i == 63 { assert(country_wf(spec_countries()[63])); }
        if i == 64 { assert(country_wf(spec_countries()[64])); }
        if i == 65 { assert(country_wf(spec_countries()[65])); }
        if i == 66 { assert(country_wf(spec_countries()[66])); }
        if i == 67 { assert(country_wf(spec_countries()[67])); }
        if i == 68 { assert(country_wf(spec_countries()[68])); }
        if i == 69 { assert(country_wf(spec_countries()[69])); }
        if i == 70 { assert(country_wf(spec_countries()[70])); }
        if i == 71 { assert(country_wf(spec_countries()[71])); }
        if i == 72 { assert(country_wf(spec_countries()[72])); }
        if i == 73 { assert(country_wf(spec_countries()[73])); }
        if i == 74 { assert(country_wf(spec_countries()[74])); }
        if i == 75 { assert(country_wf(spec_countries()[75])); }
        if i == 76 { assert(country_wf(spec_countries()[76])); }
        if i == 77 { assert(country_wf(spec_countries()[77])); }
        if i == 78 { assert(country_wf(spec_countries()[78])); }
        if i == 79 { assert(country_wf(spec_countries()[79])); }
        if i == 80 { assert(country_wf(spec_countries()[80])); }
        if i == 81 { assert(country_wf(spec_countries()[81])); }
        if i == 82 { assert(country_wf(spec_countries()[82])); }
        if i == 83 { assert(country_wf(spec_countries()[83])); }
        if i == 84 { assert(country_wf(spec_countries()[84])); }
        if i == 85 { assert(country_wf(spec_countries()[85])); }
        if i == 86 { assert(country_wf(spec_countries()[86])); }
        if i == 87 { assert(country_wf(spec_countries()[87])); }
        if i == 88 { assert(country_wf(spec_countries()[88])); }
        if i == 89 { assert(country_wf(spec_countries()[89])); }
        if i == 90 { assert(country_wf(spec_countries()[90])); }
        if i == 91 { assert(country_wf(spec_countries()[91])); }
        if i == 92 { assert(country_wf(spec_countries()[92])); }
        if i == 93 { assert(country_wf(spec_countries()[93])); }
        if i == 94 { assert(country_wf(spec_countries()[94])); }
        if i == 95 { assert(country_wf(spec_countries()[95])); }
        if i == 96 { assert(country_wf(spec_countries()[96])); }
        if i == 97 { assert(country_wf(spec_countries()[97])); }
        if i == 98 { assert(country_wf(spec_countries()[98])); }
        if i == 99 { assert(country_wf(spec_countries()[99])); }
        if i == 100 { assert(country_wf(spec_countries()[100])); }
        if i == 101 { assert(country_wf(spec_countries()[101])); }
        if i == 102 { assert(country_wf(spec_countries()[102])); }
        if i == 103 { assert(country_wf(spec_countries()[103])); }
        if i == 104 { assert(country_wf(spec_countries()[104])); }
        if i == 105 { assert(country_wf(spec_countries()[105])); }
        if i == 106 { assert(country_wf(spec_countries()[106])); }
        if i == 107 { assert(country_wf(spec_countries()[107])); }
        if i == 108 { assert(country_wf(spec_countries()[108])); }
        if i == 109 { assert(country_wf(spec_countries()[109])); }
        if i == 110 { assert(country_wf(spec_countries()[110])); }
        if i == 111 { assert(country_wf(spec_countries()[111])); }
        if i == 112 { assert(country_wf(spec_countries()[112])); }
        if i == 113 { assert(country_wf(spec_countries()[113])); }
        if i == 114 { assert(country_wf(spec_countries()[114])); }
        if i == 115 { assert(country_wf(spec_countries()[115])); }
        if i == 116 { assert(country_wf(spec_countries()[116])); }
        if i == 117 { assert(country_wf(spec_countries()[117])); }
        if i == 118 { assert(country_wf(spec_countries()[118])); }
        if i == 119 { assert(country_wf(spec_countries()[119])); }
        if i == 120 { assert(country_wf(spec_countries()[120])); }
        if i == 121 { assert(country_wf(spec_countries()[121])); }
        if i == 122 { assert(country_wf(spec_countries()[122])); }
        if i == 123 { assert(country_wf(spec_countries()[123])); }
        if i == 124 { assert(country_wf(spec_countries()[124])); }
        if i == 125 { assert(country_wf(spec_countries()[125])); }
        if i == 126 { assert(country_wf(spec_countries()[126])); }
        if i == 127 { assert(country_wf(spec_countries()[127])); }
        if i == 128 { assert(country_wf(spec_countries()[128])); }
        if i == 129 { assert(country_wf(spec_countries()[129])); }
        if i == 130 { assert(country_wf(spec_countries()[130])); }
        if i == 131 { assert(country_wf(spec_countries()[131])); }
        if i == 132 { assert(country_wf(spec_countries()[132])); }
        if i == 133 { assert(country_wf(spec_countries()[133])); }
        if i == 134 { assert(country_wf(spec_countries()[134])); }
        if i == 135 { assert(country_wf(spec_countries()[135])); }
        if i == 136 { assert(country_wf(spec_countries()[136])); }
        if i == 137 { assert(country_wf(spec_countries()[137])); }
        if i == 138 { assert(country_wf(spec_countries()[138])); }
        if i == 139 { assert(country_wf(spec_countries()[139])); }
        if i == 140 { assert(country_wf(spec_countries()[140])); }
        if i == 141 { assert(country_wf(spec_countries()[141])); }
        if i == 142 { assert(country_wf(spec_countries()[142])); }
        if i == 143 { assert(country_wf(spec_countries()[143])); }
        if i == 144 { assert(country_wf(spec_countries()[144])); }
        if i == 145 { assert(country_wf(spec_countries()[145])); }
        if i == 146 { assert(country_wf(spec_countries()[146])); }
        if i == 147 { assert(country_wf(spec_countries()[147])); }
        if i == 148 { assert(country_wf(spec_countries()[148])); }
        if i == 149 { assert(country_wf(spec_countries()[149])); }
        if i == 150 { assert(country_wf(spec_countries()[150])); }
        if i == 151 { assert(country_wf(spec_countries()[151])); }
        if i == 152 { assert(country_wf(spec_countries()[152])); }
        if i == 153 { assert(country_wf(spec_countries()[153])); }
        if i == 154 { assert(country_wf(spec_countries()[154])); }
        if i == 155 { assert(country_wf(spec_countries()[155])); }
        if i == 156 { assert(country_wf(spec_countries()[156])); }
        if i == 157 { assert(country_wf(spec_countries()[157])); }
        if i == 158 { assert(country_wf(spec_countries()[158])); }
        if i == 159 { assert(country_wf(spec_countries()[159])); }
        if i == 160 { assert(country_wf(spec_countries()[160])); }
        if i == 161 { assert(country_wf(spec_countries()[161])); }
        if i == 162 { assert(country_wf(spec_countries()[162])); }
        if i == 163 { assert(country_wf(spec_countries()[163])); }
        if i == 164 { assert(country_wf(spec_countries()[164])); }
        if i == 165 { assert(country_wf(spec_countries()[165])); }
        if i == 166 { assert(country_wf(spec_countries()[166])); }
        if i == 167 { assert(country_wf(spec_countries()[167])); }
        if i == 168 { assert(country_wf(spec_countries()[168])); }
        if i == 169 { assert(country_wf(spec_countries()[169])); }
        if i == 170 { assert(country_wf(spec_countries()[170])); }
        if i == 171 { assert(country_wf(spec_countries()[171])); }
        if i == 172 { assert(country_wf(spec_countries()[172])); }
        if i == 173 { assert(country_wf(spec_countries()[173])); }
        if i == 174 { assert(country_wf(spec_countries()[174])); }
        if i == 175 { assert(country_wf(spec_countries()[175])); }
        if i == 176 { assert(country_wf(spec_countries()[176])); }
        if i == 177 { assert(country_wf(spec_countries()[177])); }
        if i == 178 { assert(country_wf(spec_countries()[178])); }
        if i == 179 { assert(country_wf(spec_countries()[179])); }
        if i == 180 { assert(country_wf(spec_countries()[180])); }
        if i == 181 { assert(country_wf(spec_countries()[181])); }
        if i == 182 { assert(country_wf(spec_countries()[182])); }
        if i == 183 { assert(country_wf(spec_countries()[183])); }
        if i == 184 { assert(country_wf(spec_countries()[184])); }
        if i == 185 { assert(country_wf(spec_countries()[185])); }
        if i == 186 { assert(country_wf(spec_countries()[186])); }
        if i == 187 { assert(country_wf(spec_countries()[187])); }
        if i == 188 { assert(country_wf(spec_countries()[188])); }
        if i == 189 { assert(country_wf(spec_countries()[189])); }
        if i == 190 { assert(country_wf(spec_countries()[190])); }
        if i == 191 { assert(country_wf(spec_countries()[191])); }
        if i == 192 { assert(country_wf(spec_countries()[192])); }
        if i == 193 { assert(country_wf(spec_countries()[193])); }
        if i == 194 { assert(country_wf(spec_countries()[194])); }
        if i == 195 { assert(country_wf(spec_countries()[195])); }
        if i == 196 { assert(country_wf(spec_countries()[196])); }
        if i == 197 { assert(country_wf(spec_countries()[197])); }
        if i == 198 { assert(country_wf(spec_countries()[198])); }
        if i == 199 { assert(country_wf(spec_countries()[199])); }
        if i == 200 { assert(country_wf(spec_countries()[200])); }
        if i == 201 { assert(country_wf(spec_countries()[201])); }
        if i == 202 { assert(country_wf(spec_countries()[202])); }
        if i == 203 { assert(country_wf(spec_countries()[203])); }
        if i == 204 { assert(country_wf(spec_countries()[204])); }
    }
}

} // verus!
