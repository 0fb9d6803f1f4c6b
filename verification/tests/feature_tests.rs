//! Formatting, classification, batch helpers, corrections, hints and
//! generated test data, checked on concrete values.

use phonelib::PhoneFormat;
use phonelib::PhoneNumberType;
use phonelib::analyze_phone_numbers_batch;
use phonelib::count_in_text;
use phonelib::detect_phone_number_type;
use phonelib::detect_phone_number_types_batch;
use phonelib::extract_countries_batch;
use phonelib::extract_valid_only;
use phonelib::extract_with_country_hint;
use phonelib::format_phone_number;
use phonelib::generate_phone_number_with_seed;
use phonelib::generate_random_phone_number;
use phonelib::generate_random_phone_numbers;
use phonelib::group_equivalent_phone_numbers;
use phonelib::guess_country_from_number;
use phonelib::is_landline_number;
use phonelib::is_mobile_number;
use phonelib::is_potentially_valid_phone_number;
use phonelib::is_toll_free_number;
use phonelib::normalize_phone_number;
use phonelib::normalize_phone_numbers_batch;
use phonelib::suggest_phone_number_corrections;
use phonelib::validate_phone_numbers_batch;

#[test]
fn normalization_scenarios() {
    assert_eq!(
        normalize_phone_number("12025550173".to_string()),
        Some("+12025550173".to_string())
    );
    assert_eq!(
        normalize_phone_number("+1 (202) 555-0173".to_string()),
        Some("+12025550173".to_string())
    );
    assert_eq!(
        normalize_phone_number("+0012345678912".to_string()),
        Some("+12345678912".to_string())
    );
    assert_eq!(normalize_phone_number("+999".to_string()), None);
}

#[test]
fn formats_render_every_style() {
    let number = "+12025550173".to_string();
    assert_eq!(
        format_phone_number(number.clone(), PhoneFormat::E164),
        Some("+12025550173".to_string())
    );
    assert_eq!(
        format_phone_number(number.clone(), PhoneFormat::International),
        Some("+1 (202) 555-0173".to_string())
    );
    assert_eq!(
        format_phone_number(number.clone(), PhoneFormat::National),
        Some("(202) 555-0173".to_string())
    );
    assert_eq!(
        format_phone_number(number, PhoneFormat::RFC3966),
        Some("tel:+1-202-555-017-3".to_string())
    );
    // British grouping: four, three, rest
    assert_eq!(
        format_phone_number("+442079460958".to_string(), PhoneFormat::National),
        Some("2079 460 958".to_string())
    );
    // generic grouping splits at the midpoint
    assert_eq!(
        format_phone_number("+96179123123".to_string(), PhoneFormat::International),
        Some("+961 7912 3123".to_string())
    );
    assert_eq!(
        format_phone_number("not a number".to_string(), PhoneFormat::E164),
        None
    );
}

#[test]
fn classification_follows_the_tables() {
    assert_eq!(
        detect_phone_number_type("+12025550173".to_string()),
        Some(PhoneNumberType::FixedLine)
    );
    assert_eq!(
        detect_phone_number_type("+18005551234".to_string()),
        Some(PhoneNumberType::TollFree)
    );
    assert_eq!(
        detect_phone_number_type("+33612345678".to_string()),
        Some(PhoneNumberType::Mobile)
    );
    assert_eq!(
        detect_phone_number_type("+4915112345678".to_string()),
        Some(PhoneNumberType::Mobile)
    );
    assert_eq!(detect_phone_number_type("bad".to_string()), None);
    assert!(is_mobile_number("+33612345678".to_string()));
    assert!(is_landline_number("+12025550173".to_string()));
    assert!(is_toll_free_number("+18005551234".to_string()));
    assert!(!is_mobile_number("+12025550173".to_string()));
}

#[test]
fn batches_keep_order_and_length() {
    let numbers = vec![
        "+12025550173".to_string(),
        "invalid".to_string(),
        "12025550173".to_string(),
    ];
    assert_eq!(
        validate_phone_numbers_batch(numbers.clone()),
        vec![true, false, true]
    );
    assert_eq!(
        normalize_phone_numbers_batch(numbers.clone()),
        vec![
            Some("+12025550173".to_string()),
            None,
            Some("+12025550173".to_string()),
        ]
    );
    let countries = extract_countries_batch(numbers.clone());
    assert_eq!(countries.len(), 3);
    assert_eq!(countries[0].as_ref().unwrap().code, "US");
    assert!(countries[1].is_none());
    let types = detect_phone_number_types_batch(numbers.clone());
    assert_eq!(
        types,
        vec![Some(PhoneNumberType::FixedLine), None, Some(PhoneNumberType::FixedLine)]
    );
    let analyses = analyze_phone_numbers_batch(numbers);
    assert_eq!(analyses.len(), 3);
    assert_eq!(analyses[0].original, "+12025550173");
    assert!(analyses[0].is_valid);
    assert_eq!(analyses[0].normalized, Some("+12025550173".to_string()));
    assert_eq!(analyses[0].country.as_ref().unwrap().code, "US");
    assert_eq!(analyses[0].phone_type, Some(PhoneNumberType::FixedLine));
    assert!(!analyses[1].is_valid);
    assert_eq!(analyses[1].normalized, None);
}

#[test]
fn grouping_collects_equivalent_numbers_in_order() {
    let groups = group_equivalent_phone_numbers(vec![
        "+12025550173".to_string(),
        "+442079460958".to_string(),
        "1 (202) 555-0173".to_string(),
    ]);
    assert_eq!(groups.len(), 2);
    assert_eq!(
        groups[0],
        vec!["+12025550173".to_string(), "1 (202) 555-0173".to_string()]
    );
    assert_eq!(groups[1], vec!["+442079460958".to_string()]);
}

#[test]
fn corrections_come_sorted_and_capped() {
    // a valid number suggests itself
    assert_eq!(
        suggest_phone_number_corrections("+12025550173".to_string(), None),
        vec!["+12025550173".to_string()]
    );
    // nine digits with a US hint: every prepended digit validates, the
    // five lexicographically first survive the cap
    assert_eq!(
        suggest_phone_number_corrections("123456789".to_string(), Some("US")),
        vec![
            "+10123456789".to_string(),
            "+11123456789".to_string(),
            "+12123456789".to_string(),
            "+13123456789".to_string(),
            "+14123456789".to_string(),
        ]
    );
    // an unknown hint yields no suggestion
    assert_eq!(
        suggest_phone_number_corrections("123456789".to_string(), Some("ZZ")),
        Vec::<String>::new()
    );
}

#[test]
fn plausibility_checks_digit_count_and_content() {
    assert!(is_potentially_valid_phone_number("123-456-7890".to_string()));
    assert!(!is_potentially_valid_phone_number("12345".to_string()));
    assert!(!is_potentially_valid_phone_number("000-0000".to_string()));
    assert!(!is_potentially_valid_phone_number(
        "1234567890123456".to_string()
    ));
}

#[test]
fn guessing_prefers_resolution_then_shape() {
    assert_eq!(
        guess_country_from_number("+12025550173".to_string())
            .unwrap()
            .code,
        "US"
    );
    // ten digits with no matching rule fall back to the US shape
    assert_eq!(
        guess_country_from_number("2025550173".to_string())
            .unwrap()
            .code,
        "US"
    );
    assert_eq!(guess_country_from_number("12".to_string()), None);
    assert_eq!(guess_country_from_number("".to_string()), None);
}

#[test]
fn seeded_generation_is_reproducible() {
    assert_eq!(
        generate_phone_number_with_seed("US", 42),
        Some("+19775073233".to_string())
    );
    assert_eq!(
        generate_phone_number_with_seed("US", 7),
        Some("+18828714251".to_string())
    );
    assert_eq!(generate_phone_number_with_seed("ZZ", 42), None);
}

#[test]
fn random_numbers_have_the_country_shape() {
    let number = generate_random_phone_number("US").unwrap();
    assert!(number.starts_with("+1"));
    assert_eq!(number.len(), 12);
    assert!(number[1..].chars().all(|c| c.is_ascii_digit()));
    assert_eq!(generate_random_phone_number("ZZ"), None);

    let many = generate_random_phone_numbers("US", 3);
    assert_eq!(many.len(), 3);
    for n in many.iter() {
        assert!(n.starts_with("+1"));
        assert_eq!(n.len(), 12);
    }
    assert_eq!(generate_random_phone_numbers("ZZ", 3), Vec::<String>::new());
}

#[test]
fn extraction_scenarios() {
    let found = extract_all_from_text("Call me at +12025550173 or +442079460958");
    assert_eq!(found.len(), 2);
    assert!(found[0].raw_substring.contains("12025550173"));
    assert!(found[1].raw_substring.contains("442079460958"));
    assert!(found[0].is_valid);
    assert!(found[1].is_valid);
    assert_eq!(found[0].normalized, Some("+12025550173".to_string()));

    let valid = extract_valid_only("ok +12025550173, junk 123456789012345");
    assert_eq!(valid.len(), 1);
    assert_eq!(valid[0].raw_substring, "+12025550173");

    assert_eq!(count_in_text("Call me at +12025550173 or +442079460958"), 2);
    assert_eq!(count_in_text("no numbers here"), 0);
}

use phonelib::extract_all_from_text;
use phonelib::redact;
use phonelib::replace_in_text;

#[test]
fn redaction_masks_all_but_trailing_digits() {
    assert_eq!(
        redact("Call +12025550173 now", 4),
        "Call +*******0173 now".to_string()
    );
    assert_eq!(redact("num 12345678!", 20), "num [redacted]!".to_string());
    assert_eq!(redact("no numbers here", 2), "no numbers here".to_string());
}

#[test]
fn replacement_splices_transformed_candidates() {
    assert_eq!(
        replace_in_text("Call +12025550173 now", |_c| "<tel>".to_string()),
        "Call <tel> now".to_string()
    );
    assert_eq!(
        replace_in_text("a +12025550173 b 12025550173 c", |c| {
            c.normalized.clone().unwrap_or_default()
        }),
        "a +12025550173 b +12025550173 c".to_string()
    );
}

#[test]
fn country_hint_rescues_national_numbers() {
    let found = extract_with_country_hint("0645342545", "FR");
    assert_eq!(found.len(), 1);
    assert_eq!(found[0].normalized, Some("+33645342545".to_string()));
    assert!(found[0].is_valid);
    // the hint changes nothing for numbers that already normalize
    let untouched = extract_with_country_hint("+12025550173", "FR");
    assert_eq!(untouched.len(), 1);
    assert_eq!(untouched[0].normalized, Some("+12025550173".to_string()));
    // an unknown hint leaves the failure in place
    let unknown = extract_with_country_hint("0645342545", "ZZ");
    assert_eq!(unknown.len(), 1);
    assert_eq!(unknown[0].normalized, None);
    assert!(!unknown[0].is_valid);
}
