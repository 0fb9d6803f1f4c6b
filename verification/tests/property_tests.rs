//! Concrete checks of the library's laws: idempotence of normalization,
//! the validity round-trip, equality as an equivalence, deterministic
//! country resolution, and the scanner's span guarantees.

use phonelib::are_phone_numbers_equal;
use phonelib::extract_all_from_text;
use phonelib::extract_country;
use phonelib::is_valid_phone_number;
use phonelib::normalize_phone_number;

#[test]
fn normalize_is_idempotent_on_valid_inputs() {
    for raw in [
        "+1 (202) 555-0173",
        "12025550173",
        "+0012345678912",
        "+442079460958",
        "+96179123123",
    ] {
        let once = normalize_phone_number(raw.to_string()).unwrap();
        let twice = normalize_phone_number(once.clone());
        assert_eq!(twice, Some(once));
    }
}

#[test]
fn validity_matches_normalization() {
    // inputs that pass the character filter
    for raw in ["+12025550173", "12025550173", "+1 (234) 567-890", "0000000"] {
        assert_eq!(
            is_valid_phone_number(raw.to_string()),
            normalize_phone_number(raw.to_string()).is_some()
        );
    }
    // inputs that fail the filter are invalid regardless of digit content
    for raw in ["+1202555x0173", "call 12025550173", "(1203) 555-0173)"] {
        assert!(!is_valid_phone_number(raw.to_string()));
        assert_eq!(normalize_phone_number(raw.to_string()), None);
    }
}

#[test]
fn equality_is_an_equivalence_on_valid_numbers() {
    let a = "+12025550173";
    let b = "1 (202) 555-0173";
    let c = "+1-202-555-0173";
    // reflexive and symmetric on the valid subset
    assert!(are_phone_numbers_equal(a.to_string(), a.to_string()));
    assert!(are_phone_numbers_equal(a.to_string(), b.to_string()));
    assert!(are_phone_numbers_equal(b.to_string(), a.to_string()));
    // transitive
    assert!(are_phone_numbers_equal(b.to_string(), c.to_string()));
    assert!(are_phone_numbers_equal(a.to_string(), c.to_string()));
    // any pair with an invalid side is unequal, even two invalid sides
    assert!(!are_phone_numbers_equal(a.to_string(), "invalid".to_string()));
    assert!(!are_phone_numbers_equal("invalid".to_string(), "invalid".to_string()));
}

#[test]
fn country_resolution_is_deterministic() {
    for raw in ["+12025550173", "+442079460958", "+987654321"] {
        let first = extract_country(raw.to_string());
        let second = extract_country(raw.to_string());
        assert_eq!(first, second);
    }
}

#[test]
fn scanner_spans_are_increasing_and_non_overlapping() {
    let text = "Call +12025550173, then (202) 555-0199 x 442079460958 or +33 6 45 34 25 45.";
    let candidates = extract_all_from_text(text);
    assert!(candidates.len() >= 2);
    for window in candidates.windows(2) {
        assert!(window[0].byte_end <= window[1].byte_start);
        assert!(window[0].byte_start < window[0].byte_end);
    }
    for candidate in candidates.iter() {
        assert!(candidate.byte_end <= text.len());
        // the byte span re-slices the original text to the raw substring
        assert_eq!(
            &text[candidate.byte_start..candidate.byte_end],
            candidate.raw_substring.as_str()
        );
    }
}

#[test]
fn scanner_candidates_have_at_least_seven_digits() {
    let text = "short: 123-456, zip 12345, ok: 1234567, long +12025550173 and 20 55 more";
    let candidates = extract_all_from_text(text);
    assert!(!candidates.is_empty());
    for candidate in candidates.iter() {
        let digits = candidate
            .raw_substring
            .chars()
            .filter(|c| c.is_ascii_digit())
            .count();
        assert!(digits >= 7);
    }
}

#[test]
fn scanner_reports_byte_offsets_in_unicode_text() {
    let text = "\u{260e} +12025550173!";
    let candidates = extract_all_from_text(text);
    assert_eq!(candidates.len(), 1);
    assert_eq!(candidates[0].byte_start, 4);
    assert_eq!(candidates[0].byte_end, 16);
    assert_eq!(&text[4..16], "+12025550173");
    assert!(candidates[0].is_valid);
}
