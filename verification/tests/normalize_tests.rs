//! The library's normalization, validation and country-resolution
//! behavior on a broad sample of international numbers.

use phonelib::extract_country;
use phonelib::is_valid_phone_number;
use phonelib::normalize_phone_number;
use phonelib::normalize_phone_number_in_place;

#[test]
fn test_is_valid_phone_number() {
    // Valid phone number
    assert!(is_valid_phone_number("+96179123123".to_string()));
    assert!(!is_valid_phone_number("invalid_phone_number".to_string()));
    // Valid phone number with parentheses
    assert!(is_valid_phone_number("+1 (234) 567-8990".to_string()));
    assert!(!is_valid_phone_number("+1 (234) 567-890".to_string()));
}

#[test]
fn test_normalize_phone_number_in_place() {
    // Valid phone number
    assert_eq!(
        normalize_phone_number_in_place(&mut "+12345678912".to_string()),
        Some("+12345678912".to_string())
    );
    // Invalid characters
    assert_eq!(
        normalize_phone_number_in_place(&mut "invalid_phone_number".to_string()),
        None
    );
    // Valid phone number with leading zeros
    assert_eq!(
        normalize_phone_number_in_place(&mut "+0012345678912".to_string()),
        Some("+12345678912".to_string())
    );
    assert_eq!(
        normalize_phone_number_in_place(&mut "+96109123123".to_string()),
        Some("+9619123123".to_string())
    );
    // Valid phone number with country code and leading zeros
    assert_eq!(
        normalize_phone_number_in_place(&mut "+0012345678901".to_string()),
        Some("+12345678901".to_string())
    );
    // Valid phone number with parentheses and spaces
    assert_eq!(
        normalize_phone_number_in_place(&mut "+1 (234) 567-8910".to_string()),
        Some("+12345678910".to_string())
    );
}

#[test]
fn test_extract_country() {
    // Valid country code
    assert_eq!(
        extract_country("+11231231232".to_string())
            .unwrap()
            .code
            .to_string(),
        "US".to_string()
    );
    // Invalid country code
    assert_eq!(extract_country("+987654321".to_string()), None);
}

#[test]
fn test_normalize_phone_number() {
    let phone_numbers: Vec<(&str, &str)> = vec![
        ("US", "+12025550173"),
        ("GB", "+442079460958"),
        ("IN", "+919876543210"),
        ("DE", "+493012345678"),
        ("AU", "+61412345678"),
        ("CN", "+8613800138000"),
        ("FR", "+33123456789"),
        ("BR", "+5511912345678"),
        ("JP", "+819012345678"),
        ("ZA", "+27821234567"),
        ("LB", "+96179123123"),
        ("SY", "+963944567890"),
        ("IQ", "+9647901234567"),
        ("KW", "+96550012345"),
        ("SA", "+966512345678"),
        ("YE", "+967711234567"),
        ("OM", "+96892123456"),
        ("PS", "+970599123456"),
        ("AE", "+971501234567"),
        ("IL", "+972501234567"),
        ("BH", "+97336012345"),
        ("QA", "+97433123456"),
        ("BT", "+97517123456"),
        ("MN", "+97699123456"),
        ("NP", "+9779841234567"),
        ("IR", "+989123456789"),
        ("TJ", "+992931234567"),
        ("TM", "+99365123456"),
        ("AZ", "+994401234567"),
        ("GE", "+995591234567"),
        ("KG", "+996551234567"),
        ("UZ", "+998971234567"),
        ("BS", "+12425571234"),
        ("BB", "+12462311234"),
        ("AI", "+12642351234"),
        ("AG", "+12684641234"),
        ("VG", "+12844681234"),
        ("VI", "+13406901234"),
        ("KY", "+13453211234"),
        ("BM", "+14412341234"),
        ("GD", "+14732341234"),
        ("TC", "+16492311234"),
        ("MS", "+16642351234"),
        ("MP", "+16702351234"),
        ("GU", "+16712351234"),
        ("AS", "+16842351234"),
        ("SX", "+17215431234"),
        ("LC", "+17582841234"),
        ("DM", "+17672351234"),
        ("VC", "+17842351234"),
        ("PR", "+17872351234"),
        ("DO", "+18092351234"),
        ("DO", "+18292351234"),
        ("DO", "+18492351234"),
        ("TT", "+18682351234"),
        ("KN", "+18692351234"),
        ("JM", "+18762351234"),
        ("RE", "+262692691234"),
        ("ZW", "+263772112345"),
        ("NA", "+264601234567"),
        ("MW", "+265991234567"),
        ("LS", "+26662012345"),
        ("BW", "+26771123456"),
        ("SZ", "+26876123456"),
        ("KM", "+2693112345"),
        ("SH", "+29022123"),
        ("ER", "+2917111234"),
        ("AW", "+2975601234"),
        ("FO", "+298201234"),
        ("GL", "+299201234"),
        ("GI", "+35056012345"),
        ("PT", "+351201234567"),
        ("LU", "+35220123456"),
        ("IE", "+353201234567"),
        ("IS", "+3544101234"),
        ("AL", "+355691234567"),
        ("MT", "+35679012345"),
        ("CY", "+35796123456"),
        ("FI", "+358201234567"),
        ("BG", "+35920123456"),
        ("LT", "+37061234567"),
        ("LV", "+37120123456"),
        ("EE", "+37251234567"),
        ("MD", "+37368123456"),
        ("AM", "+37491234567"),
        ("BY", "+375291234567"),
        ("AD", "+376312345"),
        ("MC", "+37761234567"),
        ("SM", "+378661234567"),
        ("VA", "+379612345678"),
        ("UA", "+380501234567"),
        ("RS", "+381601234567"),
        ("ME", "+38267123456"),
        ("HR", "+385911234567"),
        ("SI", "+38631234567"),
        ("BA", "+38761123456"),
        ("MK", "+38970123456"),
        ("CZ", "+420601123456"),
        ("SK", "+421912345678"),
        ("LI", "+4236608811"),
        ("FK", "+50051234"),
        ("BZ", "+5018221234"),
        ("GT", "+50251234567"),
        ("SV", "+50370123456"),
        ("HN", "+50491234567"),
        ("NI", "+50581234567"),
        ("CR", "+50670123456"),
        ("PA", "+50761234567"),
        ("PM", "+50850123456"),
        ("HT", "+50928123456"),
        ("GP", "+590590123456"),
        ("BO", "+59171234567"),
        ("GY", "+5926091234"),
        ("EC", "+593991234567"),
        ("GF", "+594694201234"),
        ("PY", "+595961456789"),
        ("MQ", "+596696201234"),
        ("SR", "+5977412345"),
        ("UY", "+59894231234"),
        ("CW", "+59995181234"),
        ("TL", "+67077231234"),
        ("NF", "+672312345"),
        ("BN", "+6737123456"),
        ("NR", "+6745571234"),
        ("PG", "+67570123456"),
        ("TO", "+67677151234"),
        ("SB", "+67762123"),
        ("VU", "+67824612"),
        ("FJ", "+6797012345"),
        ("PW", "+6806201234"),
        ("WF", "+681501234"),
        ("CK", "+68222123"),
        ("KI", "+68660123"),
        ("NC", "+687501234"),
        ("TV", "+688901234"),
        ("PF", "+68987123456"),
        ("TK", "+6903012"),
        ("FM", "+6913501234"),
        ("MH", "+6922471234"),
        ("KP", "+8501912345678"),
        ("HK", "+85251234567"),
        ("MO", "+85366123456"),
        ("KH", "+85512345678"),
        ("LA", "+85620911234"),
        ("BD", "+8801812345678"),
        ("TW", "+886912345678"),
        ("MV", "+9607712345"),
        ("JO", "+962791234567"),
        ("SG", "+6581234567"),
        ("MY", "+60121234567"),
        ("PH", "+639171234567"),
        ("TH", "+66812345678"),
        ("VN", "+84912345678"),
        ("PK", "+923001234567"),
        ("LK", "+94771234567"),
        ("AF", "+93700123456"),
        ("MM", "+959123456789"),
        ("KZ", "+77012345678"),
        ("UZ", "+998901234567"),
        ("TJ", "+992551234567"),
        ("KG", "+996701234567"),
        ("TM", "+993651234567"),
        ("MN", "+97688123456"),
        ("NP", "+9779812345678"),
        ("BT", "+97517123456"),
        ("AM", "+37494123456"),
        ("AZ", "+994501234567"),
        ("GE", "+995555123456"),
        ("TM", "+99312123456"),
        ("AE", "+971501234567"),
        ("BH", "+97333123456"),
        ("QA", "+97450123456"),
        ("KW", "+96550123456"),
        ("OM", "+96892123456"),
        ("YE", "+967711234567"),
        ("SO", "+252615123456"),
        ("KE", "+254701234567"),
        ("TZ", "+255621234567"),
        ("UG", "+256701234567"),
        ("ET", "+251911234567"),
        ("NG", "+234701234567"),
        ("GH", "+233501234567"),
        ("SN", "+221771234567"),
        ("CI", "+22551234567"),
        ("ML", "+22365123456"),
        ("ZM", "+260961234567"),
        ("ZW", "+263771234567"),
        ("BW", "+26772123456"),
        ("NA", "+264811234567"),
        ("MG", "+261341234567"),
        ("RE", "+262692123456"),
        ("MU", "+23057123456"),
        ("SC", "+2482512345"),
        ("MW", "+265991234567"),
        ("LS", "+26650123456"),
        ("SZ", "+26876123456"),
        ("CV", "+2389912345"),
        ("ST", "+2399912345"),
        ("GQ", "+240222123456"),
        ("CD", "+243991234567"),
        ("AO", "+244921234567"),
        ("GW", "+245501234511"),
        ("IO", "+2463801234"),
        ("AC", "+2473612"),
        ("SC", "+2482512345"),
        ("SD", "+249911231234"),
        ("RW", "+250720123456"),
        ("SO", "+252615123456"),
        ("DJ", "+25377123123"),
        ("BI", "+25779123456"),
        ("MZ", "+258821234567")
    ];

    for (country_code, phone_number) in phone_numbers.iter() {
        let normalized_phone_number = normalize_phone_number(phone_number.to_string());
        assert_eq!(normalized_phone_number, Some(phone_number.to_string()));
        // Use country_code to avoid dead_code warning
        assert!(!country_code.is_empty());
    }

    assert_eq!(
        normalize_phone_number("invalid_phone_number".to_string()),
        None
    );
}

#[test]
fn test_cases() {
    let test_cases = vec![
        (String::from("+61485906541"), true),
        (String::from("+4306935893571"), true),
        (String::from("+32468799972"), true),
        (String::from("+5561981737725"), true),
        (String::from("+44 7406514755"), true),
        (String::from("+54 9119298464"), true),
        (String::from("+61 4129228042"), true),
        (String::from("+43 6642428349"), true),
        (String::from("+32 4706460538"), true),
        (String::from("+420 601139706"), true),
    ];

    for (phone, valid) in test_cases {
        let is_valid = is_valid_phone_number(phone.clone());
        assert_eq!(is_valid, valid);
    }
}
