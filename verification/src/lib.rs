//! Verified phone-number library: validation, normalization, country
//! resolution, classification, formatting, and extraction of phone numbers
//! from free-form text, all driven by an immutable table of country dialing
//! rules. Every operation is a pure function of its input and the table;
//! table order is the deliberate tie-breaker when two rules share a prefix.

pub mod batch;
pub mod chars;
pub mod classify;
pub mod digits;
pub mod filter;
pub mod format;
pub mod normalize;
pub mod random;
pub mod registry;
pub mod resolve;
pub mod scan;
pub mod suggest;

pub use batch::PhoneNumberAnalysis;
pub use batch::analyze_phone_numbers_batch;
pub use batch::detect_phone_number_types_batch;
pub use batch::extract_countries_batch;
pub use batch::group_equivalent_phone_numbers;
pub use batch::normalize_phone_numbers_batch;
pub use batch::validate_phone_numbers_batch;
pub use classify::PhoneNumberType;
pub use classify::detect_phone_number_type;
pub use classify::is_landline_number;
pub use classify::is_mobile_number;
pub use classify::is_toll_free_number;
pub use format::PhoneFormat;
pub use format::format_phone_number;
pub use normalize::are_phone_numbers_equal;
pub use normalize::is_potentially_valid_phone_number;
pub use normalize::is_valid_phone_number;
pub use normalize::normalize_phone_number;
pub use normalize::normalize_phone_number_in_place;
pub use random::generate_phone_number_with_seed;
pub use random::generate_random_phone_number;
pub use random::generate_random_phone_numbers;
pub use registry::Country;
pub use registry::countries;
pub use resolve::extract_country;
pub use resolve::guess_country_from_number;
pub use scan::ExtractedCandidate;
pub use scan::count_in_text;
pub use scan::extract_all_from_text;
pub use scan::extract_valid_only;
pub use scan::extract_with_country_hint;
pub use scan::redact;
pub use scan::replace_in_text;
pub use suggest::suggest_phone_number_corrections;
