use savepatch::{i64_to_string, json_id_matches, parse_i64, Json};

#[test]
fn int_id_matches_canonical_rendering() {
    assert!(json_id_matches(&Json::Int(7), "7"));
    assert!(json_id_matches(&Json::Int(-42), "-42"));
    assert!(!json_id_matches(&Json::Int(7), "07"));
    assert!(!json_id_matches(&Json::Int(7), "8"));
    assert!(!json_id_matches(&Json::Int(7), "+7"));
    assert!(!json_id_matches(&Json::Int(7), ""));
}

#[test]
fn string_id_matches_itself() {
    assert!(json_id_matches(&Json::Str("abc".to_string()), "abc"));
    assert!(!json_id_matches(&Json::Str("abc".to_string()), "abd"));
    assert!(!json_id_matches(&Json::Str("7 ".to_string()), "7"));
}

#[test]
fn carried_number_matches_its_rendering() {
    assert!(json_id_matches(&Json::Num("12.5".to_string()), "12.5"));
    assert!(!json_id_matches(&Json::Num("12.5".to_string()), "12.50"));
}

#[test]
fn non_scalar_ids_never_match() {
    assert!(!json_id_matches(&Json::Null, ""));
    assert!(!json_id_matches(&Json::Bool(true), "true"));
    assert!(!json_id_matches(&Json::Arr(vec![Json::Int(7)]), "7"));
    assert!(!json_id_matches(&Json::Obj(vec![]), "{}"));
}

#[test]
fn renders_signed_integers() {
    assert_eq!(i64_to_string(0), "0");
    assert_eq!(i64_to_string(7), "7");
    assert_eq!(i64_to_string(-42), "-42");
    assert_eq!(i64_to_string(1905), "1905");
    assert_eq!(i64_to_string(i64::MAX), "9223372036854775807");
    assert_eq!(i64_to_string(i64::MIN), "-9223372036854775808");
}

#[test]
fn parses_signed_integers() {
    assert_eq!(parse_i64("45"), Some(45));
    assert_eq!(parse_i64("+7"), Some(7));
    assert_eq!(parse_i64("-13"), Some(-13));
    assert_eq!(parse_i64("0045"), Some(45));
    assert_eq!(parse_i64("9223372036854775807"), Some(i64::MAX));
    assert_eq!(parse_i64("-9223372036854775808"), Some(i64::MIN));
    assert_eq!(parse_i64("9223372036854775808"), None);
    assert_eq!(parse_i64("-9223372036854775809"), None);
    assert_eq!(parse_i64(""), None);
    assert_eq!(parse_i64("-"), None);
    assert_eq!(parse_i64("+"), None);
    assert_eq!(parse_i64("4x"), None);
    assert_eq!(parse_i64(" 4"), None);
}
