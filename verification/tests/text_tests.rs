use gitpersona::config::{startup_token, token_from_config, AppConfig};
use gitpersona::date::{check_search_criteria, date_verdict, validate_date};
use gitpersona::model::SearchCriteria;
use gitpersona::text::{decimal_string, is_blank, join, parse_u32, trim};

#[test]
fn trim_removes_unicode_whitespace() {
    assert_eq!(trim("  hello \t\n"), "hello");
    assert_eq!(trim("\u{3000}\u{a0}x y\u{85}\u{2029}"), "x y");
    assert_eq!(trim(""), "");
    assert_eq!(trim(" \r "), "");
    assert_eq!(trim("a"), "a");
    for s in ["  a b  ", "\u{200b}x", "\tq\u{feff}"] {
        assert_eq!(trim(s), s.trim());
    }
    assert!(is_blank(" \u{2003} "));
    assert!(!is_blank(" . "));
}

#[test]
fn decimal_rendering() {
    assert_eq!(decimal_string(0), "0");
    assert_eq!(decimal_string(7), "7");
    assert_eq!(decimal_string(10), "10");
    assert_eq!(decimal_string(1234567), "1234567");
    assert_eq!(decimal_string(u64::MAX), u64::MAX.to_string());
}

#[test]
fn decimal_parsing_matches_std() {
    assert_eq!(parse_u32("42"), Some(42));
    assert_eq!(parse_u32("+7"), Some(7));
    assert_eq!(parse_u32("007"), Some(7));
    assert_eq!(parse_u32("4294967295"), Some(u32::MAX));
    assert_eq!(parse_u32("4294967296"), None);
    assert_eq!(parse_u32("99999999999999"), None);
    for s in ["", "+", "-1", " 5", "5 ", "1a", "++1", "٣"] {
        assert_eq!(parse_u32(s), None, "{s}");
        assert_eq!(parse_u32(s), s.parse::<u32>().ok(), "{s}");
    }
}

#[test]
fn join_with_separator() {
    let parts = vec!["a".to_string(), "bc".to_string(), String::new()];
    assert_eq!(join(&parts, "; "), "a; bc; ");
    assert_eq!(join(&Vec::new(), "; "), "");
    assert_eq!(join(&vec!["x".to_string()], " "), "x");
}

#[test]
fn dates_accepted_and_refused() {
    assert!(validate_date("").is_ok());
    assert!(validate_date("2024-01-15").is_ok());
    assert!(validate_date("2024-01-15T10:30:00Z").is_ok());
    assert!(validate_date("2024-01-15T10:30:00+02:00").is_ok());
    assert_eq!(
        validate_date("15/01/2024").err(),
        Some("invalid date format: 15/01/2024 (expected YYYY-MM-DD)".to_string())
    );
    assert!(validate_date("2024-02-30").is_err());
    assert!(validate_date("yesterday").is_err());
}

#[test]
fn date_verdict_from_readings() {
    assert!(date_verdict("", false, false).is_ok());
    assert!(date_verdict("x", true, false).is_ok());
    assert!(date_verdict("x", false, true).is_ok());
    assert_eq!(
        date_verdict("x", false, false).err(),
        Some("invalid date format: x (expected YYYY-MM-DD)".to_string())
    );
}

#[test]
fn criteria_check_validates_date_only_when_present() {
    let mut c = SearchCriteria {
        location: None,
        min_repos: None,
        max_repos: None,
        min_followers: None,
        max_followers: None,
        min_following: None,
        max_following: None,
        last_activity_after: None,
        per_page: None,
        page: None,
        cursor: None,
    };
    assert!(check_search_criteria(&c).is_ok());
    c.last_activity_after = Some("2023-12-31".to_string());
    assert!(check_search_criteria(&c).is_ok());
    c.last_activity_after = Some("31.12.2023".to_string());
    assert!(check_search_criteria(&c).is_err());
}

#[test]
fn tokens_from_settings() {
    assert_eq!(token_from_config("  ".to_string()), None);
    assert_eq!(token_from_config(String::new()), None);
    assert_eq!(token_from_config("ghp_x".to_string()), Some("ghp_x".to_string()));
    assert_eq!(
        startup_token(" ".to_string(), Some("env".to_string())),
        Some("env".to_string())
    );
    assert_eq!(startup_token(String::new(), None), None);
    assert_eq!(startup_token(" ".to_string(), Some(String::new())), None);
    assert_eq!(startup_token(String::new(), Some(" \t".to_string())), None);
    assert_eq!(
        startup_token("cfg".to_string(), Some("env".to_string())),
        Some("cfg".to_string())
    );
    let d = AppConfig::default();
    assert!(d.github_username.is_empty());
    assert!(d.token.is_empty());
}
