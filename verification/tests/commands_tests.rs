use aistatus::commands::{check_theme, extract_cookie_from_curl, normalize_cookie, strip_leading_cookie_header};

#[test]
fn normalize_plain_value() {
    assert_eq!(normalize_cookie("a=1; b=2"), "a=1; b=2");
}

#[test]
fn normalize_strips_header_prefix() {
    assert_eq!(normalize_cookie("Cookie: a=1; b=2"), "a=1; b=2");
    assert_eq!(normalize_cookie("cookie: a=1"), "a=1");
    assert_eq!(normalize_cookie("COOKIE: a=1"), "a=1");
}

#[test]
fn normalize_extracts_from_curl() {
    let curl = "curl 'https://platform.xiaomimimo.com/api/v1/tokenPlan/usage' \
                -H 'Accept: application/json' \
                -H 'Cookie: sid=abc; token=xyz'";
    assert_eq!(normalize_cookie(curl), "sid=abc; token=xyz");
}

#[test]
fn normalize_folds_newlines_and_spacing() {
    assert_eq!(normalize_cookie("a=1;\r\nb=2"), "a=1; b=2");
    assert_eq!(normalize_cookie("a=1 ;  b=2 ;"), "a=1; b=2");
    assert_eq!(normalize_cookie("a=1 ;\n\n b=2"), "a=1; b=2");
}

#[test]
fn normalize_empty_clears() {
    assert_eq!(normalize_cookie(""), "");
    assert_eq!(normalize_cookie("   \n  "), "");
    assert_eq!(normalize_cookie("Cookie:"), "");
}

#[test]
fn header_prefix_is_case_insensitive_and_optional() {
    assert_eq!(strip_leading_cookie_header("CoOkIe:   x=1").as_deref(), Some("x=1"));
    assert_eq!(strip_leading_cookie_header("x=1"), None);
    assert_eq!(strip_leading_cookie_header("cooki"), None);
}

#[test]
fn curl_extraction_takes_last_header_up_to_quote() {
    assert_eq!(
        extract_cookie_from_curl("curl -H \"cookie: a=1\" -H \"COOKIE: b=2; c=3\" --x").as_deref(),
        Some("b=2; c=3")
    );
    assert_eq!(extract_cookie_from_curl("cookie:  tail  ").as_deref(), Some("tail"));
    assert_eq!(extract_cookie_from_curl("no header here"), None);
}

#[test]
fn normalize_keeps_unicode_spacing_rules() {
    // U+3000 ideographic space is white space and gets trimmed
    assert_eq!(normalize_cookie("\u{3000}a=1;\u{3000}b=2\u{3000}"), "a=1; b=2");
}

#[test]
fn theme_check_accepts_three_names() {
    assert!(check_theme("system").is_ok());
    assert!(check_theme("dark").is_ok());
    assert!(check_theme("light").is_ok());
    assert_eq!(check_theme("blue"), Err("invalid theme: blue".to_string()));
}
