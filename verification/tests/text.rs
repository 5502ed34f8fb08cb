use kubemc::strutil::{
    i64_to_string, parse_i64_text, parse_u64, str_eq_ignore_ascii_case, str_lex_lt,
    to_lowercase_string, u64_to_string,
};

#[test]
fn ascii_case_insensitive_equality() {
    assert!(str_eq_ignore_ascii_case("DaemonSet", "daemonset"));
    assert!(str_eq_ignore_ascii_case("ds", "DS"));
    assert!(!str_eq_ignore_ascii_case("pods", "pod"));
    assert!(!str_eq_ignore_ascii_case("pod", "pud"));
}

#[test]
fn lowercasing_touches_only_ascii_uppercase() {
    assert_eq!(to_lowercase_string("DaemonSet"), "daemonset");
    assert_eq!(to_lowercase_string("a_b.C-9"), "a_b.c-9");
    assert_eq!(to_lowercase_string(""), "");
}

#[test]
fn lexicographic_order_on_group_names() {
    assert!(str_lex_lt("apps", "extensions"));
    assert!(!str_lex_lt("extensions", "apps"));
    assert!(!str_lex_lt("apps", "apps"));
    assert!(str_lex_lt("app", "apps"));
    assert!(str_lex_lt("", "a"));
}

#[test]
fn decimal_rendering_is_exact() {
    assert_eq!(u64_to_string(0), "0");
    assert_eq!(u64_to_string(907), "907");
    assert_eq!(u64_to_string(u64::MAX), "18446744073709551615");
    assert_eq!(i64_to_string(-42), "-42");
}

#[test]
fn decimal_parsing_accepts_digits_only() {
    assert_eq!(parse_u64("0"), Some(0));
    assert_eq!(parse_u64("907"), Some(907));
    assert_eq!(parse_u64(""), None);
    assert_eq!(parse_u64("12a"), None);
    assert_eq!(parse_u64("18446744073709551615"), Some(u64::MAX));
    assert_eq!(parse_u64("18446744073709551616"), None);
    assert_eq!(parse_i64_text("-7"), Some(-7));
    assert_eq!(parse_i64_text("3.5"), None);
}
