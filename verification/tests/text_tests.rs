use spice_framework::text::{decimal_string, find_text, split_first, str_eq, text_contains, text_order, TextOrder};

#[test]
fn str_eq_compares_characters() {
    assert!(str_eq("getWeather", "getWeather"));
    assert!(!str_eq("getWeather", "getweather"));
    assert!(!str_eq("abc", "abcd"));
    assert!(str_eq("", ""));
}

#[test]
fn find_text_gives_first_occurrence() {
    assert_eq!(find_text("abcabc", "bc"), Some(1));
    assert_eq!(find_text("abc", "x"), None);
    assert_eq!(find_text("abc", ""), Some(0));
    assert_eq!(find_text("ab", "abc"), None);
    assert_eq!(find_text("héllo wörld", "wö"), Some(6));
}

#[test]
fn text_contains_matches_str_contains() {
    for (s, p) in [("basic-weather", "weather"), ("basic", "weather"), ("", ""), ("x", ""), ("rbac-admin-read", "admin")] {
        assert_eq!(text_contains(s, p), s.contains(p));
    }
}

#[test]
fn split_first_matches_split_next() {
    for (s, sep) in [
        ("admin — can read files", " — "),
        ("viewer", " — "),
        ("a — b — c", " — "),
        ("", " — "),
        (" — lead", " — "),
    ] {
        assert_eq!(split_first(s, sep), s.split(sep).next().unwrap());
    }
}

#[test]
fn decimal_string_matches_format() {
    for n in [0usize, 7, 10, 99, 100, 12345, usize::MAX] {
        assert_eq!(decimal_string(n), format!("{}", n));
    }
}

#[test]
fn text_order_is_string_order() {
    assert_eq!(text_order("admin", "viewer"), TextOrder::Less);
    assert_eq!(text_order("viewer", "admin"), TextOrder::Greater);
    assert_eq!(text_order("admin", "admin"), TextOrder::Equal);
    assert_eq!(text_order("adm", "admin"), TextOrder::Less);
    assert_eq!(text_order("Zed", "alpha"), TextOrder::Less);
    assert_eq!(text_order("é", "z"), TextOrder::Greater);
}
