use iuc_bot::text::{chars_lt, chars_of, i32_to_string, str_contains, str_eq, str_trim, u64_to_string};

#[test]
fn contains_finds_inner_run() {
    assert!(str_contains("Ders Alma Takvimi Dışındasınız!", "Takvimi"));
    assert!(str_contains("abc", ""));
    assert!(!str_contains("ab", "abc"));
    assert!(!str_contains("HataTakvi", "HataTakvim"));
}

#[test]
fn trim_removes_unicode_white_space() {
    assert_eq!(str_trim("  Adı:\n\t"), "Adı:");
    assert_eq!(str_trim("\u{3000}\u{A0}x y\u{2009}"), "x y");
    assert_eq!(str_trim("   "), "");
    assert_eq!(str_trim(""), "");
}

#[test]
fn decimal_formatting_matches_to_string() {
    assert_eq!(u64_to_string(0), "0");
    assert_eq!(u64_to_string(7), "7");
    assert_eq!(u64_to_string(1234567890), "1234567890");
    assert_eq!(u64_to_string(u64::MAX), u64::MAX.to_string());
    assert_eq!(i32_to_string(2025), "2025");
    assert_eq!(i32_to_string(-3), "-3");
    assert_eq!(i32_to_string(i32::MIN), i32::MIN.to_string());
    assert_eq!(i32_to_string(0), "0");
}

#[test]
fn code_point_order_agrees_with_string_order() {
    let pairs = [("A", "B"), ("Diğer", "Dil"), ("ab", "abc"), ("", "a"), ("Z", "Ç"), ("x", "x")];
    for (a, b) in pairs {
        assert_eq!(chars_lt(&chars_of(a), &chars_of(b)), a < b, "{} {}", a, b);
        assert_eq!(chars_lt(&chars_of(b), &chars_of(a)), b < a, "{} {}", b, a);
    }
}

#[test]
fn string_equality() {
    assert!(str_eq("Evet", "Evet"));
    assert!(!str_eq("Evet", "evet"));
    assert!(!str_eq("Eve", "Evet"));
}
