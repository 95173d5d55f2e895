use spinner_wm::text::{parse_u32, split_command, str_eq, str_eq_ignore_ascii_case};

#[test]
fn str_eq_compares_contents() {
    assert!(str_eq("", ""));
    assert!(str_eq("abc", "abc"));
    assert!(!str_eq("abc", "abd"));
    assert!(!str_eq("abc", "ab"));
}

#[test]
fn case_insensitive_compare_is_ascii_only() {
    assert!(str_eq_ignore_ascii_case("LEFT", "left"));
    assert!(str_eq_ignore_ascii_case("Left", "lEfT"));
    assert!(!str_eq_ignore_ascii_case("left", "right"));
    assert!(!str_eq_ignore_ascii_case("left", "lef"));
}

#[test]
fn parse_u32_plain_decimal() {
    assert_eq!(parse_u32("0"), Some(0));
    assert_eq!(parse_u32("123"), Some(123));
    assert_eq!(parse_u32("007"), Some(7));
    assert_eq!(parse_u32("4294967295"), Some(u32::MAX));
}

#[test]
fn parse_u32_rejects_non_digits_empty_and_overflow() {
    assert_eq!(parse_u32(""), None);
    assert_eq!(parse_u32("12a"), None);
    assert_eq!(parse_u32("-1"), None);
    assert_eq!(parse_u32("+1"), None);
    assert_eq!(parse_u32("4294967296"), None);
    assert_eq!(parse_u32("99999999999"), None);
}

#[test]
fn split_command_words() {
    assert_eq!(split_command("kitty"), vec!["kitty".to_string()]);
    assert_eq!(
        split_command("spinner-shell --menu"),
        vec!["spinner-shell".to_string(), "--menu".to_string()]
    );
    assert_eq!(
        split_command("  a \t b\nc  "),
        vec!["a".to_string(), "b".to_string(), "c".to_string()]
    );
    assert!(split_command("").is_empty());
    assert!(split_command("   ").is_empty());
}
