use zink::text::{
    bool_str, char_is_white_space, decimal_string, find_last, join, split_at_char, str_eq, trim,
};

#[test]
fn decimal_numerals() {
    assert_eq!(decimal_string(0), "0");
    assert_eq!(decimal_string(7), "7");
    assert_eq!(decimal_string(10), "10");
    assert_eq!(decimal_string(1234567890), "1234567890");
    assert_eq!(decimal_string(usize::MAX), usize::MAX.to_string());
}

#[test]
fn booleans_as_text() {
    assert_eq!(bool_str(true), "true");
    assert_eq!(bool_str(false), "false");
}

#[test]
fn joining() {
    let none: Vec<String> = vec![];
    assert_eq!(join(&none, ","), "");
    assert_eq!(join(&vec!["a".to_string()], ","), "a");
    assert_eq!(
        join(&vec!["a".to_string(), "".to_string(), "c".to_string()], ", "),
        "a, , c"
    );
}

#[test]
fn splitting() {
    assert_eq!(split_at_char("", ','), vec![""]);
    assert_eq!(split_at_char("a", ','), vec!["a"]);
    assert_eq!(split_at_char("a,b", ','), vec!["a", "b"]);
    assert_eq!(split_at_char(",a,,b,", ','), vec!["", "a", "", "b", ""]);
    assert_eq!(split_at_char("ä,ö", ','), vec!["ä", "ö"]);
}

#[test]
fn trimming() {
    assert_eq!(trim("  a b \t\n"), "a b");
    assert_eq!(trim("ab"), "ab");
    assert_eq!(trim("   "), "");
    assert_eq!(trim(""), "");
    assert_eq!(trim("\u{a0}x\u{3000}"), "x");
    assert_eq!(trim("\u{200b}x"), "\u{200b}x");
}

#[test]
fn white_space_is_what_std_calls_white_space() {
    let mut code = 0u32;
    while code < 0x11000 {
        if let Some(c) = char::from_u32(code) {
            assert_eq!(char_is_white_space(c), c.is_whitespace());
        }
        code += 1;
    }
}

#[test]
fn comparing() {
    assert!(str_eq("uint256", "uint256"));
    assert!(!str_eq("uint256", "Uint256"));
    assert!(!str_eq("uint", "uint256"));
}

#[test]
fn finding_the_last() {
    assert_eq!(find_last("a[b[c", '['), Some(3));
    assert_eq!(find_last("[", '['), Some(0));
    assert_eq!(find_last("abc", '['), None);
    assert_eq!(find_last("", '['), None);
    assert_eq!(find_last("ä[ö]", '['), Some(1));
}
