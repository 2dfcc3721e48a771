use clash_profiles::text::{
    find_char, is_white_space, join, parse_u64, remove_char, same, take_prefix, trim,
};

#[test]
fn white_space_is_that_of_the_standard_library() {
    for u in 0..0x11_0000u32 {
        if let Some(c) = char::from_u32(u) {
            assert_eq!(is_white_space(c), c.is_whitespace());
        }
    }
}

#[test]
fn trim_takes_white_space_off_both_ends() {
    for s in ["", " ", "a", " a b\t", "\u{2003}\u{540d}\u{85}", "\n\n", "a "] {
        assert_eq!(trim(s), s.trim());
    }
}

#[test]
fn small_text_functions() {
    assert_eq!(take_prefix("\u{540d}bc", 2), "\u{540d}b");
    assert_eq!(take_prefix("abc", 3), "abc");
    assert_eq!(take_prefix("abc", 0), "");
    assert!(same("abc", "abc") && !same("abc", "abd") && !same("abc", "ab"));
    assert_eq!(find_char("a=b=c", '='), 1);
    assert_eq!(find_char("\u{540d}bc", '='), 3);
    assert_eq!(remove_char("-a-\u{540d}--b", '-'), "a\u{540d}b");
    assert_eq!(join(&vec![], "; "), "");
    assert_eq!(join(&vec!["a".to_string()], "; "), "a");
    assert_eq!(
        join(&vec!["a".to_string(), "".to_string(), "c".to_string()], "; "),
        "a; ; c"
    );
    assert_eq!(parse_u64("0018"), Some(18));
    assert_eq!(parse_u64(""), None);
    assert_eq!(parse_u64("-1"), None);
    assert_eq!(parse_u64("1 "), None);
}
