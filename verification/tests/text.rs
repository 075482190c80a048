use fabro::text::{
    characters, comes_before, contains, decimal_text, ends_with, join, same_text,
    signed_decimal_text, text_of, to_ascii_lowercase, trim, trim_tail,
};

#[test]
fn white_space_is_trimmed_as_the_standard_library_does() {
    for text in ["", "  a b\t", "\u{2003}x\u{3000}", "\u{200b}x", "\u{85}\u{a0}", "\u{1680}z\u{feff}"] {
        assert_eq!(trim(text), text.trim(), "{text:?}");
        assert_eq!(trim_tail(text), text.trim_end(), "{text:?}");
    }
}

#[test]
fn numbers_are_written_in_decimal() {
    for n in [0, 7, 10, 905, u64::MAX] {
        assert_eq!(decimal_text(n), n.to_string());
    }
    for n in [0, -1, i64::MAX, i64::MIN] {
        assert_eq!(signed_decimal_text(n), n.to_string());
    }
}

#[test]
fn texts_are_compared_by_their_characters() {
    assert!(same_text("é", "é"));
    assert!(!same_text("e", "é"));
    for (a, b) in [("", "a"), ("a", "b"), ("a", "ab"), ("Z", "a"), ("z", "é"), ("b", "a")] {
        assert_eq!(comes_before(a, b), a < b, "{a:?} {b:?}");
    }
    assert!(contains("repository", "posit"));
    assert!(contains("x", ""));
    assert!(!contains("x", "xx"));
    assert!(ends_with("héllo", "llo"));
    assert!(!ends_with("lo", "llo"));
    assert_eq!(to_ascii_lowercase("ÀBC"), "Àbc");
}

#[test]
fn texts_are_put_together() {
    let parts = vec!["a".to_string(), String::new(), "c".to_string()];
    assert_eq!(join(&parts, ", "), "a, , c");
    assert_eq!(join(&vec![], ", "), "");
    let chars = characters("héllo");
    assert_eq!(text_of(&chars, 1, 4), "éll");
}
