use git_commit_counter_lib::casing::{char_to_ascii_upper, to_uppercase};

#[test]
fn ascii_letters_become_capitals() {
    assert_eq!(to_uppercase("feat"), "FEAT");
    assert_eq!(to_uppercase("FeAt"), "FEAT");
    assert_eq!(to_uppercase("fix-123_x"), "FIX-123_X");
    assert_eq!(to_uppercase(""), "");
    assert_eq!(to_uppercase("a b\tc"), "A B\tC");
}

#[test]
fn ascii_upper_case_agrees_with_the_standard_library() {
    let mut n: u8 = 0;
    while n < 128 {
        let c = n as char;
        assert_eq!(char_to_ascii_upper(c), c.to_ascii_uppercase());
        let s = c.to_string();
        assert_eq!(to_uppercase(&s), s.to_uppercase(), "{:?}", s);
        n += 1;
    }
    for s in ["hello world", "Mixed Text 42", "{already} UPPER", "z~`a"] {
        assert_eq!(to_uppercase(s), s.to_uppercase());
    }
}

#[test]
fn other_letters_become_capitals_too() {
    assert_eq!(to_uppercase("é"), "É");
    assert_eq!(to_uppercase("tschüß"), "TSCHÜSS");
    assert_eq!(to_uppercase("déjà vu"), "DÉJÀ VU");
    assert_eq!(to_uppercase("ǆ"), "Ǆ");
    assert_eq!(to_uppercase("日本"), "日本");
}

#[test]
fn upper_case_of_upper_case_is_itself() {
    for s in ["feat", "Fix", "é", "tschüß", "mixed É case", "ŉ", "ᾀ"] {
        let once = to_uppercase(s);
        assert_eq!(to_uppercase(&once), once, "{:?}", s);
    }
}
