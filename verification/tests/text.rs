use git_commit_counter_lib::text::{
    char_is_whitespace, from_chars, split_fields, split_lines, str_eq, to_chars, trim,
};

const SAMPLES: [&str; 16] = [
    "",
    " ",
    "feat",
    "  feat  ",
    "\tfeat\n",
    "a b",
    " a  b   c ",
    "FEAT 1",
    "FEAT\t12\r",
    "\u{a0}docs\u{3000}",
    "\u{2028}x\u{2029}",
    "\u{85}perf\u{1680}",
    "é è",
    "one two three",
    "\r\n",
    "x\u{200b}y",
];

#[test]
fn whitespace_is_the_unicode_white_space_property() {
    let mut n: u32 = 0;
    while n <= 0x10FFFF {
        if let Some(c) = char::from_u32(n) {
            assert_eq!(char_is_whitespace(c), c.is_whitespace(), "U+{:04X}", n);
        }
        n += 1;
    }
}

#[test]
fn whitespace_knows_blank_tab_and_line_feed() {
    assert!(char_is_whitespace(' '));
    assert!(char_is_whitespace('\t'));
    assert!(char_is_whitespace('\n'));
    assert!(char_is_whitespace('\r'));
    assert!(!char_is_whitespace('a'));
    assert!(!char_is_whitespace('0'));
    assert!(!char_is_whitespace('\u{200b}'));
}

#[test]
fn trim_removes_whitespace_at_both_ends() {
    assert_eq!(trim("  feat  "), "feat");
    assert_eq!(trim("\tadd x\n"), "add x");
    assert_eq!(trim("   "), "");
    assert_eq!(trim(""), "");
    assert_eq!(trim("a  b"), "a  b");
}

#[test]
fn trim_agrees_with_the_standard_library() {
    for s in SAMPLES {
        assert_eq!(trim(s), s.trim(), "{:?}", s);
    }
}

#[test]
fn fields_are_the_runs_without_whitespace() {
    assert_eq!(split_fields("FEAT 1"), vec!["FEAT", "1"]);
    assert_eq!(split_fields("  FEAT \t 12  "), vec!["FEAT", "12"]);
    assert_eq!(split_fields("a b c"), vec!["a", "b", "c"]);
    assert_eq!(split_fields("single"), vec!["single"]);
    assert!(split_fields("").is_empty());
    assert!(split_fields(" \t ").is_empty());
}

#[test]
fn fields_agree_with_the_standard_library() {
    for s in SAMPLES {
        let expected: Vec<String> = s.split_whitespace().map(|f| f.to_string()).collect();
        assert_eq!(split_fields(s), expected, "{:?}", s);
    }
}

#[test]
fn lines_are_the_pieces_between_line_feeds() {
    assert_eq!(split_lines(""), vec![""]);
    assert_eq!(split_lines("a"), vec!["a"]);
    assert_eq!(split_lines("a\n"), vec!["a", ""]);
    assert_eq!(split_lines("a\nb"), vec!["a", "b"]);
    assert_eq!(split_lines("a\n\nb\n"), vec!["a", "", "b", ""]);
    assert_eq!(split_lines("a\r\nb"), vec!["a\r", "b"]);
}

#[test]
fn lines_agree_with_splitting_at_line_feeds() {
    for s in SAMPLES {
        let expected: Vec<String> = s.split('\n').map(|l| l.to_string()).collect();
        assert_eq!(split_lines(s), expected, "{:?}", s);
    }
}

#[test]
fn str_eq_compares_characters() {
    assert!(str_eq("", ""));
    assert!(str_eq("FEAT", "FEAT"));
    assert!(!str_eq("FEAT", "FEA"));
    assert!(!str_eq("FEAT", "FEAX"));
    assert!(!str_eq("feat", "FEAT"));
    assert!(str_eq("é", "é"));
}

#[test]
fn chars_round_trip() {
    for s in SAMPLES {
        let chars = to_chars(s);
        let expected: Vec<char> = s.chars().collect();
        assert_eq!(chars, expected);
        assert_eq!(from_chars(&chars, 0, chars.len()), s);
    }
    let chars = to_chars("abcdef");
    assert_eq!(from_chars(&chars, 2, 4), "cd");
    assert_eq!(from_chars(&chars, 3, 3), "");
}

fn generated(seed: u64, alphabet: &[char], max_len: usize) -> Vec<String> {
    let mut state = seed;
    let mut out = Vec::new();
    let mut k = 0;
    while k < 3000 {
        state = state.wrapping_mul(6364136223846793005).wrapping_add(1442695040888963407);
        let len = ((state >> 33) as usize) % (max_len + 1);
        let mut s = String::new();
        let mut i = 0;
        while i < len {
            state = state.wrapping_mul(6364136223846793005).wrapping_add(1442695040888963407);
            s.push(alphabet[((state >> 33) as usize) % alphabet.len()]);
            i += 1;
        }
        out.push(s);
        k += 1;
    }
    out
}

const LETTERS_AND_BLANKS: [char; 12] =
    ['a', 'B', '7', ' ', ' ', '\t', '\n', '\r', '\u{a0}', '\u{2003}', 'é', ':'];

#[test]
fn trim_agrees_with_the_standard_library_on_generated_text() {
    for s in generated(1, &LETTERS_AND_BLANKS, 9) {
        assert_eq!(trim(&s), s.trim(), "{:?}", s);
    }
}

#[test]
fn fields_agree_with_the_standard_library_on_generated_text() {
    for s in generated(2, &LETTERS_AND_BLANKS, 12) {
        let expected: Vec<String> = s.split_whitespace().map(|f| f.to_string()).collect();
        assert_eq!(split_fields(&s), expected, "{:?}", s);
    }
}

#[test]
fn lines_agree_with_splitting_on_generated_text() {
    for s in generated(3, &LETTERS_AND_BLANKS, 12) {
        let expected: Vec<String> = s.split('\n').map(|l| l.to_string()).collect();
        assert_eq!(split_lines(&s), expected, "{:?}", s);
    }
}
