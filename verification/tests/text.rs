use mac_window_resizer::number::{are_equal, is_finite, is_positive_finite};
use mac_window_resizer::text::{
    characters, contains_white_space, integer, is_empty, is_white_space, lines, natural, same,
    spell, trim, xml,
};

#[test]
fn white_space_is_that_of_unicode() {
    for c in '\0'..=char::MAX {
        assert_eq!(is_white_space(c), c.is_whitespace(), "{c:?}");
    }
    assert!(contains_white_space("a\u{a0}b"));
    assert!(!contains_white_space("com.apple.finder"));
}

#[test]
fn trimming_and_lines_are_those_of_the_standard_library() {
    for text in [
        "", " ", "a", " a", "a ", "\t a b\u{3000}\n", "a\nb", "a\r\nb\r\n", "\n", "\n\n", "a\r", "\r\n",
        "a\n\nb\rc\n", "\r\r\n",
    ] {
        assert_eq!(trim(text), text.trim(), "{text:?}");
        assert_eq!(lines(text), text.lines().collect::<Vec<_>>(), "{text:?}");
    }
}

#[test]
fn numbers_are_written_in_decimal() {
    for n in [0, 7, 10, -1, -25209, i32::MAX, i32::MIN] {
        assert_eq!(integer(n), n.to_string());
    }
    for n in [0, 99, 100, u128::MAX] {
        assert_eq!(natural(n), n.to_string());
    }
}

#[test]
fn markup_is_escaped() {
    assert_eq!(xml("/Users/a&b/<c>"), "/Users/a&amp;b/&lt;c&gt;");
    for text in ["", "plain", "&&", "&lt;", "<&>", "ü&\u{1f600}"] {
        let expected = text.replace('&', "&amp;").replace('<', "&lt;").replace('>', "&gt;");
        assert_eq!(xml(text), expected);
        let back = expected.replace("&gt;", ">").replace("&lt;", "<").replace("&amp;", "&");
        assert_eq!(back, text);
        assert_eq!(xml(&format!("a<{text}")), format!("{}{}", xml("a<"), xml(text)));
    }
}

#[test]
fn texts_are_made_of_characters() {
    let all = characters("aü\u{1f600}");
    assert_eq!(all, vec!['a', 'ü', '\u{1f600}']);
    assert_eq!(spell(&all, 1, 3), "ü\u{1f600}");
    assert!(same("ü", "ü") && !same("a", "A"));
    assert!(is_empty("") && !is_empty(" "));
}

#[test]
fn bit_patterns_are_tested_as_the_numbers_they_stand_for() {
    let samples = [
        0.0,
        -0.0,
        1.0,
        -1.0,
        860.0,
        f64::MIN_POSITIVE,
        5e-324,
        f64::MAX,
        f64::MIN,
        f64::INFINITY,
        f64::NEG_INFINITY,
        f64::NAN,
        -f64::NAN,
    ];
    for a in samples {
        assert_eq!(is_finite(a.to_bits()), a.is_finite());
        assert_eq!(is_positive_finite(a.to_bits()), a.is_finite() && a > 0.0);
        for b in samples {
            assert_eq!(are_equal(a.to_bits(), b.to_bits()), a == b);
        }
    }
}
