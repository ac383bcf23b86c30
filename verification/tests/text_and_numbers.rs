use yx_bot::decimal::{i64_to_decimal, u128_to_decimal};
use yx_bot::numbers::{db_user_id, parse_u32};
use yx_bot::text::{chars_of, contains_char, split_words, trimmed, LineWrapper};

#[test]
fn decimal_of_unsigned_numbers() {
    assert_eq!(u128_to_decimal(0), "0");
    assert_eq!(u128_to_decimal(7), "7");
    assert_eq!(u128_to_decimal(10), "10");
    assert_eq!(u128_to_decimal(1234567890), "1234567890");
    assert_eq!(u128_to_decimal(u128::MAX), u128::MAX.to_string());
}

#[test]
fn decimal_of_signed_numbers() {
    assert_eq!(i64_to_decimal(0), "0");
    assert_eq!(i64_to_decimal(-42), "-42");
    assert_eq!(i64_to_decimal(86400), "86400");
    assert_eq!(i64_to_decimal(i64::MIN), i64::MIN.to_string());
    assert_eq!(i64_to_decimal(i64::MAX), i64::MAX.to_string());
}

#[test]
fn chars_and_membership() {
    assert_eq!(chars_of("añb"), vec!['a', 'ñ', 'b']);
    assert!(contains_char("https://x/a.png?v=1", '?'));
    assert!(!contains_char("https://x/a.png", '?'));
    assert!(!contains_char("", '?'));
}

#[test]
fn words_split_like_split_whitespace() {
    let samples = [
        "",
        "   ",
        "hello",
        "  hello \t world\n foo  ",
        "a\u{3000}b\u{00A0}c\u{2009}d\u{85}e",
        "SYBAU IS THE BEST! I LOVE SYBAU! ",
        "tabs\tand\r\nnewlines\x0bvt\x0cff",
    ];
    for s in samples {
        let expected: Vec<String> = s.split_whitespace().map(|w| w.to_string()).collect();
        assert_eq!(split_words(s), expected, "input {:?}", s);
    }
}

#[test]
fn trimming_like_str_trim() {
    let samples = ["", "  ", " hi ", "\u{3000}x y\u{2028}", "no-space", "\n\ttext\n"];
    for s in samples {
        assert_eq!(trimmed(s), s.trim(), "input {:?}", s);
    }
}

fn wrap_by_chars(text: &str, max: usize) -> Vec<String> {
    let mut w = LineWrapper::new();
    for word in split_words(text) {
        let candidate = w.candidate(&word);
        let too_wide = candidate.chars().count() > max;
        w.push_word(&word, too_wide);
    }
    w.finish()
}

#[test]
fn wrapper_breaks_greedily() {
    assert_eq!(
        wrap_by_chars("the quick brown fox jumps over the lazy dog", 10),
        vec!["the quick", "brown fox", "jumps over", "the lazy", "dog"]
    );
    assert_eq!(wrap_by_chars("", 10), Vec::<String>::new());
    assert_eq!(wrap_by_chars("   ", 10), Vec::<String>::new());
}

#[test]
fn wrapper_keeps_an_overlong_word_on_its_own_line() {
    assert_eq!(
        wrap_by_chars("a extraordinarily b", 5),
        vec!["a", "extraordinarily", "b"]
    );
    assert_eq!(wrap_by_chars("extraordinarily", 3), vec!["extraordinarily"]);
}

#[test]
fn wrapper_keeps_every_word_in_order() {
    let text = "SYBAU IS THE BEST! I LOVE SYBAU! SYBAU! I LOVE SYBAU! SYBAU! I LOVE SYBAU! ";
    for max in [1, 5, 12, 30, 1000] {
        let lines = wrap_by_chars(text, max);
        assert!(lines.iter().all(|l| !l.is_empty()));
        let words: Vec<&str> = text.split_whitespace().collect();
        assert_eq!(lines.join(" "), words.join(" "));
    }
}

#[test]
fn candidate_line_adds_a_space() {
    let mut w = LineWrapper::new();
    assert_eq!(w.candidate("one"), "one");
    w.push_word("one", false);
    assert_eq!(w.candidate("two"), "one two");
    w.push_word("two", true);
    assert_eq!(w.candidate("three"), "two three");
    assert_eq!(w.finish(), vec!["one", "two"]);
}

#[test]
fn parsing_like_str_parse() {
    let samples = [
        "", "0", "100", "+7", "+", "-", "-1", " 1", "1 ", "4294967295", "4294967296",
        "99999999999999999999", "00042", "12a", "+-1", "++1", "٣",
    ];
    for s in samples {
        assert_eq!(parse_u32(s), s.parse::<u32>().ok(), "input {:?}", s);
    }
}

#[test]
fn parse_reads_back_decimal() {
    for n in [0u32, 9, 10, 100, 65535, u32::MAX] {
        assert_eq!(parse_u32(&u128_to_decimal(n as u128)), Some(n));
    }
}

#[test]
fn user_ids_keep_their_bits() {
    assert_eq!(db_user_id(0), 0);
    assert_eq!(db_user_id(123456789012345678), 123456789012345678);
    assert_eq!(db_user_id(u64::MAX), -1);
    assert_eq!(db_user_id(1 << 63), i64::MIN);
}
