use rubox::number::{parse_milli, parse_usize};
use rubox::order::{dedup_sorted, sort_texts, text_less};
use rubox::text::{contains_text, decimal_text, is_white_space, same_text, signed_text, split_words_from, trim};

#[test]
fn white_space_set() {
    for c in [' ', '\t', '\n', '\r', '\u{a0}', '\u{3000}', '\u{2009}'] {
        assert!(is_white_space(c));
        assert_eq!(is_white_space(c), c.is_whitespace());
    }
    for c in ['a', '/', '0', '_', '\u{200b}'] {
        assert!(!is_white_space(c));
        assert_eq!(is_white_space(c), c.is_whitespace());
    }
}

#[test]
fn trim_both_ends() {
    assert_eq!(trim("  hello world \n"), "hello world");
    assert_eq!(trim("   "), "");
    assert_eq!(trim(""), "");
    assert_eq!(trim("x"), "x");
}

#[test]
fn words_split_on_runs_of_space() {
    assert_eq!(split_words_from("/set  temp\t0.5 ", 1), vec!["set", "temp", "0.5"]);
    assert_eq!(split_words_from("/", 1), Vec::<String>::new());
    assert_eq!(split_words_from("a b", 0), vec!["a", "b"]);
}

#[test]
fn equality_and_search() {
    assert!(same_text("model", "model"));
    assert!(!same_text("model", "mode"));
    assert!(contains_text("Delete message(s)", "message"));
    assert!(contains_text("abc", ""));
    assert!(!contains_text("abc", "abcd"));
    assert!(!contains_text("abc", "ac"));
}

#[test]
fn usize_parsing() {
    assert_eq!(parse_usize("42"), Some(42));
    assert_eq!(parse_usize("+7"), Some(7));
    assert_eq!(parse_usize("0"), Some(0));
    assert_eq!(parse_usize(""), None);
    assert_eq!(parse_usize("+"), None);
    assert_eq!(parse_usize("-1"), None);
    assert_eq!(parse_usize("1x"), None);
    assert_eq!(parse_usize("18446744073709551616"), None);
    assert_eq!(parse_usize("18446744073709551615"), Some(usize::MAX));
}

#[test]
fn temperature_parsing_in_thousandths() {
    assert_eq!(parse_milli("0.7"), Some(700));
    assert_eq!(parse_milli("2"), Some(2000));
    assert_eq!(parse_milli(".25"), Some(250));
    assert_eq!(parse_milli("1."), Some(1000));
    assert_eq!(parse_milli("+1.125"), Some(1125));
    assert_eq!(parse_milli("0.1234"), None);
    assert_eq!(parse_milli("0.7000"), Some(700));
    assert_eq!(parse_milli("1.2500000"), Some(1250));
    assert_eq!(parse_milli("0.10001"), None);
    assert_eq!(parse_milli("0.100x"), None);
    assert_eq!(parse_milli("."), None);
    assert_eq!(parse_milli("abc"), None);
    assert_eq!(parse_milli("-0.5"), None);
    assert_eq!(parse_milli("4294967.295"), Some(u32::MAX));
    assert_eq!(parse_milli("4294967.296"), None);
}

#[test]
fn decimal_spelling() {
    assert_eq!(decimal_text(0), "0");
    assert_eq!(decimal_text(8192), "8192");
    assert_eq!(signed_text(-35), "-35");
    assert_eq!(signed_text(i32::MIN), "-2147483648");
    assert_eq!(signed_text(99), "99");
}

#[test]
fn lexicographic_order() {
    assert!(text_less("gemma", "lfm"));
    assert!(text_less("qwen3", "qwen3-vl"));
    assert!(!text_less("b", "a"));
    assert!(!text_less("a", "a"));
    let v = vec!["qwen3-vl".to_string(), "gemma".to_string(), "lfm".to_string(), "gemma".to_string()];
    assert_eq!(sort_texts(v), vec!["gemma", "gemma", "lfm", "qwen3-vl"]);
}

#[test]
fn dedup_keeps_each_text_once() {
    let v = vec!["a".to_string(), "a".to_string(), "b".to_string(), "c".to_string(), "c".to_string()];
    assert_eq!(dedup_sorted(v), vec!["a", "b", "c"]);
}
