use dcs_kneeboard::numbers::{parse_number, push_decimal, push_hex};
use dcs_kneeboard::text::{
    alnum, ascii_space, digit, joined, letter, replace_all, replace_word, space, split_words,
    strip_prefix, strip_suffix, to_lower, to_upper, trimmed,
};

#[test]
fn character_classes_are_those_of_std() {
    for n in 0..=0x10ffff_u32 {
        let Some(c) = char::from_u32(n) else { continue };
        assert_eq!(space(c), c.is_whitespace());
        assert_eq!(ascii_space(c), c.is_ascii_whitespace());
        assert_eq!(digit(c), c.is_ascii_digit());
        assert_eq!(letter(c), c.is_ascii_alphabetic());
        assert_eq!(alnum(c), c.is_ascii_alphanumeric());
        assert_eq!(to_lower(c), c.to_ascii_lowercase());
        assert_eq!(to_upper(c), c.to_ascii_uppercase());
    }
}

const TEXTS: [&str; 7] =
    ["", "  ", "a", " a\tb \u{2003}c\n", "näh\u{a0}rung", "aaa", "one, two"];

#[test]
fn splitting_and_trimming_are_those_of_std() {
    for t in TEXTS {
        assert_eq!(trimmed(t), t.trim());
        assert_eq!(split_words(t), t.split_whitespace().collect::<Vec<_>>());
        assert_eq!(replace_all(t, "aa", "-"), t.replace("aa", "-"));
        assert_eq!(strip_prefix(t, "a").as_deref(), t.strip_prefix('a'));
        assert_eq!(strip_suffix(t, "a").as_deref(), t.strip_suffix('a'));
    }
}

#[test]
fn trimming_twice_is_trimming_once() {
    for t in TEXTS {
        assert_eq!(trimmed(&trimmed(t)), trimmed(t));
    }
}

#[test]
fn splitting_undoes_joining() {
    let words: Vec<String> = ["go", "to", "page"].iter().map(|w| w.to_string()).collect();
    assert_eq!(joined(&words, " "), "go to page");
    assert_eq!(split_words(&joined(&words, " ")), words);
    assert_eq!(joined(&Vec::new(), ", "), "");
}

#[test]
fn only_whole_words_are_replaced() {
    assert_eq!(replace_word("mark 82 and market", "mark", "mk"), "mk 82 and market");
    assert_eq!(replace_word("remark", "mark", "mk"), "remark");
    assert_eq!(replace_word("mark mark", "mark", "mk"), "mk mk");
    assert_eq!(replace_word("no such word", "mark", "mk"), "no such word");
    assert_eq!(replace_word("mark\tmark", "mark", "mk"), "mk\tmk");
    assert_eq!(replace_word("über mark", "mark", "mk"), "über mk");
}

#[test]
fn numbers_are_written_as_std_writes_them() {
    for n in [0_u64, 7, 10, 99, 1_000, u64::from(u32::MAX), u64::MAX] {
        let mut s = String::new();
        push_decimal(&mut s, n);
        assert_eq!(s, format!("{n}"));
    }
    for n in [0_u64, 0x4d, 0xabcd, 0xffff] {
        let mut s = String::new();
        push_hex(&mut s, n, 4, false);
        assert_eq!(s, format!("{n:04x}"));
        let mut s = String::new();
        push_hex(&mut s, n, 4, true);
        assert_eq!(s, format!("{n:04X}"));
    }
    let mut s = String::new();
    push_hex(&mut s, u64::MAX - 1, 16, false);
    assert_eq!(s, "fffffffffffffffe");
}

#[test]
fn numbers_are_read_back() {
    for n in [0_u32, 5, 42, u32::MAX] {
        assert_eq!(parse_number(&n.to_string()), Some(n));
    }
    for t in ["", "x", "1x", "-1", "4294967296", " 1"] {
        assert_eq!(parse_number(t), t.parse::<u32>().ok());
    }
    assert_eq!(parse_number("+7"), "+7".parse::<u32>().ok());
}
